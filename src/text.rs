//! Decimal rendering and the human-readable durations and sizes shown in replies.
use vstd::prelude::*;

verus! {

/// The character of a decimal digit.
pub open spec fn digit_char(d: nat) -> char {
    if d == 0 { '0' }
    else if d == 1 { '1' }
    else if d == 2 { '2' }
    else if d == 3 { '3' }
    else if d == 4 { '4' }
    else if d == 5 { '5' }
    else if d == 6 { '6' }
    else if d == 7 { '7' }
    else if d == 8 { '8' }
    else { '9' }
}

/// The decimal notation of `n`, without leading zeros.
pub open spec fn decimal(n: nat) -> Seq<char>
    decreases n,
{
    if n < 10 {
        seq![digit_char(n)]
    } else {
        decimal(n / 10) + seq![digit_char(n % 10)]
    }
}

/// `n` as exactly two digits, with a leading zero below ten.
pub open spec fn two_digits(n: nat) -> Seq<char> {
    seq![digit_char((n / 10) % 10), digit_char(n % 10)]
}

pub(crate) fn digit_text(d: u8) -> (r: &'static str)
    requires
        d < 10,
    ensures
        r@ == seq![digit_char(d as nat)],
{
    if d == 0 {
        proof { reveal_strlit("0"); }
        "0"
    } else if d == 1 {
        proof { reveal_strlit("1"); }
        "1"
    } else if d == 2 {
        proof { reveal_strlit("2"); }
        "2"
    } else if d == 3 {
        proof { reveal_strlit("3"); }
        "3"
    } else if d == 4 {
        proof { reveal_strlit("4"); }
        "4"
    } else if d == 5 {
        proof { reveal_strlit("5"); }
        "5"
    } else if d == 6 {
        proof { reveal_strlit("6"); }
        "6"
    } else if d == 7 {
        proof { reveal_strlit("7"); }
        "7"
    } else if d == 8 {
        proof { reveal_strlit("8"); }
        "8"
    } else {
        proof { reveal_strlit("9"); }
        "9"
    }
}

/// Appends the decimal notation of `n` to `s`.
pub fn push_decimal(s: &mut String, n: u128)
    ensures
        final(s)@ == old(s)@ + decimal(n as nat),
    decreases n,
{
    if n >= 10 {
        push_decimal(s, n / 10);
    }
    let d = (n % 10) as u8;
    s.append(digit_text(d));
    assert(final(s)@ =~= old(s)@ + decimal(n as nat)) by {
        if n >= 10 {
            assert(decimal(n as nat) == decimal((n / 10) as nat) + seq![digit_char((n % 10) as nat)]);
        }
    }
}


/// An uptime of `seconds` as days, hours, minutes and seconds, leaving out the
/// leading units that are zero (`"1d 2h 3m 4s"`, `"2h 0m 5s"`, `"5m 0s"`, `"7s"`).
pub open spec fn uptime_text(seconds: nat) -> Seq<char> {
    let days = seconds / 86400;
    let hours = (seconds % 86400) / 3600;
    let minutes = (seconds % 3600) / 60;
    let secs = seconds % 60;
    if days > 0 {
        decimal(days) + "d "@ + decimal(hours) + "h "@ + decimal(minutes) + "m "@ + decimal(secs) + "s"@
    } else if hours > 0 {
        decimal(hours) + "h "@ + decimal(minutes) + "m "@ + decimal(secs) + "s"@
    } else if minutes > 0 {
        decimal(minutes) + "m "@ + decimal(secs) + "s"@
    } else {
        decimal(secs) + "s"@
    }
}

/// Renders an uptime given in seconds.
pub fn format_uptime(seconds: u64) -> (r: String)
    ensures
        r@ == uptime_text(seconds as nat),
{
    let days: u64 = seconds / 86400;
    let hours: u64 = (seconds % 86400) / 3600;
    let minutes: u64 = (seconds % 3600) / 60;
    let secs: u64 = seconds % 60;
    let mut s = String::new();
    if days > 0 {
        push_decimal(&mut s, days as u128);
        s.append("d ");
        push_decimal(&mut s, hours as u128);
        s.append("h ");
        push_decimal(&mut s, minutes as u128);
        s.append("m ");
    } else if hours > 0 {
        push_decimal(&mut s, hours as u128);
        s.append("h ");
        push_decimal(&mut s, minutes as u128);
        s.append("m ");
    } else if minutes > 0 {
        push_decimal(&mut s, minutes as u128);
        s.append("m ");
    }
    push_decimal(&mut s, secs as u128);
    s.append("s");
    assert(s@ =~= uptime_text(seconds as nat));
    s
}

/// The size units, from bytes up to terabytes.
pub open spec fn unit_name(k: nat) -> Seq<char> {
    if k == 0 { "B"@ }
    else if k == 1 { "KB"@ }
    else if k == 2 { "MB"@ }
    else if k == 3 { "GB"@ }
    else { "TB"@ }
}

/// The unit a size is shown in: the largest of the five whose scale it reaches.
pub open spec fn unit_of(bytes: nat) -> nat {
    if bytes >= pow1024(4) { 4 }
    else if bytes >= pow1024(3) { 3 }
    else if bytes >= pow1024(2) { 2 }
    else if bytes >= pow1024(1) { 1 }
    else { 0 }
}

/// 1024 to the power `k`.
pub open spec fn pow1024(k: nat) -> nat
    decreases k,
{
    if k == 0 { 1 } else { 1024 * pow1024((k - 1) as nat) }
}

/// `a / b` rounded to the nearest integer, ties to the even one.
pub open spec fn div_round_even(a: nat, b: nat) -> nat
    recommends
        b > 0,
{
    let q = a / b;
    let r = a % b;
    if 2 * r > b || (2 * r == b && q % 2 == 1) { q + 1 } else { q }
}

/// A size in hundredths of its unit, rounded to nearest, ties to even.
pub open spec fn hundredths_of(bytes: nat) -> nat {
    div_round_even(bytes * 100, pow1024(unit_of(bytes)))
}

/// A size with two decimals and its unit (`"1.50 KB"`, `"0.00 B"`).
pub open spec fn bytes_text(bytes: nat) -> Seq<char> {
    let h = hundredths_of(bytes);
    decimal(h / 100) + "."@ + two_digits(h % 100) + " "@ + unit_name(unit_of(bytes))
}

fn unit_text(k: u8) -> (r: &'static str)
    requires
        k < 5,
    ensures
        r@ == unit_name(k as nat),
{
    if k == 0 { "B" } else if k == 1 { "KB" } else if k == 2 { "MB" } else if k == 3 { "GB" } else { "TB" }
}

/// Renders a byte count in the largest unit it reaches, with two decimals.
pub fn format_bytes(bytes: u64) -> (r: String)
    ensures
        r@ == bytes_text(bytes as nat),
{
    proof {
        reveal_with_fuel(pow1024, 5);
    }
    let mut k: u8 = 0;
    let mut scale: u128 = 1;
    while k < 4 && bytes as u128 >= scale * 1024
        invariant
            k <= 4,
            scale == pow1024(k as nat),
            pow1024(1) == 1024 && pow1024(2) == 1048576 && pow1024(3) == 1073741824
                && pow1024(4) == 1099511627776,
            forall|j: nat| 1 <= j <= k ==> bytes >= #[trigger] pow1024(j),
        decreases 4 - k,
    {
        scale = scale * 1024;
        k = k + 1;
    }
    assert(k as nat == unit_of(bytes as nat));
    let total: u128 = bytes as u128 * 100;
    let q: u128 = total / scale;
    let rem: u128 = total % scale;
    let h: u128 = if 2 * rem > scale || (2 * rem == scale && q % 2 == 1) { q + 1 } else { q };
    let mut s = String::new();
    push_decimal(&mut s, h / 100);
    s.append(".");
    let frac: u128 = h % 100;
    s.append(digit_text((frac / 10) as u8));
    s.append(digit_text((frac % 10) as u8));
    s.append(" ");
    s.append(unit_text(k));
    assert(s@ =~= bytes_text(bytes as nat));
    s
}

} // verus!
