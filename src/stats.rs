//! Aggregates derived from a ledger snapshot: totals, rates and rankings.
use vstd::prelude::*;
use crate::ledger::{Entry, EntriesView, UsageLedger, entries_view, total_of};
use crate::text::{decimal, div_round_even, push_decimal, digit_char};

verus! {

/// `e` placed after every entry of `r` whose count is at least its own.
/// On a list ordered by descending count this keeps it ordered, and an entry
/// goes after the entries of equal count that were placed before it.
pub open spec fn insert_desc(r: EntriesView, e: (Seq<char>, u64)) -> EntriesView
    decreases r.len(),
{
    if r.len() == 0 {
        seq![e]
    } else if r.last().1 >= e.1 {
        r.push(e)
    } else {
        insert_desc(r.drop_last(), e).push(r.last())
    }
}

/// The entries ordered by descending count; equal counts keep their order.
pub open spec fn sort_desc(s: EntriesView) -> EntriesView
    decreases s.len(),
{
    if s.len() == 0 {
        s
    } else {
        insert_desc(sort_desc(s.drop_last()), s.last())
    }
}

/// The first `n` entries by descending count, ties in snapshot order.
pub open spec fn top_n_spec(n: nat, s: EntriesView) -> EntriesView {
    let sorted = sort_desc(s);
    if n < sorted.len() { sorted.take(n as int) } else { sorted }
}

proof fn lemma_insert_at(r: EntriesView, e: (Seq<char>, u64), p: int)
    requires
        0 <= p <= r.len(),
        forall|j: int| p <= j < r.len() ==> r[j].1 < e.1,
        p == 0 || r[p - 1].1 >= e.1,
    ensures
        insert_desc(r, e) == r.take(p).push(e) + r.skip(p),
    decreases r.len(),
{
    if r.len() == 0 {
        assert(r.take(p).push(e) + r.skip(p) =~= seq![e]);
    } else if p == r.len() {
        assert(r.take(p).push(e) + r.skip(p) =~= r.push(e));
    } else {
        let d = r.drop_last();
        lemma_insert_at(d, e, p);
        assert(d.take(p).push(e) + d.skip(p) + seq![r.last()] =~= r.take(p).push(e) + r.skip(p));
    }
}

proof fn lemma_sort_len(s: EntriesView)
    ensures
        sort_desc(s).len() == s.len(),
    decreases s.len(),
{
    if s.len() > 0 {
        lemma_sort_len(s.drop_last());
        lemma_insert_len(sort_desc(s.drop_last()), s.last());
    }
}

proof fn lemma_insert_len(r: EntriesView, e: (Seq<char>, u64))
    ensures
        insert_desc(r, e).len() == r.len() + 1,
    decreases r.len(),
{
    if r.len() > 0 && r.last().1 < e.1 {
        lemma_insert_len(r.drop_last(), e);
    }
}

/// The first `n` entries of `snapshot` by descending count; entries of equal
/// count keep the order they have in `snapshot`.
pub fn top_n(n: usize, snapshot: &Vec<Entry>) -> (r: Vec<Entry>)
    ensures
        entries_view(r@) == top_n_spec(n as nat, entries_view(snapshot@)),
{
    let ghost s = entries_view(snapshot@);
    let mut sorted: Vec<Entry> = Vec::new();
    let mut i: usize = 0;
    while i < snapshot.len()
        invariant
            i <= snapshot.len(),
            s == entries_view(snapshot@),
            entries_view(sorted@) == sort_desc(s.take(i as int)),
        decreases snapshot.len() - i,
    {
        let e = &snapshot[i];
        let ghost before = entries_view(sorted@);
        let mut p: usize = sorted.len();
        while p > 0 && sorted[p - 1].count < e.count
            invariant
                p <= sorted.len(),
                forall|j: int| p <= j < sorted.len() ==> sorted@[j].count < e.count,
            decreases p,
        {
            p = p - 1;
        }
        proof {
            lemma_insert_at(before, (e.name@, e.count), p as int);
            assert(s.take(i + 1).drop_last() =~= s.take(i as int));
            assert(s.take(i + 1).last() == (e.name@, e.count));
        }
        sorted.insert(p, Entry { name: e.name.clone(), count: e.count });
        assert(entries_view(sorted@) =~= before.take(p as int).push((e.name@, e.count)) + before.skip(p as int));
        i = i + 1;
    }
    assert(s.take(i as int) =~= s);
    proof {
        lemma_sort_len(s);
    }
    if n < sorted.len() {
        sorted.truncate(n);
        assert(entries_view(sorted@) =~= top_n_spec(n as nat, s));
    }
    sorted
}


/// How many entries a statistics reply ranks.
pub const RANKED_COMMANDS: usize = 10;

/// Whole seconds from `start` to `now`; zero where `now` is not later.
pub open spec fn elapsed_seconds(start: int, now: int) -> nat {
    if now > start { (now - start) as nat } else { 0 }
}

/// Invocations per hour of uptime in tenths, rounded to nearest (ties to even);
/// zero where less than an hour has passed.
pub open spec fn rate_tenths(total: nat, hours: nat) -> nat {
    if hours == 0 { 0 } else { div_round_even(total * 10, hours) }
}

/// Aggregates over the ledger at one moment.
pub struct Stats {
    /// Sum of all counts.
    pub total: u128,
    /// Seconds since the process started.
    pub uptime_seconds: u64,
    /// Whole hours since the process started.
    pub uptime_hours: u64,
    /// The most used commands, most used first.
    pub ranked: Vec<Entry>,
}

impl Stats {
    /// Invocations per hour, rounded to tenths: the whole part and the tenth
    /// (`(50, 0)` for fifty per hour).
    pub fn rate_per_hour(&self) -> (r: (u128, u8))
        ensures
            r.0 as nat == rate_tenths(self.total as nat, self.uptime_hours as nat) / 10,
            r.1 as nat == rate_tenths(self.total as nat, self.uptime_hours as nat) % 10,
    {
        if self.uptime_hours == 0 {
            return (0, 0);
        }
        let total = self.total;
        let b: u128 = self.uptime_hours as u128;
        let q1: u128 = total / b;
        let r1: u128 = total % b;
        let a2: u128 = r1 * 10;
        let q2: u128 = a2 / b;
        let rem2: u128 = a2 % b;
        let t2: u128 = if 2 * rem2 > b || (2 * rem2 == b && q2 % 2 == 1) { q2 + 1 } else { q2 };
        proof {
            let x = 10 * total as int;
            let q = 10 * q1 as int + q2 as int;
            vstd::arithmetic::div_mod::lemma_fundamental_div_mod(total as int, b as int);
            vstd::arithmetic::div_mod::lemma_fundamental_div_mod(a2 as int, b as int);
            assert(total as int == q1 as int * b as int + r1 as int) by (nonlinear_arith)
                requires total as int == b as int * (total as int / b as int) + total as int % b as int,
                    q1 as int == total as int / b as int, r1 as int == total as int % b as int;
            assert(a2 as int == q2 as int * b as int + rem2 as int) by (nonlinear_arith)
                requires a2 as int == b as int * (a2 as int / b as int) + a2 as int % b as int,
                    q2 as int == a2 as int / b as int, rem2 as int == a2 as int % b as int;
            assert(x == q * b as int + rem2 as int) by (nonlinear_arith)
                requires
                    total as int == q1 as int * b as int + r1 as int,
                    a2 as int == q2 as int * b as int + rem2 as int,
                    a2 == r1 * 10,
                    x == 10 * total as int,
                    q == 10 * q1 as int + q2 as int;
            vstd::arithmetic::div_mod::lemma_fundamental_div_mod_converse(x, b as int, q, rem2 as int);
            assert(q2 < 10) by (nonlinear_arith)
                requires
                    a2 as int == q2 as int * b as int + rem2 as int,
                    a2 == r1 * 10,
                    r1 < b;
            let t = q + (t2 - q2);
            assert(t == rate_tenths(total as nat, b as nat));
            vstd::arithmetic::div_mod::lemma_fundamental_div_mod_converse(t, 10, q1 as int + t2 / 10, (t2 % 10) as int);
            if t2 == 10 {
                assert(r1 >= 1);
                assert(q1 * 2 <= q1 * b) by (nonlinear_arith)
                    requires b >= 2;
            }
        }
        (q1 + t2 / 10, (t2 % 10) as u8)
    }

    /// The hourly rate with one decimal (`"50.0"`).
    pub fn rate_text(&self) -> (r: String)
        ensures
            r@ == decimal(rate_tenths(self.total as nat, self.uptime_hours as nat) / 10) + "."@
                + seq![digit_char(rate_tenths(self.total as nat, self.uptime_hours as nat) % 10)],
    {
        let (whole, tenth) = self.rate_per_hour();
        let mut s = String::new();
        push_decimal(&mut s, whole);
        s.append(".");
        s.append(crate::text::digit_text(tenth));
        s
    }
}

/// Total, uptime and ranking of the ledger, for a process started at
/// `process_start_time` and observed at `now` (both in seconds).
pub fn compute_stats(ledger: &UsageLedger, process_start_time: i64, now: i64) -> (r: Stats)
    requires
        ledger.wf(),
    ensures
        r.total as nat == total_of(ledger@),
        r.total <= u64::MAX as u128 * usize::MAX as u128,
        r.uptime_seconds as nat == elapsed_seconds(process_start_time as int, now as int),
        r.uptime_hours as nat == elapsed_seconds(process_start_time as int, now as int) / 3600,
        entries_view(r.ranked@) == top_n_spec(RANKED_COMMANDS as nat, ledger@),
{
    let snapshot = ledger.snapshot();
    let ghost s = entries_view(snapshot@);
    let mut total: u128 = 0;
    let mut i: usize = 0;
    while i < snapshot.len()
        invariant
            i <= snapshot.len(),
            s == entries_view(snapshot@),
            total as nat == total_of(s.take(i as int)),
            total <= u64::MAX as u128 * i as u128,
        decreases snapshot.len() - i,
    {
        assert(s.take(i + 1).drop_last() =~= s.take(i as int));
        assert(total + snapshot[i as int].count <= u64::MAX as u128 * (i + 1) as u128) by (nonlinear_arith)
            requires
                total <= u64::MAX as u128 * i as u128,
                snapshot[i as int].count <= u64::MAX;
        total = total + snapshot[i].count as u128;
        i = i + 1;
    }
    assert(s.take(i as int) =~= s);
    assert(u64::MAX as u128 * i as u128 <= u64::MAX as u128 * usize::MAX as u128) by (nonlinear_arith)
        requires
            i <= usize::MAX;
    let uptime_seconds: u64 = if now > process_start_time {
        (now as i128 - process_start_time as i128) as u64
    } else {
        0
    };
    let ranked = top_n(RANKED_COMMANDS, &snapshot);
    Stats { total, uptime_seconds, uptime_hours: uptime_seconds / 3600, ranked }
}

} // verus!
