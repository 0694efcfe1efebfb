//! What each command computes, apart from how its reply is presented.
use vstd::prelude::*;
use rand::Rng;
use crate::text::{uptime_text, format_uptime};

verus! {

/// What `chrono` renders for a UTC timestamp as `%Y-%m-%d %H:%M:%S UTC`.
pub uninterp spec fn utc_text(secs: int) -> Seq<char>;

/// Relies on `rand::Rng::gen_range` over `lo..=hi` on the thread's generator:
/// a value inside the inclusive range; it panics on an empty range.
#[verifier::external_body]
fn random_between(lo: u32, hi: u32) -> (r: u32)
    requires
        lo <= hi,
    ensures
        lo <= r <= hi,
{
    rand::thread_rng().gen_range(lo..=hi)
}

/// Relies on `rand::Rng::gen_ratio(1, 2)` on the thread's generator: a fair coin.
#[verifier::external_body]
fn flip_coin() -> (r: bool) {
    rand::thread_rng().gen_ratio(1, 2)
}

/// 0000-01-01 00:00:00 UTC, in seconds since the epoch.
pub const MIN_RENDERED_TIME: i64 = -62167219200;
/// 9999-12-31 23:59:59 UTC, in seconds since the epoch.
pub const MAX_RENDERED_TIME: i64 = 253402300799;

/// Relies on `chrono::DateTime::from_timestamp` and `format`: the timestamp
/// rendered as `%Y-%m-%d %H:%M:%S UTC`, or `None` where chrono cannot represent
/// it; every instant from year 0 to year 9999 is represented.
#[verifier::external_body]
fn utc_timestamp_text(secs: i64) -> (r: Option<String>)
    ensures
        r matches Some(t) ==> t@ == utc_text(secs as int),
        MIN_RENDERED_TIME <= secs <= MAX_RENDERED_TIME ==> r is Some,
{
    match chrono::DateTime::from_timestamp(secs, 0) {
        Some(d) => Some(d.format("%Y-%m-%d %H:%M:%S UTC").to_string()),
        None => None,
    }
}

/// Number of tech facts to choose from.
pub const FACT_COUNT: u32 = 12;
/// Number of jokes to choose from.
pub const JOKE_COUNT: u32 = 10;
/// Number of magic 8-ball answers to choose from.
pub const ANSWER_COUNT: u32 = 20;

/// The sum of a sequence of rolls.
pub open spec fn sum_rolls(s: Seq<u32>) -> nat
    decreases s.len(),
{
    if s.len() == 0 { 0 } else { sum_rolls(s.drop_last()) + s.last() as nat }
}

/// How many flips came up heads.
pub open spec fn heads_in(s: Seq<bool>) -> nat
    decreases s.len(),
{
    if s.len() == 0 { 0 } else { heads_in(s.drop_last()) + if s.last() { 1nat } else { 0nat } }
}

/// A roll of `count` dice with `sides` sides.
pub struct DiceRoll {
    pub sides: u32,
    pub count: u32,
    pub results: Vec<u32>,
    pub total: u64,
}

/// Rolls `count` dice of `sides` sides.
pub fn roll_dice(sides: u32, count: u32) -> (r: DiceRoll)
    requires
        sides >= 1,
    ensures
        r.sides == sides,
        r.count == count,
        r.results@.len() == count,
        forall|i: int| 0 <= i < r.results@.len() ==> 1 <= #[trigger] r.results@[i] <= sides,
        r.total as nat == sum_rolls(r.results@),
{
    let mut results: Vec<u32> = Vec::new();
    let mut total: u64 = 0;
    let mut i: u32 = 0;
    while i < count
        invariant
            i <= count,
            sides >= 1,
            results@.len() == i,
            forall|j: int| 0 <= j < results@.len() ==> 1 <= #[trigger] results@[j] <= sides,
            total as nat == sum_rolls(results@),
            total <= i as u64 * u32::MAX as u64,
        decreases count - i,
    {
        let x = random_between(1, sides);
        assert(total + x <= (i + 1) as u64 * u32::MAX as u64) by (nonlinear_arith)
            requires
                total <= i as u64 * u32::MAX as u64,
                x <= u32::MAX;
        let ghost before = results@;
        results.push(x);
        assert(results@.drop_last() =~= before);
        total = total + x as u64;
        i = i + 1;
    }
    DiceRoll { sides, count, results, total }
}

/// Flips of a number of coins, with the tallies.
pub struct CoinFlips {
    pub flips: Vec<bool>,
    pub heads: u32,
    pub tails: u32,
}

/// Tallies heads and tails of a sequence of flips.
pub fn tally_flips(flips: Vec<bool>) -> (r: CoinFlips)
    requires
        flips@.len() <= u32::MAX,
    ensures
        r.flips@ == flips@,
        r.heads as nat == heads_in(flips@),
        r.heads + r.tails == flips@.len(),
{
    let mut heads: u32 = 0;
    let mut tails: u32 = 0;
    let mut i: usize = 0;
    while i < flips.len()
        invariant
            i <= flips@.len() <= u32::MAX,
            heads as nat == heads_in(flips@.take(i as int)),
            heads + tails == i,
        decreases flips.len() - i,
    {
        assert(flips@.take(i + 1).drop_last() =~= flips@.take(i as int));
        if flips[i] {
            heads = heads + 1;
        } else {
            tails = tails + 1;
        }
        i = i + 1;
    }
    assert(flips@.take(i as int) =~= flips@);
    CoinFlips { flips, heads, tails }
}

/// Flips `count` coins.
pub fn flip_coins(count: u32) -> (r: CoinFlips)
    ensures
        r.flips@.len() == count,
        r.heads as nat == heads_in(r.flips@),
        r.heads + r.tails == count,
{
    let mut flips: Vec<bool> = Vec::new();
    let mut i: u32 = 0;
    while i < count
        invariant
            i <= count,
            flips@.len() == i,
        decreases count - i,
    {
        flips.push(flip_coin());
        i = i + 1;
    }
    tally_flips(flips)
}

/// A random position below `n`.
pub(crate) fn random_below(n: u32) -> (r: u32)
    requires
        n > 0,
    ensures
        r < n,
{
    random_between(0, n - 1)
}

/// The tone of a magic 8-ball answer.
pub enum Mood {
    Positive,
    Neutral,
    Negative,
}

/// The first ten answers are positive, the next five neutral, the rest negative.
pub open spec fn mood_spec(answer: u32) -> Mood {
    if answer < 10 { Mood::Positive } else if answer < 15 { Mood::Neutral } else { Mood::Negative }
}

/// The tone of the answer at position `answer`.
pub fn mood_of(answer: u32) -> (r: Mood)
    ensures
        r == mood_spec(answer),
{
    if answer < 10 { Mood::Positive } else if answer < 15 { Mood::Neutral } else { Mood::Negative }
}

/// Overall health.
pub enum HealthStatus {
    Healthy,
    Degraded,
    Unhealthy,
}

/// `used` is below `limit` percent of `total` (never where `total` is zero).
pub open spec fn percent_below(used: nat, total: nat, limit: nat) -> bool {
    total > 0 && used * 100 < limit * total
}

/// Healthy under half a second and 80% memory, degraded under a second and
/// 90% memory, unhealthy otherwise.
pub open spec fn health_spec(response_ms: nat, memory_used: nat, memory_total: nat) -> HealthStatus {
    if response_ms < 500 && percent_below(memory_used, memory_total, 80) {
        HealthStatus::Healthy
    } else if response_ms < 1000 && percent_below(memory_used, memory_total, 90) {
        HealthStatus::Degraded
    } else {
        HealthStatus::Unhealthy
    }
}

fn below_percent(used: u64, total: u64, limit: u64) -> (r: bool)
    requires
        limit <= 100,
    ensures
        r == percent_below(used as nat, total as nat, limit as nat),
{
    assert((limit as u128) * (total as u128) <= 100 * (u64::MAX as u128)) by (nonlinear_arith)
        requires limit <= 100, total <= u64::MAX;
    total > 0 && (used as u128) * 100 < (limit as u128) * (total as u128)
}

/// Classifies health from the response time and memory in use.
pub fn health_status(response_ms: u64, memory_used: u64, memory_total: u64) -> (r: HealthStatus)
    ensures
        r == health_spec(response_ms as nat, memory_used as nat, memory_total as nat),
{
    if response_ms < 500 && below_percent(memory_used, memory_total, 80) {
        HealthStatus::Healthy
    } else if response_ms < 1000 && below_percent(memory_used, memory_total, 90) {
        HealthStatus::Degraded
    } else {
        HealthStatus::Unhealthy
    }
}

/// Space on one disk, in bytes.
pub struct DiskSpace {
    pub total: u64,
    pub available: u64,
}

/// State of the disks taken together.
pub enum DiskStatus {
    Unknown,
    Good,
    Warning,
    Critical,
}

pub open spec fn disk_total(d: Seq<DiskSpace>) -> nat
    decreases d.len(),
{
    if d.len() == 0 { 0 } else { disk_total(d.drop_last()) + d.last().total as nat }
}

pub open spec fn disk_available(d: Seq<DiskSpace>) -> nat
    decreases d.len(),
{
    if d.len() == 0 { 0 } else { disk_available(d.drop_last()) + d.last().available as nat }
}

/// Unknown without disks; critical where more space is reported available than
/// there is in total; otherwise by the share of all space in use: good below
/// 80%, warning below 90%, critical otherwise.
pub open spec fn disk_spec(d: Seq<DiskSpace>) -> DiskStatus {
    let total = disk_total(d);
    let avail = disk_available(d);
    let used: nat = if avail <= total { (total - avail) as nat } else { 0 };
    if d.len() == 0 {
        DiskStatus::Unknown
    } else if avail > total {
        DiskStatus::Critical
    } else if percent_below(used, total, 80) {
        DiskStatus::Good
    } else if percent_below(used, total, 90) {
        DiskStatus::Warning
    } else {
        DiskStatus::Critical
    }
}

/// Classifies the disks by the share of their space in use.
pub fn disk_status(disks: &Vec<DiskSpace>) -> (r: DiskStatus)
    requires
        disks@.len() <= u32::MAX,
    ensures
        r == disk_spec(disks@),
{
    if disks.len() == 0 {
        return DiskStatus::Unknown;
    }
    let mut total: u128 = 0;
    let mut avail: u128 = 0;
    let mut i: usize = 0;
    while i < disks.len()
        invariant
            i <= disks@.len() <= u32::MAX,
            total as nat == disk_total(disks@.take(i as int)),
            avail as nat == disk_available(disks@.take(i as int)),
            total <= i as u128 * u64::MAX as u128,
            avail <= i as u128 * u64::MAX as u128,
        decreases disks.len() - i,
    {
        assert(disks@.take(i + 1).drop_last() =~= disks@.take(i as int));
        let d = &disks[i];
        assert(total + d.total <= (i + 1) as u128 * u64::MAX as u128) by (nonlinear_arith)
            requires total <= i as u128 * u64::MAX as u128, d.total <= u64::MAX;
        assert(avail + d.available <= (i + 1) as u128 * u64::MAX as u128) by (nonlinear_arith)
            requires avail <= i as u128 * u64::MAX as u128, d.available <= u64::MAX;
        total = total + d.total as u128;
        avail = avail + d.available as u128;
        i = i + 1;
    }
    assert(disks@.take(i as int) =~= disks@);
    assert(total <= u32::MAX as u128 * u64::MAX as u128) by (nonlinear_arith)
        requires total <= i as u128 * u64::MAX as u128, i <= u32::MAX;
    if avail > total {
        return DiskStatus::Critical;
    }
    let used: u128 = total - avail;
    if total > 0 && used * 100 < 80 * total {
        DiskStatus::Good
    } else if total > 0 && used * 100 < 90 * total {
        DiskStatus::Warning
    } else {
        DiskStatus::Critical
    }
}

/// How long the process has run, and since when.
pub struct UptimeReport {
    pub seconds: u64,
    pub text: String,
    pub started_at: Option<String>,
}

/// The uptime of a process started at `start` (seconds), observed at `now`.
pub fn uptime_report(start: i64, now: i64) -> (r: UptimeReport)
    ensures
        r.seconds as nat == crate::stats::elapsed_seconds(start as int, now as int),
        r.text@ == uptime_text(r.seconds as nat),
        r.started_at matches Some(t) ==> t@ == utc_text(start as int),
        MIN_RENDERED_TIME <= start <= MAX_RENDERED_TIME ==> r.started_at is Some,
{
    let seconds: u64 = if now > start { (now as i128 - start as i128) as u64 } else { 0 };
    UptimeReport { seconds, text: format_uptime(seconds), started_at: utc_timestamp_text(start) }
}

} // verus!
