use std::sync::{Arc, Mutex};
use tarapi::ledger::{Entry, UsageLedger};
use tarapi::stats::{compute_stats, top_n, Stats, RANKED_COMMANDS};
use tarapi::text::{format_bytes, format_uptime};

fn name(s: &str) -> String {
    s.to_string()
}

fn names_of(v: &[Entry]) -> Vec<String> {
    v.iter().map(|e| e.name.clone()).collect()
}

#[test]
fn uptime_leaves_out_leading_zero_units() {
    assert_eq!(format_uptime(0), "0s");
    assert_eq!(format_uptime(59), "59s");
    assert_eq!(format_uptime(61), "1m 1s");
    assert_eq!(format_uptime(3600), "1h 0m 0s");
    assert_eq!(format_uptime(3725), "1h 2m 5s");
    assert_eq!(format_uptime(86400), "1d 0h 0m 0s");
    assert_eq!(format_uptime(90061), "1d 1h 1m 1s");
}

#[test]
fn bytes_in_largest_unit_reached() {
    assert_eq!(format_bytes(0), "0.00 B");
    assert_eq!(format_bytes(1023), "1023.00 B");
    assert_eq!(format_bytes(1024), "1.00 KB");
    assert_eq!(format_bytes(1536), "1.50 KB");
    assert_eq!(format_bytes(1048576), "1.00 MB");
    assert_eq!(format_bytes(3 * 1073741824), "3.00 GB");
    assert_eq!(format_bytes(1099511627776), "1.00 TB");
    assert_eq!(format_bytes(2048 * 1099511627776), "2048.00 TB");
    assert_eq!(format_bytes(u64::MAX), "16777216.00 TB");
}

#[test]
fn bytes_agree_with_float_rendering() {
    let units = ["B", "KB", "MB", "GB", "TB"];
    let mut samples: Vec<u64> = vec![1, 999, 1000, 1025, 1029, 5000, 123456, 987654321, 17179869184];
    for k in 0..40u64 {
        samples.push(k * 7919 * 1031 + k);
        samples.push((1u64 << k) + 3 * k);
    }
    for b in samples {
        let mut size = b as f64;
        let mut i = 0;
        while size >= 1024.0 && i < units.len() - 1 {
            size /= 1024.0;
            i += 1;
        }
        assert_eq!(format_bytes(b), format!("{:.2} {}", size, units[i]), "bytes {}", b);
    }
}

#[test]
fn increment_creates_then_adds() {
    let mut l = UsageLedger::new();
    assert_eq!(l.count(&name("roll")), 0);
    l.increment(&name("roll"));
    assert_eq!(l.count(&name("roll")), 1);
    l.increment(&name("roll"));
    l.increment(&name("stats"));
    assert_eq!(l.count(&name("roll")), 2);
    assert_eq!(l.count(&name("stats")), 1);
    assert_eq!(l.count(&name("health")), 0);
}

#[test]
fn thousand_increments_count_exactly() {
    let mut l = UsageLedger::new();
    for _ in 0..1000 {
        l.increment(&name("coinflip"));
    }
    assert_eq!(l.count(&name("coinflip")), 1000);
}

#[test]
fn concurrent_increments_are_not_lost() {
    let ledger = Arc::new(Mutex::new(UsageLedger::new()));
    let rt = tokio::runtime::Builder::new_multi_thread().worker_threads(8).build().unwrap();
    rt.block_on(async {
        let mut handles = Vec::new();
        for i in 0..1000 {
            let l = ledger.clone();
            handles.push(tokio::spawn(async move {
                let mut guard = l.lock().unwrap();
                guard.increment(&"roll".to_string());
                if i % 2 == 0 {
                    guard.increment(&"stats".to_string());
                }
            }));
        }
        for h in handles {
            h.await.unwrap();
        }
    });
    let l = ledger.lock().unwrap();
    assert_eq!(l.count(&"roll".to_string()), 1000);
    assert_eq!(l.count(&"stats".to_string()), 500);
}

#[test]
fn snapshot_groups_increments_by_name() {
    let mut l = UsageLedger::new();
    let calls = ["a", "b", "a", "c", "a", "b"];
    for c in calls {
        l.increment(&name(c));
    }
    let snap = l.snapshot();
    assert_eq!(names_of(&snap), vec!["a", "b", "c"]);
    assert_eq!(snap.iter().map(|e| e.count).collect::<Vec<_>>(), vec![3, 2, 1]);
    let again = l.snapshot();
    assert_eq!(names_of(&again), names_of(&snap));
}

fn ledger_with(counts: &[(&str, u64)]) -> UsageLedger {
    let mut l = UsageLedger::new();
    for (n, c) in counts {
        l.increment(&name(n));
        for _ in 1..*c {
            l.increment(&name(n));
        }
    }
    l
}

#[test]
fn top_n_breaks_ties_by_registration_order() {
    let l = ledger_with(&[("a", 5), ("b", 5), ("c", 3), ("d", 1)]);
    let top = top_n(3, &l.snapshot());
    assert_eq!(names_of(&top), vec!["a", "b", "c"]);
    let l2 = ledger_with(&[("b", 5), ("d", 1), ("a", 5), ("c", 3)]);
    let top2 = top_n(3, &l2.snapshot());
    assert_eq!(names_of(&top2), vec!["b", "a", "c"]);
}

#[test]
fn top_n_of_more_than_present() {
    let l = ledger_with(&[("x", 1), ("y", 4)]);
    let top = top_n(10, &l.snapshot());
    assert_eq!(names_of(&top), vec!["y", "x"]);
    assert_eq!(top_n(0, &l.snapshot()).len(), 0);
    assert_eq!(top_n(5, &Vec::new()).len(), 0);
}

#[test]
fn stats_rate_over_two_hours() {
    let l = ledger_with(&[("roll", 60), ("stats", 40)]);
    let now = 1_700_000_000i64;
    let st = compute_stats(&l, now - 7200, now);
    assert_eq!(st.total, 100);
    assert_eq!(st.uptime_hours, 2);
    assert_eq!(st.uptime_seconds, 7200);
    assert_eq!(st.rate_per_hour(), (50, 0));
    assert_eq!(st.rate_text(), "50.0");
    assert_eq!(names_of(&st.ranked), vec!["roll", "stats"]);
}

#[test]
fn stats_rate_zero_without_a_full_hour() {
    let l = ledger_with(&[("roll", 100)]);
    let st = compute_stats(&l, 1000, 1000);
    assert_eq!(st.uptime_hours, 0);
    assert_eq!(st.rate_text(), "0.0");
    let st2 = compute_stats(&l, 5000, 1000);
    assert_eq!(st2.uptime_seconds, 0);
    assert_eq!(st2.rate_per_hour(), (0, 0));
    let st3 = compute_stats(&l, 0, 3 * 3600 + 59);
    assert_eq!(st3.rate_text(), "33.3");
}

#[test]
fn rate_rounds_to_tenths_even_for_huge_totals() {
    let st = Stats { total: u128::MAX, uptime_seconds: 3600, uptime_hours: 1, ranked: Vec::new() };
    assert_eq!(st.rate_per_hour(), (u128::MAX, 0));
    let st2 = Stats { total: 1, uptime_seconds: 0, uptime_hours: 3, ranked: Vec::new() };
    assert_eq!(st2.rate_text(), "0.3");
    let st3 = Stats { total: 2, uptime_seconds: 0, uptime_hours: 3, ranked: Vec::new() };
    assert_eq!(st3.rate_text(), "0.7");
    let st4 = Stats { total: 1, uptime_seconds: 0, uptime_hours: 20, ranked: Vec::new() };
    assert_eq!(st4.rate_text(), "0.0");
    let st5 = Stats { total: 3, uptime_seconds: 0, uptime_hours: 20, ranked: Vec::new() };
    assert_eq!(st5.rate_text(), "0.2");
    let st6 = Stats { total: 199, uptime_seconds: 0, uptime_hours: 2, ranked: Vec::new() };
    assert_eq!(st6.rate_per_hour(), (99, 5));
}

#[test]
fn stats_ranks_at_most_ten() {
    let mut l = UsageLedger::new();
    for i in 0..12u64 {
        for _ in 0..=i {
            l.increment(&format!("cmd{}", i));
        }
    }
    let st = compute_stats(&l, 0, 0);
    assert_eq!(st.ranked.len(), RANKED_COMMANDS);
    assert_eq!(st.ranked[0].name, "cmd11");
    assert_eq!(st.ranked[9].name, "cmd2");
    assert_eq!(st.total, 78);
}
