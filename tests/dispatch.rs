use tarapi::args::{clamp, normalize, ArgError, ArgValue, ParamKind, ParamSpec, RawArgument};
use tarapi::commands::{
    disk_status, health_status, mood_of, tally_flips, uptime_report, DiskSpace, DiskStatus,
    HealthStatus, Mood, ANSWER_COUNT, FACT_COUNT, JOKE_COUNT,
};
use tarapi::dispatch::{
    complete, server_report, standard_commands, CommandDescriptor, DispatchError, Handler,
    HostMetrics, InvocationContext, MemoryInfo, InvocationRequest, Registry, Response,
};
use tarapi::ledger::UsageLedger;

fn registry() -> Registry {
    Registry::standard()
}

#[test]
fn standard_commands_register_cleanly() {
    assert!(Registry::new(standard_commands()).is_ok());
    let names: Vec<String> = standard_commands().into_iter().map(|c| c.name).collect();
    assert_eq!(
        names,
        vec!["server_info", "health", "random_fact", "system_joke", "roll", "coinflip", "magic8ball", "uptime", "stats"]
    );
}

fn ctx() -> InvocationContext {
    InvocationContext { process_start_time: 1_000, response_ms: 120, metrics: None }
}

fn request(name: &str, args: Vec<(&str, ArgValue)>) -> InvocationRequest {
    InvocationRequest {
        command_name: name.to_string(),
        raw_arguments: args
            .into_iter()
            .map(|(n, v)| RawArgument { name: n.to_string(), value: v })
            .collect(),
        invocation_time: 1_000 + 7_200,
    }
}

fn roll_of(sides: Option<u32>, count: Option<u32>) -> (u32, u32, Vec<u32>, u64) {
    let mut args = Vec::new();
    if let Some(s) = sides {
        args.push(("sides", ArgValue::Number(s)));
    }
    if let Some(c) = count {
        args.push(("count", ArgValue::Number(c)));
    }
    let mut l = UsageLedger::new();
    match registry().dispatch(&request("roll", args), &ctx(), &mut l) {
        Ok(Response::Roll(d)) => (d.sides, d.count, d.results, d.total),
        _ => panic!("roll did not produce a roll"),
    }
}

#[test]
fn unknown_command_leaves_ledger_unchanged() {
    let reg = registry();
    let mut l = UsageLedger::new();
    l.increment(&"roll".to_string());
    let r = reg.dispatch(&request("teleport", vec![]), &ctx(), &mut l);
    assert!(matches!(r, Err(DispatchError::UnknownCommand)));
    assert_eq!(l.count(&"teleport".to_string()), 0);
    assert_eq!(l.count(&"roll".to_string()), 1);
    assert_eq!(l.snapshot().len(), 1);
}

#[test]
fn success_adds_one_failure_adds_none() {
    let reg = registry();
    let mut l = UsageLedger::new();
    assert!(reg.dispatch(&request("random_fact", vec![]), &ctx(), &mut l).is_ok());
    assert_eq!(l.count(&"random_fact".to_string()), 1);
    assert!(reg.dispatch(&request("random_fact", vec![]), &ctx(), &mut l).is_ok());
    assert_eq!(l.count(&"random_fact".to_string()), 2);
    let r = reg.dispatch(&request("magic8ball", vec![]), &ctx(), &mut l);
    match r {
        Err(DispatchError::MissingRequiredArgument(n)) => assert_eq!(n, "question"),
        _ => panic!("expected a missing argument"),
    }
    assert_eq!(l.count(&"magic8ball".to_string()), 0);
}

#[test]
fn wrong_kind_of_argument_is_rejected() {
    let reg = registry();
    let mut l = UsageLedger::new();
    let r = reg.dispatch(&request("roll", vec![("sides", ArgValue::Text("six".to_string()))]), &ctx(), &mut l);
    match r {
        Err(DispatchError::InvalidArgument(n)) => assert_eq!(n, "sides"),
        _ => panic!("expected an invalid argument"),
    }
    assert_eq!(l.count(&"roll".to_string()), 0);
}

#[test]
fn dice_sides_clamped_and_defaulted() {
    assert_eq!(roll_of(Some(1), None).0, 2);
    assert_eq!(roll_of(Some(5000), None).0, 1000);
    assert_eq!(roll_of(None, None).0, 6);
    let (sides, count, results, total) = roll_of(Some(20), Some(99));
    assert_eq!(sides, 20);
    assert_eq!(count, 10);
    assert_eq!(results.len(), 10);
    assert!(results.iter().all(|r| (1..=20).contains(r)));
    assert_eq!(total, results.iter().map(|r| *r as u64).sum::<u64>());
    assert_eq!(roll_of(None, Some(0)).1, 1);
}

#[test]
fn normalize_applies_default_then_clamp() {
    let schema = standard_commands().into_iter().find(|c| c.name == "roll").unwrap().schema;
    let raw = vec![RawArgument { name: "sides".to_string(), value: ArgValue::Number(1) }];
    let vals = match normalize(&schema, &raw) {
        Ok(v) => v,
        Err(_) => panic!("normalization failed"),
    };
    assert!(matches!(vals[0], ArgValue::Number(2)));
    assert!(matches!(vals[1], ArgValue::Number(1)));
    assert_eq!(clamp(5000, Some((2, 1000))), 1000);
    assert_eq!(clamp(7, None), 7);
    let custom = vec![ParamSpec {
        name: "n".to_string(),
        kind: ParamKind::Number { default: Some(0), range: Some((3, 9)) },
    }];
    match normalize(&custom, &vec![]) {
        Ok(v) => assert!(matches!(v[0], ArgValue::Number(3))),
        Err(_) => panic!("default expected"),
    }
    let text = vec![ParamSpec { name: "q".to_string(), kind: ParamKind::Text { default_text: None } }];
    assert!(matches!(normalize(&text, &vec![]), Err(ArgError::Missing(_))));
}

#[test]
fn coinflip_counts_clamped() {
    let reg = registry();
    let mut l = UsageLedger::new();
    match reg.dispatch(&request("coinflip", vec![("count", ArgValue::Number(500))]), &ctx(), &mut l) {
        Ok(Response::CoinFlip(c)) => {
            assert_eq!(c.flips.len(), 50);
            assert_eq!(c.heads + c.tails, 50);
            assert_eq!(c.heads as usize, c.flips.iter().filter(|f| **f).count());
        }
        _ => panic!("expected flips"),
    }
    match reg.dispatch(&request("coinflip", vec![]), &ctx(), &mut l) {
        Ok(Response::CoinFlip(c)) => assert_eq!(c.flips.len(), 1),
        _ => panic!("expected flips"),
    }
    assert_eq!(l.count(&"coinflip".to_string()), 2);
}

#[test]
fn tally_counts_heads() {
    let t = tally_flips(vec![true, false, true, true]);
    assert_eq!(t.heads, 3);
    assert_eq!(t.tails, 1);
}

#[test]
fn picks_stay_in_their_tables() {
    let reg = registry();
    let mut l = UsageLedger::new();
    for _ in 0..50 {
        match reg.dispatch(&request("random_fact", vec![]), &ctx(), &mut l) {
            Ok(Response::Fact { index }) => assert!(index < FACT_COUNT),
            _ => panic!("expected a fact"),
        }
        match reg.dispatch(&request("system_joke", vec![]), &ctx(), &mut l) {
            Ok(Response::Joke { index }) => assert!(index < JOKE_COUNT),
            _ => panic!("expected a joke"),
        }
        let q = ("question", ArgValue::Text("Will it build?".to_string()));
        match reg.dispatch(&request("magic8ball", vec![q]), &ctx(), &mut l) {
            Ok(Response::Magic8Ball { question, answer, .. }) => {
                assert_eq!(question, "Will it build?");
                assert!(answer < ANSWER_COUNT);
            }
            _ => panic!("expected an answer"),
        }
    }
}

#[test]
fn answer_moods() {
    assert!(matches!(mood_of(0), Mood::Positive));
    assert!(matches!(mood_of(9), Mood::Positive));
    assert!(matches!(mood_of(10), Mood::Neutral));
    assert!(matches!(mood_of(14), Mood::Neutral));
    assert!(matches!(mood_of(15), Mood::Negative));
}

#[test]
fn stats_command_reports_before_counting_itself() {
    let reg = registry();
    let mut l = UsageLedger::new();
    for _ in 0..100 {
        assert!(reg.dispatch(&request("health", vec![]), &ctx(), &mut l).is_ok());
    }
    match reg.dispatch(&request("stats", vec![]), &ctx(), &mut l) {
        Ok(Response::Stats(st)) => {
            assert_eq!(st.total, 100);
            assert_eq!(st.uptime_hours, 2);
            assert_eq!(st.rate_text(), "50.0");
        }
        _ => panic!("expected stats"),
    }
    assert_eq!(l.count(&"stats".to_string()), 1);
}

#[test]
fn uptime_command_reports_elapsed() {
    let reg = registry();
    let mut l = UsageLedger::new();
    match reg.dispatch(&request("uptime", vec![]), &ctx(), &mut l) {
        Ok(Response::Uptime(u)) => {
            assert_eq!(u.seconds, 7200);
            assert_eq!(u.text, "2h 0m 0s");
            assert_eq!(u.started_at.as_deref(), Some("1970-01-01 00:16:40 UTC"));
        }
        _ => panic!("expected uptime"),
    }
    let u = uptime_report(1_700_000_000, 1_700_000_061);
    assert_eq!(u.text, "1m 1s");
    assert_eq!(u.started_at.as_deref(), Some("2023-11-14 22:13:20 UTC"));
}

#[test]
fn duplicate_names_are_refused() {
    let mut cmds = standard_commands();
    cmds.push(CommandDescriptor { name: "roll".to_string(), schema: vec![], handler: Handler::Roll });
    match Registry::new(cmds) {
        Err(n) => assert_eq!(n, "roll"),
        Ok(_) => panic!("duplicate accepted"),
    }
}

#[test]
fn failed_delivery_is_a_handler_failure() {
    let mut l = UsageLedger::new();
    let cmd = "health".to_string();
    let r = complete(&cmd, Err("gateway closed".to_string()), &mut l);
    match &r {
        Err(e @ DispatchError::HandlerFailure { command, cause }) => {
            assert_eq!(command, "health");
            assert_eq!(cause, "gateway closed");
            assert_eq!(e.user_message(), "An error occurred while running the command.");
        }
        _ => panic!("expected a handler failure"),
    }
    assert_eq!(l.count(&cmd), 0);
    assert!(complete(&cmd, Ok(()), &mut l).is_ok());
    assert_eq!(l.count(&cmd), 1);
}

#[test]
fn health_thresholds() {
    assert!(matches!(health_status(100, 50, 100), HealthStatus::Healthy));
    assert!(matches!(health_status(499, 79, 100), HealthStatus::Healthy));
    assert!(matches!(health_status(500, 10, 100), HealthStatus::Degraded));
    assert!(matches!(health_status(100, 80, 100), HealthStatus::Degraded));
    assert!(matches!(health_status(999, 89, 100), HealthStatus::Degraded));
    assert!(matches!(health_status(1000, 10, 100), HealthStatus::Unhealthy));
    assert!(matches!(health_status(10, 95, 100), HealthStatus::Unhealthy));
    assert!(matches!(health_status(10, 0, 0), HealthStatus::Unhealthy));
}

#[test]
fn disk_thresholds() {
    assert!(matches!(disk_status(&vec![]), DiskStatus::Unknown));
    let d = |t, a| DiskSpace { total: t, available: a };
    assert!(matches!(disk_status(&vec![d(100, 50)]), DiskStatus::Good));
    assert!(matches!(disk_status(&vec![d(100, 30), d(100, 10)]), DiskStatus::Warning));
    assert!(matches!(disk_status(&vec![d(100, 5)]), DiskStatus::Critical));
    assert!(matches!(disk_status(&vec![d(0, 0)]), DiskStatus::Critical));
    assert!(matches!(disk_status(&vec![d(100, 150)]), DiskStatus::Critical));
    assert!(matches!(disk_status(&vec![d(100, 100)]), DiskStatus::Good));
    assert!(matches!(disk_status(&vec![d(u64::MAX, u64::MAX), d(u64::MAX, 0)]), DiskStatus::Good));
}

fn metrics() -> HostMetrics {
    HostMetrics {
        memory: MemoryInfo { total: 8 * 1073741824, available: 5 * 1073741824, used: 3 * 1073741824 },
        disks: vec![DiskSpace { total: 1000, available: 100 }],
        os_version: Some("Linux 6.1".to_string()),
        kernel_version: None,
        host_uptime: 90061,
        public_ip: None,
        local_ip: Some("10.0.0.2".to_string()),
    }
}

#[test]
fn server_report_fills_unknowns() {
    let r = server_report(&metrics());
    assert_eq!(r.memory_total, "8.00 GB");
    assert_eq!(r.memory_used, "3.00 GB");
    assert_eq!(r.memory_available, "5.00 GB");
    assert_eq!(r.memory_usage_tenths, Some(375));
    assert_eq!(r.os_version, "Linux 6.1");
    assert_eq!(r.kernel_version, "Unknown");
    assert_eq!(r.uptime, "1d 1h 1m 1s");
    assert_eq!(r.public_ip, "Unknown");
    assert_eq!(r.local_ip, "10.0.0.2");
}

#[test]
fn health_command_uses_metrics() {
    let reg = registry();
    let mut l = UsageLedger::new();
    let c = InvocationContext { process_start_time: 0, response_ms: 700, metrics: Some(metrics()) };
    match reg.dispatch(&request("health", vec![]), &c, &mut l) {
        Ok(Response::Health { status, disks, response_ms, memory_usage_tenths }) => {
            assert_eq!(memory_usage_tenths, Some(375));
            assert!(matches!(status, HealthStatus::Degraded));
            assert!(matches!(disks, DiskStatus::Critical));
            assert_eq!(response_ms, 700);
        }
        _ => panic!("expected health"),
    }
    match reg.dispatch(&request("server_info", vec![]), &ctx(), &mut l) {
        Ok(Response::ServerInfo(r)) => assert_eq!(r.memory_total, "Unknown"),
        _ => panic!("expected server info"),
    }
}

#[test]
fn user_messages_name_the_problem() {
    assert_eq!(DispatchError::UnknownCommand.user_message(), "Command not found.");
    assert_eq!(
        DispatchError::MissingRequiredArgument("question".to_string()).user_message(),
        "Missing required argument: question"
    );
    assert_eq!(
        DispatchError::InvalidArgument("sides".to_string()).user_message(),
        "Invalid value for argument: sides"
    );
}

#[test]
fn start_time_rendered_across_years() {
    assert_eq!(uptime_report(-62167219200, 0).started_at.as_deref(), Some("0000-01-01 00:00:00 UTC"));
    assert_eq!(uptime_report(253402300799, 0).started_at.as_deref(), Some("9999-12-31 23:59:59 UTC"));
    assert_eq!(uptime_report(253402300799, 0).seconds, 0);
}

#[test]
fn dispatch_counts_only_the_invoked_command() {
    let reg = registry();
    let mut l = UsageLedger::new();
    for name in ["roll", "uptime", "server_info", "stats", "roll"] {
        assert!(reg.dispatch(&request(name, vec![]), &ctx(), &mut l).is_ok());
    }
    assert_eq!(l.count(&"roll".to_string()), 2);
    assert_eq!(l.count(&"uptime".to_string()), 1);
    assert_eq!(l.count(&"server_info".to_string()), 1);
    assert_eq!(l.count(&"stats".to_string()), 1);
    assert_eq!(l.snapshot().iter().map(|e| e.count).sum::<u64>(), 5);
}
