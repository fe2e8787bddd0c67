use hawkeye::duration::{parse_duration, Duration};
use hawkeye::orchestrator::{build_attach_plan, default_trackers, ConfigError, ProbeKind};
use hawkeye::text::ParseNumError;
use hawkeye::workload::ClockTiker;

#[test]
fn plan_pairs_enter_and_exit_per_call() {
    let ufns = Some(vec![String::from("fsync"), String::from("clock_gettime")]);
    let kfns = Some(vec![String::from("down_killable")]);
    let target = Some(String::from("/usr/lib/libc.so.6"));
    let plan = build_attach_plan(&ufns, &kfns, &target).expect("plan expected");

    assert_eq!(plan.len(), 6);
    let expected = vec![
        ("ufn_enter_fsync", "fsync", ProbeKind::User, false),
        ("ufn_exit_fsync", "fsync", ProbeKind::User, true),
        ("ufn_enter_clock_gettime", "clock_gettime", ProbeKind::User, false),
        ("ufn_exit_clock_gettime", "clock_gettime", ProbeKind::User, true),
        ("kfn_enter_down_killable", "down_killable", ProbeKind::Kernel, false),
        ("kfn_exit_down_killable", "down_killable", ProbeKind::Kernel, true),
    ];
    for (step, (program, call_name, kind, is_exit)) in plan.iter().zip(expected) {
        assert_eq!(step.program, program);
        assert_eq!(step.call_name, call_name);
        assert_eq!(step.kind, kind);
        assert_eq!(step.is_exit, is_exit);
    }
}

#[test]
fn user_calls_without_target_are_rejected() {
    let ufns = Some(vec![String::from("fsync")]);
    let r = build_attach_plan(&ufns, &None, &None);
    assert_eq!(r.err(), Some(ConfigError::MissingAttachTarget));

    // even an empty user-space list demands a target
    let r = build_attach_plan(&Some(Vec::new()), &None, &None);
    assert_eq!(r.err(), Some(ConfigError::MissingAttachTarget));

    // kernel-only runs need no target
    let kfns = Some(vec![String::from("down_killable")]);
    assert!(build_attach_plan(&None, &kfns, &None).is_ok());
}

#[test]
fn no_requests_make_an_empty_plan() {
    let plan = build_attach_plan(&None, &None, &None).expect("plan expected");
    assert!(plan.is_empty());
}

#[test]
fn registry_builds_one_tracker_per_call() {
    let trackers = default_trackers(32);
    assert_eq!(trackers.len(), 7);
}

#[test]
fn duration_parses_whole_seconds() {
    assert_eq!(parse_duration("1"), Ok(Duration::from_secs(1)));
    assert_eq!(parse_duration("+90"), Ok(Duration::from_secs(90)));
    assert_eq!(parse_duration("1").map(|d| d.as_secs()), Ok(1));
    assert_eq!(parse_duration(""), Err(ParseNumError::Empty));
    assert_eq!(parse_duration("1.5"), Err(ParseNumError::InvalidDigit));
    assert_eq!(
        parse_duration("99999999999999999999"),
        Err(ParseNumError::Overflow)
    );
}

#[test]
fn clock_ticker_constructs() {
    let _t = ClockTiker::new();
}
