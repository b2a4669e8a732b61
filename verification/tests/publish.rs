use hrc_cli::error::CliError;
use hrc_cli::json::{get, get_str, get_u64, Json};
use hrc_cli::publish::{
    channel_refusal, ChannelRefusal, channel_sync_report, epoch_decision, halts_synchronization, held_back, probe_verdict,
    sync_once_report, sync_plan, ChannelSync, EpochDecision, Probe, ProbeVerdict, PublishGate,
    PublishOutcome,
};

#[test]
fn an_unresealable_predecessor_blocks_later_messages_from_the_same_device() {
    let mut gate = PublishGate::new();
    assert!(gate.admits("device-a"));
    gate.record("device-a", true);
    assert!(!gate.admits("device-a"));
    assert!(gate.admits("device-b"));
    gate.record("device-b", false);
    assert!(gate.admits("device-b"));
    gate.record("device-b", true);
    assert!(!gate.admits("device-a"));
    assert!(!gate.admits("device-b"));
    let outcome = held_back("m9".to_owned());
    assert_eq!(outcome.deferred, vec!["m9".to_owned()]);
    assert!(outcome.published.is_empty());
}

#[test]
fn a_pass_refreshes_only_what_moved() {
    let plan = sync_plan(Some("r2"), Some("r2"), Some("r2"), Some("r2"));
    assert!(!plan.remote_changed && !plan.refresh && !plan.receive);
    let plan = sync_plan(Some("r3"), Some("r2"), Some("r2"), Some("r2"));
    assert!(plan.remote_changed && plan.refresh && plan.receive);
    let plan = sync_plan(Some("r2"), None, Some("r2"), None);
    assert!(!plan.remote_changed && plan.refresh && plan.receive);
}

#[test]
fn only_an_untrustworthy_history_halts() {
    assert!(halts_synchronization(&CliError::Core("bad signature".to_owned())));
    assert!(halts_synchronization(&CliError::Transport("rewound".to_owned())));
    assert!(!halts_synchronization(&CliError::NoPassphrase));
}

#[test]
fn a_channel_report_lists_every_outcome_in_order() {
    let outcomes = vec![
        PublishOutcome { published: vec!["m1".to_owned()], conflicts: 1, deferred: Vec::new() },
        PublishOutcome { published: vec!["m2".to_owned()], conflicts: 2, deferred: vec!["m3".to_owned()] },
    ];
    let s = ChannelSync {
        channel_id: "c".to_owned(),
        transport: "git".to_owned(),
        locator: "/r".to_owned(),
        remote_changed: true,
        remote_head: Some("r9".to_owned()),
        recovered: 0,
        fetched_publications: 4,
        fetched_control: 1,
        fetched_messages: 3,
        received: vec!["in1".to_owned()],
        receipt_error: None,
        cursor: Some("r10".to_owned()),
    };
    let r = channel_sync_report(&s, &outcomes);
    assert_eq!(get_u64(&r, "publishConflicts"), Some(3));
    let names = |key: &str| match get(&r, key).unwrap() {
        Json::Array(items) => items.iter().map(|i| match i { Json::Str(s) => s.clone(), _ => panic!() }).collect::<Vec<_>>(),
        other => panic!("{other:?}"),
    };
    assert_eq!(names("publishedMessages"), vec!["m1", "m2"]);
    assert_eq!(names("deferredMessages"), vec!["m3"]);
    assert_eq!(get_str(&r, "cursor").unwrap(), "r10");
    assert!(matches!(get(&r, "receiptError"), Some(Json::Null)));
}

#[test]
fn probes_decide_in_order() {
    assert!(matches!(probe_verdict(&vec![Probe::Found]), ProbeVerdict::AlreadyPublished));
    assert!(matches!(probe_verdict(&vec![Probe::Mismatch, Probe::Found]), ProbeVerdict::AlreadyPublished));
    assert!(matches!(probe_verdict(&vec![Probe::Missing, Probe::Found]), ProbeVerdict::Absent));
    assert!(matches!(probe_verdict(&vec![Probe::Mismatch, Probe::Mismatch]), ProbeVerdict::Conflict));
    assert!(matches!(probe_verdict(&vec![]), ProbeVerdict::Absent));
    match probe_verdict(&vec![Probe::Mismatch, Probe::Failed("offline".to_owned()), Probe::Found]) {
        ProbeVerdict::Failed(reason) => assert_eq!(reason, "offline"),
        _ => panic!("expected a failure"),
    }
}

#[test]
fn a_message_is_resealed_only_for_a_newer_roster() {
    assert_eq!(epoch_decision(3, 2, false, true, true), EpochDecision::OutOfOrder { expected: 2, found: 3 });
    assert_eq!(epoch_decision(2, 2, false, false, false), EpochDecision::Publish);
    assert_eq!(epoch_decision(1, 2, false, false, true), EpochDecision::Defer);
    assert_eq!(epoch_decision(1, 2, false, true, false), EpochDecision::Unresealable);
    assert_eq!(epoch_decision(1, 2, false, true, true), EpochDecision::Reseal);
    assert_eq!(epoch_decision(2, 2, true, true, true), EpochDecision::Reseal);
}

#[test]
fn a_pass_reports_what_lapsed_and_every_channel() {
    let report = sync_once_report("2026-01-01T00:00:00Z", &vec!["m1".to_owned()], vec![Json::Null, Json::Bool(true)]);
    assert_eq!(get_str(&report, "status").unwrap(), "ok");
    assert_eq!(get_str(&report, "syncedAt").unwrap(), "2026-01-01T00:00:00Z");
    match get(&report, "expired") {
        Some(Json::Array(ids)) => assert!(matches!(&ids[..], [Json::Str(id)] if id == "m1")),
        other => panic!("{other:?}"),
    }
    match get(&report, "channels") {
        Some(Json::Array(channels)) => assert_eq!(channels.len(), 2),
        other => panic!("{other:?}"),
    }
}

#[test]
fn a_halted_or_foreign_channel_is_refused_before_it_is_touched() {
    assert!(matches!(
        channel_refusal(Some("history rewritten"), "svn"),
        Some(ChannelRefusal::Halted(why)) if why == "history rewritten"
    ));
    match channel_refusal(None, "svn") {
        Some(ChannelRefusal::UnsupportedTransport(CliError::Io { action, detail })) => {
            assert_eq!(action, "open the configured transport");
            assert_eq!(detail, "unsupported transport svn");
        }
        _ => panic!("expected an unsupported transport"),
    }
    assert!(channel_refusal(None, "git").is_none());
}
