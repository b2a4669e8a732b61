use hrc_cli::channel::ChannelRecord;
use hrc_cli::diagnostics::{diagnosis, status_report, ChannelState, Probe};
use hrc_cli::json::{get, get_bool, get_str, get_u64, Json};

fn checks(v: &Json) -> &Vec<Json> {
    match get(v, "checks").unwrap() {
        Json::Array(items) => items,
        other => panic!("{other:?}"),
    }
}

#[test]
fn doctor_reports_every_check_rather_than_stopping_at_the_first() {
    let d = diagnosis("1", Some("git version 2.45.0".to_owned()), "/h", true, Probe::Holds, Probe::Holds);
    let value = d.report();
    let names: Vec<&str> = checks(&value).iter().map(|c| get_str(c, "check").unwrap().as_str()).collect();
    assert_eq!(names, vec!["protocol_version", "git", "state_directory", "database", "device_keys"]);
    assert_eq!(get_bool(&value, "healthy"), Some(true), "a fresh install should be healthy");
    assert_eq!(get_str(&value, "status").unwrap(), "ok");
}

#[test]
fn doctor_is_unhealthy_before_init_but_still_reports_everything() {
    let d = diagnosis("1", None, "/h", true, Probe::Broken("database is locked".to_owned()), Probe::Fails);
    let value = d.report();
    assert_eq!(get_bool(&value, "healthy"), Some(false));
    assert_eq!(get_str(&value, "status").unwrap(), "unhealthy");
    assert_eq!(checks(&value).len(), 5);
    let keys = &checks(&value)[4];
    assert_eq!(get_bool(keys, "ok"), Some(false));
    assert!(get_str(keys, "detail").unwrap().contains("hrc init"), "the failure should say how to fix it");
    assert_eq!(get_str(&checks(&value)[3], "detail").unwrap(), "database is locked");
    assert_eq!(get_str(&checks(&value)[1], "detail").unwrap(), "the git executable was not found on PATH");
}

#[test]
fn the_daemon_and_the_exit_code_read_the_same_checks_the_report_prints() {
    let d = diagnosis("1", Some("git version 2".to_owned()), "/h", false, Probe::Holds, Probe::Fails);
    let report = d.report();
    assert!(!d.healthy(), "no device keys yet");
    assert_eq!(get_bool(&report, "healthy"), Some(d.healthy()));
    let printed: Vec<(String, bool)> = checks(&report)
        .iter()
        .map(|c| (get_str(c, "check").unwrap().clone(), get_bool(c, "ok").unwrap()))
        .collect();
    let typed: Vec<(String, bool)> = d.checks.iter().map(|c| (c.name.to_owned(), c.ok)).collect();
    assert_eq!(printed, typed);
}

#[test]
fn status_reports_the_fields_of_each_channel() {
    let state = ChannelState {
        channel: ChannelRecord {
            channel_id: "c1".to_owned(),
            local_name: "team".to_owned(),
            transport_kind: "git".to_owned(),
            transport_locator: "/r".to_owned(),
            roster_epoch: 2,
            halted_reason: Some("history rewritten".to_owned()),
        },
        control_sequence: 9,
        sync_cursor: None,
        outbox_pending: 1,
        unread: 0,
        pending_approval: 3,
        last_error: None,
    };
    let report = status_report("/h", &vec![state]);
    assert_eq!(get_str(&report, "home").unwrap(), "/h");
    match get(&report, "channels").unwrap() {
        Json::Array(items) => {
            assert_eq!(get_u64(&items[0], "controlSequence"), Some(9));
            assert_eq!(get_u64(&items[0], "pendingApproval"), Some(3));
            assert!(matches!(get(&items[0], "lastFetchedRevision"), Some(Json::Null)));
            assert_eq!(get_str(&items[0], "haltedReason").unwrap(), "history rewritten");
        }
        other => panic!("{other:?}"),
    }
}

#[test]
fn doctor_finds_the_git_executable() {
    let value = diagnosis("1", Some("git version 2.45.0".to_owned()), "/h", true, Probe::Holds, Probe::Holds).report();
    let git = checks(&value).iter().find(|check| get_str(check, "check").unwrap() == "git").unwrap();
    assert_eq!(get_bool(git, "ok"), Some(true), "git is required and is present");
    assert!(get_str(git, "detail").unwrap().starts_with("git version"));
}
