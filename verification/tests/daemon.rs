use hrc_cli::daemon::{
    authorization_still_holds, change_effect, channel_local_name, local_user, ChangeEffect,
    TrustedChange, CONTEXT_AUTHORIZATION_LIFETIME,
};
use hrc_cli::daemon::{error_answer, tick_report, trusted_answer, unimplemented_answer, ChannelOutcome, TrustedAnswer};
use hrc_cli::json::{get, get_str, get_u64, Json};

fn obj(pairs: Vec<(&str, Json)>) -> Json {
    Json::Object(pairs.into_iter().map(|(k, v)| (k.to_owned(), v)).collect())
}

#[test]
fn daemon_tick_degrades_one_channel_without_skipping_the_rest() {
    let outcomes = vec![
        ChannelOutcome::Failed {
            channel_id: "c1".to_owned(),
            transport: "git".to_owned(),
            locator: "/nowhere".to_owned(),
            code: "git_error".to_owned(),
            message: "remote unreachable".to_owned(),
        },
        ChannelOutcome::Synced(obj(vec![("channelId", Json::Str("c2".to_owned()))])),
    ];
    let report = tick_report("now", 30, &vec!["m1".to_owned()], outcomes);
    assert_eq!(get_str(&report, "status").unwrap(), "degraded");
    assert_eq!(get_u64(&report, "nextPollSeconds"), Some(30));
    match get(&report, "channels").unwrap() {
        Json::Array(items) => {
            assert_eq!(items.len(), 2);
            assert_eq!(get_str(&items[0], "status").unwrap(), "error");
            assert_eq!(get_str(&items[1], "channelId").unwrap(), "c2");
        }
        other => panic!("{other:?}"),
    }
    let healthy = tick_report("now", 5, &Vec::new(), Vec::new());
    assert_eq!(get_str(&healthy, "status").unwrap(), "ok");
}

#[test]
fn a_refused_request_is_answered_with_its_code() {
    let refused = error_answer("authorization_required", "a human must approve this");
    assert_eq!(get_str(&refused, "status").unwrap(), "error");
    assert_eq!(get_str(&refused, "code").unwrap(), "authorization_required");
    let draft = unimplemented_answer("draft");
    assert_eq!(
        get_str(&draft, "message").unwrap(),
        "the `draft` agent-safe daemon method is not implemented yet"
    );
    assert_eq!(get_str(&draft, "code").unwrap(), "unimplemented");
}

#[test]
fn a_trusted_answer_names_its_method() {
    let done = trusted_answer("approve", TrustedAnswer::Done);
    assert_eq!(get_str(&done, "method").unwrap(), "approve");
    let pending = trusted_answer(
        "preview_pending",
        TrustedAnswer::Pending { message_id: "m".to_owned(), body: "hi".to_owned() },
    );
    assert_eq!(get_str(&pending, "body").unwrap(), "hi");
}

#[test]
fn a_declined_join_and_a_local_name_publish_nothing() {
    assert!(matches!(change_effect(TrustedChange::RejectJoin("j1".to_owned())), ChangeEffect::Nothing));
    assert!(matches!(change_effect(TrustedChange::Other), ChangeEffect::Nothing));
    match change_effect(TrustedChange::SetAlias { principal_id: "p".to_owned(), display_name: Some("Pat".to_owned()) }) {
        ChangeEffect::SetAlias(p, n) => assert_eq!((p.as_str(), n.as_str()), ("p", "Pat")),
        _ => panic!("expected a local alias"),
    }
    assert!(matches!(
        change_effect(TrustedChange::SetAlias { principal_id: "p".to_owned(), display_name: None }),
        ChangeEffect::ClearAlias(p) if p == "p"
    ));
    assert!(matches!(change_effect(TrustedChange::RemoveMember("p".to_owned())), ChangeEffect::PublishRemoval(p) if p == "p"));
    assert!(matches!(change_effect(TrustedChange::RevokeDevice("d".to_owned())), ChangeEffect::PublishRevocation(d) if d == "d"));
    assert!(matches!(change_effect(TrustedChange::ApproveJoin("j".to_owned())), ChangeEffect::Admit(j) if j == "j"));
}

#[test]
fn the_provenance_banner_names_the_channel_a_message_came_from() {
    let message_id = "01HZX3NDEKTSV4RRFFQ69G5FAA";
    let pending = vec![(message_id.to_owned(), "channel-1".to_owned())];
    let names = vec![("channel-1".to_owned(), "Test channel".to_owned())];
    assert_eq!(channel_local_name(&pending, &names, message_id), "Test channel");
    assert_eq!(
        channel_local_name(&pending, &names, "01ARZ3NDEKTSV4RRFFQ69G5FAV"),
        "an unknown channel",
        "a message the broker does not hold is not guessed at"
    );
}

#[test]
fn the_banner_uses_the_latest_name_and_never_guesses() {
    let pending = vec![("m1".to_owned(), "c1".to_owned()), ("m2".to_owned(), "c9".to_owned())];
    let names = vec![("c1".to_owned(), "Old name".to_owned()), ("c1".to_owned(), "Ops".to_owned())];
    assert_eq!(channel_local_name(&pending, &names, "m1"), "Ops");
    assert_eq!(channel_local_name(&pending, &names, "m2"), "an unknown channel");
}

#[test]
fn decisions_are_recorded_under_the_login_name() {
    assert_eq!(local_user(Some("ana".to_owned()), Some("ANA".to_owned())), "ana");
    assert_eq!(local_user(None, Some("ANA".to_owned())), "ANA");
    assert_eq!(local_user(None, None), "local human");
}

#[test]
fn a_changed_package_is_no_longer_authorized() {
    assert!(authorization_still_holds("d1", "d1", "c1", "c1"));
    assert!(!authorization_still_holds("d1", "d2", "c1", "c1"));
    assert!(!authorization_still_holds("d1", "d1", "c1", "c2"));
    assert_eq!(CONTEXT_AUTHORIZATION_LIFETIME, "5m");
}

#[test]
fn daemon_tick_reports_the_next_poll_interval() {
    let value = tick_report("2026-09-13T00:00:00Z", 30, &Vec::new(), Vec::new());
    assert_eq!(get_str(&value, "status").unwrap(), "ok");
    assert_eq!(get_u64(&value, "nextPollSeconds"), Some(30));
    assert!(matches!(get(&value, "channels"), Some(Json::Array(items)) if items.is_empty()));
}
