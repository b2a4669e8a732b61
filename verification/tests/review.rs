use hrc_cli::review::{
    approval_expiry, decided_report, goes_on_screen, nothing_pending_report, undecided_report,
    with_idle_wait,
};
use hrc_cli::json::Json;
use hrc_cli::review::{
    agent_label, hand_over_report, local_agent_from, review_target_from, wire_decision,
    ScreenOutcome, WireDecision,
};
use hrc_cli::json::{get, get_bool, get_str};

fn obj(pairs: Vec<(&str, Json)>) -> Json {
    Json::Object(pairs.into_iter().map(|(k, v)| (k.to_owned(), v)).collect())
}

#[test]
fn a_review_target_that_is_not_a_ulid_opens_the_unfocused_list() {
    assert_eq!(
        review_target_from(Some("01ARZ3NDEKTSV4RRFFQ69G5FAV".to_owned())).as_deref(),
        Some("01ARZ3NDEKTSV4RRFFQ69G5FAV")
    );

    for malformed in [
        None,
        Some(String::new()),
        Some("  ".to_owned()),
        Some("not-a-ulid".to_owned()),
        Some("01ARZ3NDEKTSV4RRFFQ69G5FIU".to_owned()),
        Some("01ARZ3NDEKTSV4RRFFQ69G5FAV extra".to_owned()),
        Some("01ARZ3NDEKTSV4RRFFQ69G5FAV\nHRC_PASSPHRASE=x".to_owned()),
    ] {
        assert_eq!(
            review_target_from(malformed.clone()),
            None,
            "{malformed:?} should not target a message"
        );
    }
}

#[test]
fn leaving_the_screen_records_no_decision() {
    assert!(wire_decision(ScreenOutcome::Quit).is_none());
    let (id, decision, word) = wire_decision(ScreenOutcome::Decline { message_id: "m".to_owned() }).unwrap();
    assert_eq!(id, "m");
    assert_eq!(word, "decline");
    assert!(matches!(decision, WireDecision::Decline { reason: None }));
    let (_, decision, word) = wire_decision(ScreenOutcome::DeliverToAgent {
        message_id: "m".to_owned(),
        agent: "builder".to_owned(),
    })
    .unwrap();
    assert_eq!(word, "deliver_to_agent");
    assert!(matches!(decision, WireDecision::DeliverToAgent { agent } if agent == "builder"));
    let (_, _, word) = wire_decision(ScreenOutcome::KeepInInbox { message_id: "m".to_owned() }).unwrap();
    assert_eq!(word, "keep_in_inbox");
}

#[test]
fn the_delivery_target_comes_from_the_plugin_context() {
    assert_eq!(local_agent_from(None), "this Herdr session");
    let context = obj(vec![
        ("agent", Json::Str(String::new())),
        ("focused_pane", obj(vec![("title", Json::Str("pane-2".to_owned()))])),
    ]);
    assert_eq!(local_agent_from(Some(&context)), "pane-2");
    let named = obj(vec![("agent", Json::Str("helper".to_owned()))]);
    assert_eq!(local_agent_from(Some(&named)), "helper");
    assert_eq!(local_agent_from(Some(&obj(vec![]))), "this Herdr session");
    assert_eq!(agent_label(&obj(vec![("id", Json::Str("w1:p3".to_owned()))])), Some("w1:p3".to_owned()));
}

#[test]
fn a_hand_over_reports_what_happened() {
    let empty = hand_over_report(true, None);
    assert_eq!(get_bool(&empty, "handedOver"), Some(false));
    let done = hand_over_report(false, None);
    assert_eq!(get_bool(&done, "handedOver"), Some(true));
    assert!(get(&done, "reason").is_none());
    let failed = hand_over_report(false, Some("herdr is not running"));
    assert_eq!(get_str(&failed, "reason").unwrap(), "herdr is not running");
}

#[test]
fn a_review_reports_what_was_decided_and_handed_over() {
    assert!(matches!(get(&nothing_pending_report(), "pending"), Some(Json::UInt(0))));
    assert!(matches!(get(&undecided_report(), "decided"), Some(Json::Null)));
    let delivered = with_idle_wait(hand_over_report(false, None), Some(true));
    assert!(matches!(get(&delivered, "waitedForIdle"), Some(Json::Bool(true))));
    let unchanged = with_idle_wait(hand_over_report(false, None), None);
    assert!(get(&unchanged, "waitedForIdle").is_none());
    let report = decided_report("m1".to_owned(), "deliver_to_agent", Json::Bool(true), Some(delivered));
    assert_eq!(get_str(&report, "messageId").unwrap(), "m1");
    assert_eq!(get_str(&report, "decided").unwrap(), "deliver_to_agent");
    assert!(matches!(get(&report, "daemon"), Some(Json::Bool(true))));
    let kept = decided_report("m2".to_owned(), "keep_in_inbox", Json::Null, None);
    assert!(matches!(get(&kept, "delivered"), Some(Json::Null)));
    assert_eq!(approval_expiry(0), "1970-01-01T00:05:00Z");
    assert!(goes_on_screen(None, "m1", true));
    assert!(!goes_on_screen(None, "m1", false));
    assert!(goes_on_screen(Some("m1"), "m1", true));
    assert!(!goes_on_screen(Some("m2"), "m1", true));
}
