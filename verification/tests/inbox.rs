use hrc_cli::inbox::{
    inbox_report, releasing_decision, released_text, show_inbound_report, show_outbound_report,
    thread_report, DecisionRecord, InboxEntry, ReceiptRecord, ThreadEntry,
};
use hrc_cli::json::{get, get_str, Json};

fn entry(id: &str, disposition: &str) -> InboxEntry {
    InboxEntry {
        message_id: id.to_owned(),
        sender_principal: "alice".to_owned(),
        sender_device: "d1".to_owned(),
        kind: "note".to_owned(),
        thread_id: Some("t1".to_owned()),
        in_reply_to: None,
        arrival_sequence: 1,
        expires_at: None,
        disposition: disposition.to_owned(),
    }
}

fn listed(report: &Json) -> Vec<String> {
    match get(report, "entries").unwrap() {
        Json::Array(items) => items.iter().map(|i| get_str(i, "messageId").unwrap().clone()).collect(),
        other => panic!("{other:?}"),
    }
}

#[test]
fn pending_lists_only_what_awaits_a_decision() {
    let entries = vec![entry("m1", "quarantined"), entry("m2", "approved"), entry("m3", "quarantined")];
    assert_eq!(listed(&inbox_report("c", &entries, true)), vec!["m1", "m3"]);
    assert_eq!(listed(&inbox_report("c", &entries, false)), vec!["m1", "m2", "m3"]);
}

#[test]
fn no_inbox_entry_carries_a_body() {
    let report = inbox_report("c", &vec![entry("m1", "quarantined")], false);
    assert!(!format!("{report:?}").contains("\"body\""));
}

#[test]
fn show_withholds_a_body_nobody_released() {
    let shown = show_inbound_report(&entry("m1", "quarantined"), None);
    assert!(matches!(get(&shown, "body"), Some(Json::Null)));
    assert_eq!(
        get_str(&shown, "bodyWithheld").unwrap(),
        "awaiting a decision in the trusted interface"
    );
    let declined = show_inbound_report(&entry("m1", "declined"), None);
    assert_eq!(get_str(&declined, "bodyWithheld").unwrap(), "declined");
    let released = show_inbound_report(&entry("m1", "approved"), Some("hello".to_owned()));
    assert_eq!(get_str(&released, "body").unwrap(), "hello");
    assert!(matches!(get(&released, "bodyWithheld"), Some(Json::Null)));
}

#[test]
fn outbound_messages_show_their_receipts() {
    let receipts = vec![ReceiptRecord {
        reporter_principal: "bob".to_owned(),
        reporter_device: "bd".to_owned(),
        state: "read".to_owned(),
        rejection_code: None,
        reported_at: "2026-09-13T00:00:00Z".to_owned(),
    }];
    let shown = show_outbound_report("m9", "published", &receipts);
    assert_eq!(get_str(&shown, "direction").unwrap(), "outbound");
    match get(&shown, "receipts").unwrap() {
        Json::Array(items) => assert_eq!(get_str(&items[0], "state").unwrap(), "read"),
        other => panic!("{other:?}"),
    }
}

#[test]
fn a_thread_redacts_what_is_pending() {
    let entries = vec![
        ThreadEntry {
            message_id: "m1".to_owned(),
            sender_principal: "alice".to_owned(),
            kind: "question".to_owned(),
            arrival_sequence: 1,
            disposition: "quarantined".to_owned(),
        },
        ThreadEntry {
            message_id: "m2".to_owned(),
            sender_principal: "bob".to_owned(),
            kind: "answer".to_owned(),
            arrival_sequence: 2,
            disposition: "approved".to_owned(),
        },
    ];
    let report = thread_report("t1", &entries);
    match get(&report, "entries").unwrap() {
        Json::Array(items) => {
            assert_eq!(get_str(&items[0], "body").unwrap(), "[redacted until approved]");
            assert!(matches!(get(&items[1], "body"), Some(Json::Null)));
        }
        other => panic!("{other:?}"),
    }
}

#[test]
fn only_a_delivering_decision_releases_content_and_an_edit_wins() {
    let decision = |action: &str, edited: Option<&str>| DecisionRecord {
        action: action.to_owned(),
        original_content: "original".to_owned(),
        edited_content: edited.map(str::to_owned),
        channel_id: "c".to_owned(),
        decided_by: "me".to_owned(),
    };
    let decisions = vec![
        decision("deliver_to_agent", None),
        decision("deliver_edited", Some("edited")),
        decision("keep_in_inbox", None),
    ];
    let at = releasing_decision(&decisions).unwrap();
    assert_eq!(at, 1);
    assert_eq!(released_text("[banner] ", &decisions[at]), "[banner] edited");
    assert_eq!(releasing_decision(&vec![decision("decline", None)]), None);
    assert_eq!(released_text("", &decisions[0]), "original");
}
