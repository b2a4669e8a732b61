use hrc_cli::audit::{audit_report, expiry_audit_entry, format_audit_entry, reported_receipts, AuditEntry};
use hrc_cli::json::{get, get_str, Json};

fn entry(channel: Option<&str>, message: Option<&str>, action: &str, detail: Option<&str>) -> AuditEntry {
    AuditEntry {
        occurred_at: "2026-09-13T00:00:00Z".to_owned(),
        action: action.to_owned(),
        channel_id: channel.map(str::to_owned),
        message_id: message.map(str::to_owned),
        detail: detail.map(str::to_owned),
    }
}

#[test]
fn an_audit_entry_is_one_line() {
    assert_eq!(
        format_audit_entry(&entry(Some("c1"), Some("m1"), "send", Some("note"))),
        "2026-09-13T00:00:00Z send channel=c1 message=m1 detail=note"
    );
    assert_eq!(
        format_audit_entry(&entry(None, None, "init", None)),
        "2026-09-13T00:00:00Z init"
    );
}

#[test]
fn the_audit_report_keeps_the_order_it_was_given() {
    let report = audit_report(&vec![
        entry(None, None, "second", None),
        entry(Some("c"), None, "first", None),
    ]);
    match get(&report, "entries").unwrap() {
        Json::Array(items) => {
            assert_eq!(get_str(&items[0], "action").unwrap(), "second");
            assert!(matches!(get(&items[0], "channelId"), Some(Json::Null)));
            assert_eq!(get_str(&items[1], "channelId").unwrap(), "c");
        }
        other => panic!("{other:?}"),
    }
}

#[test]
fn queued_receipts_are_read_back_for_one_channel() {
    let log = vec![
        entry(Some("c1"), Some("m1"), "delivery_receipt_queued", None),
        entry(Some("c2"), Some("m2"), "delivery_receipt_queued", None),
        entry(Some("c1"), Some("m3"), "send", None),
        entry(Some("c1"), None, "delivery_receipt_queued", None),
        entry(Some("c1"), Some("m4"), "delivery_receipt_queued", None),
    ];
    assert_eq!(reported_receipts(&log, "c1"), vec!["m1".to_owned(), "m4".to_owned()]);
}

#[test]
fn a_lapse_is_recorded_though_nobody_decided_it() {
    let e = expiry_audit_entry("m1", "now");
    assert_eq!(e.action, "message_expired");
    assert_eq!(e.message_id.as_deref(), Some("m1"));
    assert_eq!(e.detail.as_deref(), Some("the message lapsed before a local decision was made"));
    assert_eq!(e.occurred_at, "now");
    assert!(e.channel_id.is_none());
}

#[test]
fn audit_is_empty_before_any_action_is_recorded() {
    let value = audit_report(&Vec::new());
    assert_eq!(get_str(&value, "status").unwrap(), "ok");
    assert!(matches!(get(&value, "entries"), Some(Json::Array(items)) if items.is_empty()));
}
