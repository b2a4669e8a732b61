use hrc_cli::inbox::InboxEntry;
use hrc_cli::receipts::{delivery_receipt_obligations, place_of, receipt_batches, Place};

fn entry(id: &str, sender: &str, device: &str, disposition: &str) -> InboxEntry {
    InboxEntry {
        message_id: id.to_owned(),
        sender_principal: sender.to_owned(),
        sender_device: device.to_owned(),
        kind: "note".to_owned(),
        thread_id: None,
        in_reply_to: None,
        arrival_sequence: 0,
        expires_at: None,
        disposition: disposition.to_owned(),
    }
}

#[test]
fn delivery_receipts_are_partitioned_by_originating_device() {
    let entries = vec![
        entry("m1", "bob", "b2", "quarantined"),
        entry("m2", "alice", "a1", "approved"),
        entry("m3", "bob", "b1", "quarantined"),
        entry("m4", "bob", "b2", "declined"),
        entry("m5", "alice", "a1", "expired"),
        entry("m6", "alice", "a1", "quarantined"),
    ];
    let reported = vec!["m6".to_owned()];
    let groups = delivery_receipt_obligations(entries, &reported);
    let summary: Vec<(String, String, Vec<String>)> = groups
        .into_iter()
        .map(|g| (g.sender, g.sender_device, g.message_ids))
        .collect();
    assert_eq!(
        summary,
        vec![
            ("alice".to_owned(), "a1".to_owned(), vec!["m2".to_owned()]),
            ("bob".to_owned(), "b1".to_owned(), vec!["m3".to_owned()]),
            ("bob".to_owned(), "b2".to_owned(), vec!["m1".to_owned(), "m4".to_owned()]),
        ]
    );
}

#[test]
fn nothing_owed_means_no_groups() {
    let entries = vec![entry("m1", "bob", "b", "expired")];
    assert!(delivery_receipt_obligations(entries, &Vec::new()).is_empty());
}

#[test]
fn text_sorts_character_by_character_as_strings_do() {
    let chars = |s: &str| s.chars().collect::<Vec<char>>();
    for (a, b) in [("a", "b"), ("ab", "abc"), ("", "a"), ("Z", "a"), ("é", "z"), ("b", "aa")] {
        let expected = a.cmp(b);
        let got = place_of(&chars(a), &chars(b));
        match got {
            Place::Before => assert_eq!(expected, std::cmp::Ordering::Less, "{a} {b}"),
            Place::Same => assert_eq!(expected, std::cmp::Ordering::Equal, "{a} {b}"),
            Place::After => assert_eq!(expected, std::cmp::Ordering::Greater, "{a} {b}"),
        }
    }
}

#[test]
fn batches_split_in_order_and_lose_nothing() {
    let ids: Vec<String> = (0..7).map(|i| format!("m{i}")).collect();
    let batches = receipt_batches(&ids, 3);
    assert_eq!(batches.len(), 3);
    assert_eq!(batches[0], vec!["m0", "m1", "m2"]);
    assert_eq!(batches[2], vec!["m6"]);
    assert_eq!(batches.concat(), ids);
    assert!(receipt_batches(&Vec::new(), 3).is_empty());
}
