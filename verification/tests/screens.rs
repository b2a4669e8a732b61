use hrc_cli::inbox::InboxEntry;
use hrc_cli::roster::{roster_listing, DeviceEntry, MemberEntry};
use hrc_cli::screens::{addressable, alias_of, answerable, member_rows};

fn listing() -> hrc_cli::roster::RosterListing {
    let members = vec![
        MemberEntry { principal_id: "me".to_owned(), is_administrator: true, is_active: true },
        MemberEntry { principal_id: "peer".to_owned(), is_administrator: false, is_active: true },
    ];
    let devices = vec![DeviceEntry {
        device_id: "dev-me".to_owned(),
        principal_id: "me".to_owned(),
        signing_key: "device-key".to_owned(),
        active: true,
        added_in_epoch: 0,
    }];
    roster_listing("chan".to_owned(), 1, &members, &devices)
}

fn aliases() -> Vec<(String, String)> {
    vec![("peer".to_owned(), "Peer".to_owned()), ("peer".to_owned(), "Later".to_owned())]
}

#[test]
fn the_membership_screen_recognizes_this_installation() {
    let rows = member_rows(&listing(), "me", &aliases());
    let local: Vec<_> = rows.iter().filter(|row| row.is_local).collect();

    assert_eq!(local.len(), 1, "exactly one row is this installation");
    assert_eq!(local[0].principal_id, "me");
    assert!(rows.iter().any(|row| row.principal_id == "peer" && !row.is_local));
    assert_eq!(rows[1].display_name.as_deref(), Some("Peer"));
    assert_eq!(rows[0].devices[0].device_id, "dev-me");
}

#[test]
fn the_device_key_is_not_the_principal() {
    let rows = member_rows(&listing(), "device-key", &aliases());
    assert!(rows.iter().all(|row| !row.is_local));
}

#[test]
fn this_installation_is_not_offered_as_its_own_recipient() {
    let recipients: Vec<String> = addressable(&listing(), "me", &aliases())
        .into_iter()
        .map(|recipient| recipient.principal_id)
        .collect();

    assert_eq!(recipients, vec!["peer".to_owned()]);
    assert!(!recipients.contains(&"me".to_owned()));
}

#[test]
fn only_open_messages_from_others_can_be_answered() {
    let entry = |id: &str, from: &str, disposition: &str| InboxEntry {
        message_id: id.to_owned(),
        sender_principal: from.to_owned(),
        sender_device: "d".to_owned(),
        kind: "question".to_owned(),
        thread_id: None,
        in_reply_to: None,
        arrival_sequence: 0,
        expires_at: None,
        disposition: disposition.to_owned(),
    };
    let entries = vec![
        entry("m1", "peer", "quarantined"),
        entry("m2", "me", "quarantined"),
        entry("m3", "peer", "declined"),
        entry("m4", "peer", "edited"),
    ];
    let targets = answerable(&entries, "me", &aliases());
    let ids: Vec<_> = targets.iter().map(|t| t.in_reply_to.clone().unwrap()).collect();
    assert_eq!(ids, vec!["m1", "m4"]);
    assert_eq!(targets[0].answering.as_deref(), Some("question"));
    assert_eq!(targets[0].display_name.as_deref(), Some("Peer"));
    assert_eq!(alias_of(&aliases(), "nobody"), None);
}
