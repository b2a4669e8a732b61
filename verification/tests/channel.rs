use hrc_cli::channel::{
    channels_report, control_entry_name, create_report, name_before, next_control_position,
    only_channel, order_by_name, publication_unavailable, split_genesis, gh_visibility_arguments,
    ChannelRecord, PublicationFailure,
};
use hrc_cli::error::CliError;
use hrc_cli::json::{get, get_bool, get_str, get_u64, Json};

fn record(id: &str, halted: Option<&str>) -> ChannelRecord {
    ChannelRecord {
        channel_id: id.to_owned(),
        local_name: format!("{id}-name"),
        transport_kind: "git".to_owned(),
        transport_locator: "/tmp/x.git".to_owned(),
        roster_epoch: 2,
        halted_reason: halted.map(str::to_owned),
    }
}

#[test]
fn exactly_one_channel_is_the_channel() {
    assert_eq!(only_channel(vec![record("a", None)]).unwrap().channel_id, "a");
    assert!(matches!(only_channel(Vec::new()), Err(CliError::NoChannel)));
    assert!(matches!(
        only_channel(vec![record("a", None), record("b", None)]),
        Err(CliError::AmbiguousChannel)
    ));
}

#[test]
fn channels_are_listed_with_whether_they_halted() {
    let report = channels_report(&vec![record("a", None), record("b", Some("tampered"))]);
    match get(&report, "channels").unwrap() {
        Json::Array(items) => {
            assert_eq!(get_str(&items[0], "localName").unwrap(), "a-name");
            assert_eq!(get_bool(&items[0], "halted"), Some(false));
            assert_eq!(get_bool(&items[1], "halted"), Some(true));
            assert_eq!(get_u64(&items[1], "rosterEpoch"), Some(2));
        }
        other => panic!("{other:?}"),
    }
    let created = create_report("chan", "https://github.com/o/n.git", "p", "d");
    assert_eq!(get_str(&created, "repo").unwrap(), "https://github.com/o/n.git");
}

#[test]
fn control_entries_are_named_by_padded_sequence_and_hash() {
    assert_eq!(
        control_entry_name(0, "0123456789abcdef0123"),
        "control/log/00000000-0123456789abcdef.json"
    );
    assert_eq!(
        control_entry_name(42, "ffffffffffffffffaaaa"),
        "control/log/00000042-ffffffffffffffff.json"
    );
    assert!(control_entry_name(9, "aaaaaaaaaaaaaaaa") < control_entry_name(10, "0000000000000000"));
}

#[test]
fn only_an_epoch_changing_operation_advances_the_epoch() {
    assert_eq!(next_control_position(3, 10, false), (3, 11));
    assert_eq!(next_control_position(3, 10, true), (4, 11));
}

#[test]
fn control_entry_names_sort_by_sequence() {
    let mut names = vec![
        control_entry_name(10, "00000000000000000000"),
        control_entry_name(9, "ffffffffffffffffffff"),
        control_entry_name(0, "aaaaaaaaaaaaaaaaaaaa"),
        control_entry_name(123, "1111111111111111abcd"),
    ];
    names.sort();
    assert_eq!(
        names,
        vec![
            "control/log/00000000-aaaaaaaaaaaaaaaa.json",
            "control/log/00000009-ffffffffffffffff.json",
            "control/log/00000010-0000000000000000.json",
            "control/log/00000123-1111111111111111.json",
        ]
    );
}

#[test]
fn control_objects_are_replayed_in_name_order_and_stably() {
    let entries = vec![
        ("control/log/00000002-b.json".to_owned(), 2u8),
        ("control/log/00000000-a.json".to_owned(), 0u8),
        ("control/log/00000001-c.json".to_owned(), 10u8),
        ("control/log/00000001-c.json".to_owned(), 11u8),
    ];
    let ordered = order_by_name(entries);
    let payloads: Vec<u8> = ordered.iter().map(|(_, p)| *p).collect();
    assert_eq!(payloads, vec![0, 10, 11, 2]);
    let (genesis, rest) = split_genesis(ordered, "c1").unwrap();
    assert_eq!(genesis.1, 0);
    assert_eq!(rest.len(), 3);
    assert!(matches!(
        split_genesis(Vec::<(String, u8)>::new(), "c1"),
        Err(CliError::ChannelNotPublished { channel_id }) if channel_id == "c1"
    ));
    assert!(name_before("a", "ab"));
    assert!(!name_before("ab", "a"));
    assert!(name_before("\u{e9}", "\u{20ac}"));
    assert!(!name_before("x", "x"));
}

#[test]
fn a_visibility_change_that_cannot_be_made_says_what_to_do_instead() {
    match publication_unavailable(PublicationFailure::NotOnGitHub { locator: "/srv/git/ops.git" }) {
        CliError::PublicationUnavailable { reason } => assert_eq!(
            reason,
            "/srv/git/ops.git is not a GitHub repository, so HRC cannot change its visibility. Change it with your provider; the confirmation is recorded."
        ),
        other => panic!("{other:?}"),
    }
    match publication_unavailable(PublicationFailure::GhRefused { slug: "acme/ops", stderr: "  denied\n" }) {
        CliError::PublicationUnavailable { reason } => {
            assert_eq!(reason, "gh refused to change the visibility of acme/ops: denied")
        }
        other => panic!("{other:?}"),
    }
    match publication_unavailable(PublicationFailure::GhUnavailable { error: "not found", slug: "acme/ops" }) {
        CliError::PublicationUnavailable { reason } => assert!(reason.starts_with("could not run gh (not found). Make acme/ops public")),
        other => panic!("{other:?}"),
    }
    assert_eq!(
        gh_visibility_arguments("acme/ops"),
        vec!["repo", "edit", "acme/ops", "--visibility", "public", "--accept-visibility-change-consequences"]
    );
}

#[test]
fn channels_is_empty_before_any_channel_exists() {
    let value = channels_report(&Vec::new());
    assert_eq!(get_str(&value, "status").unwrap(), "ok");
    assert!(matches!(get(&value, "channels"), Some(Json::Array(items)) if items.is_empty()));
}
