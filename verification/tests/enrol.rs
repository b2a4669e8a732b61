use hrc_cli::enrol::{
    check_invite_channel, invite_create_report, invite_list_report, invite_revoke_report,
    invite_store_name, is_open_invite, is_request_object, join_object_invite, join_object_name,
    join_object_request, join_pending_report, join_report, local_invite, pending_joins,
    InviteRecord, IssuedInvite, JoinRequest, SentJoin,
};
use hrc_cli::error::CliError;
use hrc_cli::json::{get, get_str, Json};

fn invite(id: &str, state: &str) -> InviteRecord {
    InviteRecord {
        invite_id: id.to_owned(),
        intended_for: "alice".to_owned(),
        expires_at: "2026-09-14T00:00:00Z".to_owned(),
        state: state.to_owned(),
    }
}

fn request(id: &str) -> JoinRequest {
    JoinRequest {
        request_id: id.to_owned(),
        invite_id: "inv".to_owned(),
        principal_id: "p".to_owned(),
        device_id: "d".to_owned(),
        created_at: "2026-09-13T00:00:00Z".to_owned(),
        safety_phrase: "apple banana cherry".to_owned(),
        wordlist: "words-v1".to_owned(),
    }
}

#[test]
fn a_store_name_is_the_invite_identifier_behind_a_prefix() {
    assert_eq!(invite_store_name("abc-_9"), "invite-abc-_9");
}

#[test]
fn only_an_open_invite_this_installation_issued_is_used() {
    let invites = vec![invite("a", "consumed"), invite("b", "open")];
    assert!(!is_open_invite(&invites, "a"));
    assert!(is_open_invite(&invites, "b"));
    assert!(!is_open_invite(&invites, "c"));
    assert_eq!(local_invite(&invites, "b"), Some("invite-b".to_owned()));
    assert_eq!(local_invite(&invites, "a"), None);
}

#[test]
fn a_join_object_name_reads_back() {
    let name = join_object_name("inv-1", "req-9");
    assert_eq!(name, "joins/inv-1/req-9.age");
    assert_eq!(join_object_invite(&name), Some("inv-1".to_owned()));
    assert_eq!(join_object_request(&name), "req-9");
    assert!(is_request_object(&name, "req-9"));
    assert!(!is_request_object(&name, "req-1"));
}

#[test]
fn objects_outside_joins_name_no_invite() {
    assert_eq!(join_object_invite("control/log/x.json"), None);
    assert_eq!(join_object_invite("joins/only"), Some("only".to_owned()));
    assert_eq!(join_object_request("joins/inv/req.json"), "");
}

#[test]
fn an_invite_for_another_channel_is_refused() {
    assert!(check_invite_channel("chan-a", "chan-a").is_ok());
    match check_invite_channel("chan-a", "chan-b") {
        Err(CliError::InviteChannelMismatch { expected, found }) => {
            assert_eq!(expected, "chan-a");
            assert_eq!(found, "chan-b");
        }
        other => panic!("unexpected {other:?}"),
    }
}

#[test]
fn invite_reports_carry_no_secret_unless_created() {
    let list = invite_list_report(&vec![invite("a", "open")]);
    let text = format!("{list:?}");
    assert!(!text.contains("inviteCode"));
    match get(&list, "invites").unwrap() {
        Json::Array(items) => assert_eq!(get_str(&items[0], "state").unwrap(), "open"),
        other => panic!("{other:?}"),
    }

    let revoked = invite_revoke_report("a");
    assert_eq!(get_str(&revoked, "state").unwrap(), "revoked");

    let created = invite_create_report(&IssuedInvite {
        invite_id: "a".to_owned(),
        expires_at: "t".to_owned(),
        intended_for: "alice".to_owned(),
        invite_code: "CODE".to_owned(),
        join_link: None,
    });
    assert_eq!(get_str(&created, "inviteCode").unwrap(), "CODE");
    assert!(matches!(get(&created, "joinLink"), Some(Json::Null)));
}

#[test]
fn pending_joins_keep_their_order_and_fields() {
    let shown = pending_joins(vec![request("r1"), request("r2")]);
    assert_eq!(shown.len(), 2);
    assert_eq!(shown[0].request_id, "r1");
    assert_eq!(shown[1].request_id, "r2");
    assert_eq!(shown[1].safety_phrase, "apple banana cherry");

    let report = join_pending_report("chan", &vec![request("r1")]);
    assert_eq!(get_str(&report, "channelId").unwrap(), "chan");
    match get(&report, "pending").unwrap() {
        Json::Array(items) => assert_eq!(get_str(&items[0], "wordlist").unwrap(), "words-v1"),
        other => panic!("{other:?}"),
    }

    let sent = join_report(&SentJoin {
        channel_id: "chan".to_owned(),
        request_id: "r1".to_owned(),
        principal_id: "p".to_owned(),
        safety_phrase: "x y z".to_owned(),
        wordlist: "w".to_owned(),
    });
    assert_eq!(get_str(&sent, "safetyPhrase").unwrap(), "x y z");
}
