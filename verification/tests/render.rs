use hrc_cli::json::Json;
use hrc_cli::render::{array_field, number_field, optional_field, render, text_field};

fn s(x: &str) -> Json {
    Json::Str(x.to_owned())
}

fn obj(pairs: Vec<(&str, Json)>) -> Json {
    Json::Object(pairs.into_iter().map(|(k, v)| (k.to_owned(), v)).collect())
}

#[test]
fn missing_fields_do_not_panic() {
    let empty = obj(vec![]);

    assert_eq!(text_field(&empty, "missing"), "");
    assert_eq!(optional_field(&empty, "missing", "never"), "never");
    assert_eq!(number_field(&empty, "missing"), 0);
    assert!(array_field(&empty, "missing").is_none());
}

#[test]
fn a_null_field_falls_back() {
    let value = obj(vec![("lastFetchedRevision", Json::Null)]);
    assert_eq!(optional_field(&value, "lastFetchedRevision", "never"), "never");
}

#[test]
fn init_and_whoami_render_their_keys() {
    let v = obj(vec![("home", s("/h")), ("signingKey", s("sk")), ("encryptionRecipient", s("er"))]);
    assert_eq!(
        render("init", &v).unwrap(),
        "Initialized /h\n  signing key         sk\n  encryption recipient er\n"
    );
    assert_eq!(
        render("whoami", &v).unwrap(),
        "signing key          sk\nencryption recipient er\n"
    );
}

#[test]
fn doctor_marks_failures_in_words() {
    let v = obj(vec![
        ("healthy", Json::Bool(false)),
        (
            "checks",
            Json::Array(vec![
                obj(vec![("check", s("git")), ("ok", Json::Bool(true)), ("detail", s("git 2"))]),
                obj(vec![("check", s("device_keys")), ("ok", Json::Bool(false)), ("detail", s("none"))]),
            ]),
        ),
    ]);
    let expected = format!(
        "{}  {:<18}  {}\n{}  {:<18}  {}\n\nSome checks failed. See the lines marked FAILED above.\n",
        "ok    ", "git", "git 2", "FAILED", "device_keys", "none"
    );
    assert_eq!(render("doctor", &v).unwrap(), expected);
}

#[test]
fn an_empty_inbox_says_so_and_entries_are_aligned() {
    assert_eq!(render("inbox", &obj(vec![])).unwrap(), "Inbox is empty.\n");
    let v = obj(vec![(
        "entries",
        Json::Array(vec![obj(vec![
            ("arrival", Json::UInt(7)),
            ("messageId", s("m1")),
            ("kind", s("note")),
            ("sender", s("alice")),
            ("disposition", s("expired")),
            ("expiresAt", s("2026-01-01T00:00:00Z")),
        ])]),
    )]);
    let expected = format!(
        "{:>4}  m1  note from alice  [expired]\n      expired 2026-01-01T00:00:00Z; no action is available\n",
        7
    );
    assert_eq!(render("inbox", &v).unwrap(), expected);
}

#[test]
fn a_created_invite_prints_its_code_alone() {
    let v = obj(vec![("inviteCode", s("CODE")), ("intendedFor", s("bob")), ("expiresAt", s("t"))]);
    assert_eq!(
        render("invite create", &v).unwrap(),
        "Invite for bob expires t\n\nCODE\n\nGive this to them through a channel you trust. It works once.\n"
    );
    assert_eq!(render("invite list", &obj(vec![("invites", Json::Array(vec![]))])).unwrap(), "No invites.\n");
    assert_eq!(render("invite revoke", &obj(vec![("inviteId", s("i1"))])).unwrap(), "i1\n");
}

#[test]
fn status_states_a_halt_in_words() {
    let v = obj(vec![
        ("home", s("/h")),
        (
            "channels",
            Json::Array(vec![obj(vec![
                ("localName", s("team")),
                ("channelId", s("c1")),
                ("transport", s("git")),
                ("locator", s("/r")),
                ("rosterEpoch", Json::UInt(2)),
                ("haltedReason", s("history rewritten")),
            ])]),
        ),
    ]);
    let text = render("status", &v).unwrap();
    assert!(text.starts_with("state directory /h\n\nteam\n"), "{text}");
    assert!(text.contains("  last fetched   never\n"), "{text}");
    assert!(text.contains("  HALTED         history rewritten\n"), "{text}");
    assert!(text.ends_with("synchronization will not resume on its own\n"), "{text}");
}

#[test]
fn members_show_role_and_state_as_words() {
    let v = obj(vec![
        ("rosterEpoch", Json::UInt(3)),
        (
            "members",
            Json::Array(vec![obj(vec![
                ("principalId", s("p1")),
                ("active", Json::Bool(true)),
                ("administrator", Json::Bool(true)),
                ("devices", Json::Array(vec![obj(vec![("deviceId", s("d1")), ("active", Json::Bool(false))])])),
            ])]),
        ),
    ]);
    assert_eq!(
        render("members", &v).unwrap(),
        "Roster epoch 3\nactive    admin   p1\n    revoked  d1\n"
    );
}

#[test]
fn the_manifest_is_printed_without_framing_and_unknown_commands_print_json() {
    let v = obj(vec![("toml", s("[plugin]\n"))]);
    assert_eq!(render("herdr manifest", &v).unwrap(), "[plugin]\n");
    assert!(render("show", &v).is_none());
}

#[test]
fn a_queued_send_says_it_will_publish_later() {
    let v = obj(vec![
        ("kind", s("note")),
        ("messageId", s("m1")),
        ("threadId", s("t1")),
        ("published", Json::Bool(false)),
    ]);
    assert_eq!(
        render("send", &v).unwrap(),
        "note m1 in thread t1\nQueued locally; it will publish on the next synchronization.\n"
    );
}

#[test]
fn the_daemon_reports_a_failed_channel_by_its_error() {
    let v = obj(vec![
        ("syncedAt", s("now")),
        ("nextPollSeconds", Json::UInt(30)),
        ("channels", Json::Array(vec![obj(vec![("channelId", s("c1")), ("status", s("error")), ("message", s("boom"))])])),
    ]);
    assert_eq!(
        render("daemon", &v).unwrap(),
        "daemon synchronized at now\nnext poll in 30 seconds\n\nc1\n  ERROR           boom\n"
    );
}
