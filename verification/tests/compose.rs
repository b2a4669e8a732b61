use hrc_cli::compose::{
    addressee, reply_recipient, sent_report, thread_for, was_published, SentMessage,
};
use hrc_cli::error::CliError;
use hrc_cli::inbox::InboxEntry;
use hrc_cli::json::{get, get_str, Json};
use hrc_cli::publish::PublishOutcome;

fn received(id: &str, sender: &str, thread: Option<&str>) -> InboxEntry {
    InboxEntry {
        message_id: id.to_owned(),
        sender_principal: sender.to_owned(),
        sender_device: "d1".to_owned(),
        kind: "question".to_owned(),
        thread_id: thread.map(str::to_owned),
        in_reply_to: None,
        arrival_sequence: 1,
        expires_at: None,
        disposition: "quarantined".to_owned(),
    }
}

fn sent(id: &str, thread: &str) -> SentMessage {
    SentMessage { message_id: id.to_owned(), thread_id: thread.to_owned(), kind: "task".to_owned() }
}

#[test]
fn an_endpoint_follows_the_first_slash() {
    let a = addressee("alice/builder/second");
    assert_eq!(a.principal_id, "alice");
    assert_eq!(a.endpoint.as_deref(), Some("builder/second"));
    let b = addressee("bob");
    assert_eq!(b.principal_id, "bob");
    assert_eq!(b.endpoint, None);
    let c = addressee("carol/");
    assert_eq!(c.principal_id, "carol");
    assert_eq!(c.endpoint.as_deref(), Some(""));
}

#[test]
fn a_new_message_starts_its_own_thread() {
    let (thread, answers) = thread_for(None, "m-new", &vec![], &vec![]).unwrap();
    assert_eq!(thread, "m-new");
    assert_eq!(answers, None);
}

#[test]
fn a_reply_continues_the_thread_of_what_it_answers() {
    let inbox = vec![received("q1", "alice", Some("t-q")), received("q2", "alice", None)];
    let (thread, answers) = thread_for(Some("q1"), "m-new", &inbox, &vec![]).unwrap();
    assert_eq!(thread, "t-q");
    assert_eq!(answers.as_deref(), Some("q1"));
    let (thread, _) = thread_for(Some("q2"), "m-new", &inbox, &vec![]).unwrap();
    assert_eq!(thread, "q2");
}

#[test]
fn a_follow_up_to_ones_own_message_lands_in_its_thread() {
    let outbox = vec![sent("task-1", "t-task")];
    let (thread, answers) = thread_for(Some("task-1"), "m-new", &vec![], &outbox).unwrap();
    assert_eq!(thread, "t-task");
    assert_eq!(answers.as_deref(), Some("task-1"));
}

#[test]
fn answering_an_unknown_message_is_refused() {
    match thread_for(Some("nope"), "m-new", &vec![], &vec![]) {
        Err(CliError::NoSuchMessage { message_id }) => assert_eq!(message_id, "nope"),
        other => panic!("{other:?}"),
    }
}

#[test]
fn a_reply_goes_to_the_sender_of_the_question() {
    let inbox = vec![received("q1", "alice", None), received("q1", "mallory", None)];
    assert_eq!(reply_recipient(&inbox, "q1").unwrap(), "alice");
    assert!(matches!(
        reply_recipient(&inbox, "q9"),
        Err(CliError::NoSuchMessage { message_id }) if message_id == "q9"
    ));
}

#[test]
fn a_message_not_published_yet_is_deferred() {
    let outcomes = vec![
        PublishOutcome { published: vec!["m1".to_owned()], conflicts: 0, deferred: vec![] },
        PublishOutcome { published: vec![], conflicts: 1, deferred: vec!["m2".to_owned()] },
    ];
    assert!(was_published(&outcomes, "m1"));
    assert!(!was_published(&outcomes, "m2"));
    let report = sent_report("m2", "t", "note", false);
    assert_eq!(get_str(&report, "status").unwrap(), "ok");
    assert_eq!(get_str(&report, "messageId").unwrap(), "m2");
    assert_eq!(get_str(&report, "threadId").unwrap(), "t");
    assert_eq!(get_str(&report, "kind").unwrap(), "note");
    assert!(matches!(get(&report, "published"), Some(Json::Bool(false))));
    assert!(matches!(get(&report, "deferred"), Some(Json::Bool(true))));
}
