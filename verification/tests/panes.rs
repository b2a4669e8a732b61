use hrc_cli::compose::SentMessage;
use hrc_cli::inbox::InboxEntry;
use hrc_cli::json::{get, get_str, Json};
use hrc_cli::panes::{
    available_steps, only_initializing, pane_report, setup_quit_report, thread_lines,
    thread_title, thread_to_show, SetupStep, ThreadInbound, ThreadPlace, AWAITING, NOT_RELEASED,
    SENT_HERE, DEFAULT_INVITE_LIFETIME,
};

fn arrival(id: &str, thread: Option<&str>, sequence: u64) -> InboxEntry {
    InboxEntry {
        message_id: id.to_owned(),
        sender_principal: "alice".to_owned(),
        sender_device: "d1".to_owned(),
        kind: "note".to_owned(),
        thread_id: thread.map(str::to_owned),
        in_reply_to: None,
        arrival_sequence: sequence,
        expires_at: None,
        disposition: "quarantined".to_owned(),
    }
}

fn place(id: &str, outbound: bool) -> ThreadPlace {
    ThreadPlace { message_id: id.to_owned(), outbound }
}

fn inbound(id: &str, kind: &str, disposition: &str, released: Option<&str>) -> ThreadInbound {
    ThreadInbound {
        message_id: id.to_owned(),
        sender_name: "Alice".to_owned(),
        kind: kind.to_owned(),
        disposition: disposition.to_owned(),
        released: released.map(str::to_owned),
    }
}

fn text_of(lines: &[hrc_cli::panes::ThreadLine]) -> String {
    lines.iter().map(|l| format!("{}\n{}\n", l.heading, l.body)).collect()
}

#[test]
fn a_thread_shows_released_content_and_the_metadata_of_everything_else() {
    let places = vec![place("q", true), place("q", false), place("a", true), place("a", false)];
    let sent = vec![
        SentMessage { message_id: "q".to_owned(), thread_id: "q".to_owned(), kind: "question".to_owned() },
        SentMessage { message_id: "a".to_owned(), thread_id: "q".to_owned(), kind: "answer".to_owned() },
    ];
    let before = vec![inbound("q", "question", "quarantined", None), inbound("a", "answer", "quarantined", None)];
    let text = text_of(&thread_lines(&places, &before, &sent, "q"));
    assert!(!text.contains("RELEASED_QUESTION"), "{text}");
    assert!(!text.contains("WITHHELD_ANSWER"), "{text}");
    assert!(text.contains(AWAITING), "{text}");
    assert!(text.contains(SENT_HERE), "{text}");

    let after = vec![
        inbound("q", "question", "approved", Some("RELEASED_QUESTION")),
        inbound("a", "answer", "quarantined", None),
    ];
    let text = text_of(&thread_lines(&places, &after, &sent, "q"));
    assert!(text.contains("RELEASED_QUESTION"), "{text}");
    assert!(!text.contains("WITHHELD_ANSWER"), "the answer was never approved: {text}");
}

#[test]
fn thread_entries_follow_local_order_and_headings() {
    let places = vec![place("m2", false), place("m1", true), place("unknown", false), place("draft", true)];
    let inbound_list = vec![inbound("m2", "note", "declined", None)];
    let sent = vec![SentMessage { message_id: "m1".to_owned(), thread_id: "t".to_owned(), kind: "note".to_owned() }];
    let lines = thread_lines(&places, &inbound_list, &sent, "t");
    assert_eq!(lines.len(), 2);
    assert_eq!(lines[0].heading, "Alice \u{b7} note");
    assert_eq!(lines[0].body, NOT_RELEASED);
    assert_eq!(lines[1].heading, "you \u{b7} note");
    assert_eq!(lines[1].body, SENT_HERE);
    // A message written into another thread is not drawn here.
    let elsewhere = vec![SentMessage { message_id: "m1".to_owned(), thread_id: "other".to_owned(), kind: "note".to_owned() }];
    assert_eq!(thread_lines(&places, &inbound_list, &elsewhere, "t").len(), 1);
}

#[test]
fn the_thread_pane_opens_on_the_most_recent_arrival() {
    let inbox = vec![arrival("m1", Some("t1"), 5), arrival("m2", None, 9), arrival("m3", Some("t3"), 9)];
    assert_eq!(thread_to_show(&inbox, None).as_deref(), Some("t3"));
    assert_eq!(thread_to_show(&inbox, Some("m2")).as_deref(), Some("m2"));
    assert_eq!(thread_to_show(&inbox, Some("m1")).as_deref(), Some("t1"));
    assert_eq!(thread_to_show(&inbox, Some("elsewhere")).as_deref(), Some("elsewhere"));
    assert_eq!(thread_to_show(&vec![], None), None);
}

#[test]
fn the_thread_title_counts_its_messages() {
    assert_eq!(thread_title("ops", 1), "Thread in ops (1 message)");
    assert_eq!(thread_title("ops", 12), "Thread in ops (12 messages)");
    assert_eq!(thread_title("ops", 0), "Thread in ops (0 messages)");
    let report = pane_report("thread", 0);
    assert_eq!(get_str(&report, "pane").unwrap(), "thread");
    assert!(matches!(get(&report, "entries"), Some(Json::UInt(0))));
}

#[test]
fn setup_offers_only_the_steps_that_can_succeed() {
    assert_eq!(available_steps(false, false), vec![SetupStep::Initialize]);
    assert_eq!(available_steps(false, true), vec![SetupStep::Initialize]);
    assert_eq!(available_steps(true, true), vec![SetupStep::CreateInvite]);
    assert_eq!(available_steps(true, false), vec![SetupStep::CreateChannel, SetupStep::Join]);
    assert!(only_initializing(&available_steps(false, false)));
    assert!(!only_initializing(&available_steps(true, false)));
    assert_eq!(DEFAULT_INVITE_LIFETIME, "24h");
    assert!(matches!(get(&setup_quit_report(), "done"), Some(Json::Null)));
}
