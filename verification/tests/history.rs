use hrc_cli::history::{
    attachment_totals, note_received, outgoing_message_object_name, stores_whole_body, walk_step,
    ObjectClass, Recorded, WalkStep,
};

#[test]
fn the_first_control_object_is_the_genesis() {
    assert_eq!(walk_step(ObjectClass::Control, false, true), WalkStep::ReadGenesis);
    assert_eq!(walk_step(ObjectClass::Control, true, false), WalkStep::ApplyEntry);
    assert_eq!(walk_step(ObjectClass::Message, false, true), WalkStep::Skip);
    assert_eq!(walk_step(ObjectClass::Message, true, false), WalkStep::Skip);
    assert_eq!(walk_step(ObjectClass::Message, true, true), WalkStep::OpenMessage);
    assert_eq!(walk_step(ObjectClass::Other, true, true), WalkStep::Skip);
}

#[test]
fn only_plain_conversation_keeps_just_its_text() {
    assert!(!stores_whole_body(false, false, "note"));
    assert!(!stores_whole_body(false, false, "answer"));
    assert!(stores_whole_body(false, false, "task"));
    assert!(stores_whole_body(true, false, "note"));
    assert!(stores_whole_body(false, true, "question"));
}

#[test]
fn attachment_totals_saturate() {
    assert_eq!(attachment_totals(&vec![]), (0, 0));
    assert_eq!(attachment_totals(&vec![3, 4]), (2, 7));
    assert_eq!(attachment_totals(&vec![u64::MAX, 1]), (2, u64::MAX));
}

#[test]
fn an_accepted_message_counts_itself_and_what_it_released() {
    let mut received = vec!["m0".to_owned()];
    note_received(&mut received, "m1", &Recorded::Accepted(vec!["m2".to_owned()]));
    note_received(&mut received, "r1", &Recorded::ReceiptAccepted(vec!["m3".to_owned()]));
    note_received(&mut received, "x1", &Recorded::ExpiredAccepted(vec![]));
    note_received(&mut received, "d1", &Recorded::Unchanged);
    assert_eq!(received, vec!["m0", "m1", "m2", "m3"]);
}

#[test]
fn a_message_object_is_filed_by_year_and_month() {
    assert_eq!(
        outgoing_message_object_name("01HX", "2026-03-07T10:00:00Z"),
        "messages/2026/03/01HX.age"
    );
    assert_eq!(outgoing_message_object_name("01HX", "2026"), "messages/2026/00/01HX.age");
    assert_eq!(outgoing_message_object_name("01HX", ""), "messages/0000/00/01HX.age");
    // The year and month are read by bytes: a character that straddles
    // byte 4 leaves no year there, one that ends on it is part of it.
    assert_eq!(outgoing_message_object_name("id", "202\u{20ac}-01"), "messages/0000/00/id.age");
    assert_eq!(outgoing_message_object_name("id", "20\u{e9}6-01-01"), "messages/20\u{e9}/-0/id.age");
}
