use hrc_cli::herdr::{
    inbox_pane_record, placement_next, recorded_pane, sidebar_tally, ChannelCounts,
    PlacementAction, PlacementEvent,
};
use hrc_cli::json::{get, get_str, Json};
use hrc_cli::paths::Platform;

fn counts(name: &str, unread: u64, owed: u64, awaiting: u64) -> ChannelCounts {
    ChannelCounts {
        local_name: name.to_owned(),
        roster_epoch: 3,
        unread,
        pending_approval: 2,
        halted: name == "halted",
        owed,
        awaiting,
    }
}

#[test]
fn the_inbox_pane_is_recorded_in_the_plugin_state_directory() {
    assert_eq!(
        inbox_pane_record(&Platform::Other, Some("/state")).as_deref(),
        Some("/state/inbox-pane")
    );
    assert_eq!(inbox_pane_record(&Platform::Other, Some("")), None);
    assert_eq!(inbox_pane_record(&Platform::Other, None), None);
}

#[test]
fn a_recorded_pane_is_read_without_surrounding_whitespace() {
    assert_eq!(recorded_pane("  p-7\n").as_deref(), Some("p-7"));
    assert_eq!(recorded_pane(" \n\t"), None);
    assert_eq!(recorded_pane(""), None);
}

#[test]
fn the_sidebar_saturates_rather_than_wrapping() {
    let tally = sidebar_tally(&vec![counts("ops", u64::MAX, 1, 2), counts("halted", 5, 3, 4)]);
    assert_eq!(tally.unread, u64::MAX);
    assert_eq!(tally.unanswered, 4);
    assert_eq!(tally.awaiting_answer, 6);
    assert_eq!(tally.statuses.len(), 2);
    assert_eq!(tally.statuses[1].local_name, "halted");
    assert!(tally.statuses[1].halted);
    assert_eq!(tally.statuses[0].pending, 2);
    assert_eq!(tally.statuses[0].roster_epoch, 3);
}

fn answer(action: PlacementAction) -> Json {
    match action {
        PlacementAction::Answer(json) => json,
        _ => panic!("expected an answer"),
    }
}

#[test]
fn placing_the_inbox_reports_every_reason_it_did_not() {
    let off = answer(placement_next(PlacementEvent::Begin { open_at_startup: false }));
    assert!(matches!(get(&off, "opened"), Some(Json::Bool(false))));
    assert!(get_str(&off, "reason").unwrap().contains("open_at_startup"));
    assert!(matches!(placement_next(PlacementEvent::Begin { open_at_startup: true }), PlacementAction::CountChannels));
    let none = answer(placement_next(PlacementEvent::Channels(Ok(0))));
    assert!(get_str(&none, "reason").unwrap().starts_with("no channel is configured yet"));
    assert!(matches!(placement_next(PlacementEvent::Channels(Ok(2))), PlacementAction::ConnectHost));
    let broken = answer(placement_next(PlacementEvent::Connected(Err("no socket".to_owned()))));
    assert_eq!(get_str(&broken, "reason").unwrap(), "no socket");
    assert!(matches!(placement_next(PlacementEvent::Connected(Ok(()))), PlacementAction::CheckRemembered));
    let open = answer(placement_next(PlacementEvent::Remembered(Some("p-1".to_owned()))));
    assert_eq!(get_str(&open, "reason").unwrap(), "already open");
    assert_eq!(get_str(&open, "pane").unwrap(), "p-1");
    assert!(matches!(placement_next(PlacementEvent::Remembered(None)), PlacementAction::OpenInbox));
    match placement_next(PlacementEvent::Opened(Ok("p-2".to_owned()))) {
        PlacementAction::RecordAndNarrow(pane) => assert_eq!(pane, "p-2"),
        _ => panic!("expected to record and narrow"),
    }
    let placed = answer(placement_next(PlacementEvent::Narrowed { pane: "p-2".to_owned(), narrowed: false }));
    assert!(matches!(get(&placed, "opened"), Some(Json::Bool(true))));
    assert!(matches!(get(&placed, "narrowed"), Some(Json::Bool(false))));
}
