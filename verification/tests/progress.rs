use hrc_cli::json::{get_str, get_u64};
use hrc_cli::progress::{
    most_advanced, observed_states, parse_wait_timeout, reached_state, state_rank, state_reaches,
    wait_limit, wait_report, wait_step, WaitStep,
};

#[test]
fn wait_timeouts_are_bounded_and_malformed_durations_do_not_panic() {
    assert_eq!(wait_limit(Some("1s")).unwrap(), 1);
    assert!(matches!(wait_step(None, 1_000, 1_000, 5_000), WaitStep::TimedOut));
    assert!(matches!(wait_step(None, 200, 1_000, 5_000), WaitStep::Sleep(800)));
    for value in ["1\u{00e9}", "18446744073709551615h", "18446744073709551615m", "0s"] {
        assert!(parse_wait_timeout(value).is_err(), "{value}");
    }
}

#[test]
fn wait_returns_the_advanced_report_when_earlier_milestones_are_reached() {
    let mut receipts: Vec<String> = Vec::new();
    for state in ["delivered", "read", "accepted"] {
        receipts.push(state.to_owned());
        for wanted in ["published", "delivered"] {
            assert_eq!(
                reached_state(None, &receipts, Some("published"), wanted).as_deref(),
                Some(state)
            );
        }
    }
    receipts.push("rejected".to_owned());
    assert_eq!(
        reached_state(None, &receipts, Some("published"), "delivered").as_deref(),
        Some("accepted")
    );
    assert!(!state_reaches("rejected", "accepted"));
    assert!(!state_reaches("rejected", "delivered"));
    assert!(!state_reaches("declined", "approved"));
    assert!(!state_reaches("published", "delivered"));
}

#[test]
fn receipts_are_weighed_most_final_first() {
    let receipts = vec!["read".to_owned(), "delivered".to_owned(), "read".to_owned()];
    assert_eq!(
        observed_states(Some("quarantined"), &receipts, Some("published")),
        vec!["quarantined", "read", "delivered", "published"]
    );
}

#[test]
fn ranks_order_the_lifecycle() {
    assert!(state_rank("accepted") > state_rank("read"));
    assert!(state_rank("read") > state_rank("delivered"));
    assert!(state_rank("delivered") > state_rank("published"));
    assert_eq!(state_rank("unheard-of"), 0);
    let observed = vec!["approved".to_owned(), "edited".to_owned()];
    assert_eq!(most_advanced(&observed, "quarantined"), Some(1));
    assert_eq!(reached_state(Some("quarantined"), &Vec::new(), None, "approved"), None);
}

#[test]
fn waiting_reports_the_state_and_the_time_waited() {
    let r = wait_report("m1", "timeout", 3);
    assert_eq!(get_str(&r, "state").unwrap(), "timeout");
    assert_eq!(get_u64(&r, "waitedSeconds"), Some(3));
    assert_eq!(wait_limit(None).unwrap(), 300);
    assert_eq!(parse_wait_timeout(" 2h ").unwrap(), 7200);
    assert!(matches!(wait_step(Some("read".to_owned()), 0, 0, 0), WaitStep::Reached(s) if s == "read"));
}
