use hrc_cli::decide::{confirmed, decline_reason, edit_prompt, worth_delivering};

#[test]
fn only_a_real_change_is_delivered_as_an_edit() {
    let original = "Please check the retry loop.\n";

    assert_eq!(worth_delivering(original, original), None, "unchanged");
    assert_eq!(
        worth_delivering(original, "Please check the retry loop."),
        None,
        "a trailing newline is not an edit"
    );
    assert_eq!(worth_delivering(original, "  \n\n"), None, "emptied");
    assert_eq!(
        worth_delivering(original, "Please check the retry loop only.\n"),
        Some("Please check the retry loop only.".to_owned())
    );
}

#[test]
fn the_edit_question_counts_lines_on_both_sides() {
    assert_eq!(
        edit_prompt("a\nb\n", "a\nb\nc", "builder"),
        "Deliver your edit (3 lines, from 2) to builder? [y/N] "
    );
}

#[test]
fn only_a_plain_yes_confirms() {
    assert!(confirmed(Some("y")));
    assert!(confirmed(Some(" Y \n")));
    assert!(!confirmed(Some("yes")));
    assert!(!confirmed(Some("")));
    assert!(!confirmed(None));
}

#[test]
fn an_empty_reason_sends_none() {
    assert_eq!(decline_reason(Some("  not now \n")), Some("not now".to_owned()));
    assert_eq!(decline_reason(Some("   ")), None);
    assert_eq!(decline_reason(None), None);
}
