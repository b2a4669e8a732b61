use hrc_cli::references::{local_checks_with, needs_check, CommitCheck, ReferenceClaim};

fn commit(id: &str, well_formed: bool) -> ReferenceClaim {
    ReferenceClaim { kind: "commit".to_owned(), id: id.to_owned(), well_formed }
}

#[test]
fn a_result_that_names_nothing_says_so() {
    let lines = local_checks_with("result", Some(&Vec::new()), 8, |_| panic!("nothing to check"));
    assert_eq!(lines.len(), 1);
    assert!(lines[0].contains("sender's word"), "{lines:?}");
}

#[test]
fn only_a_result_is_checked() {
    for kind in ["note", "question", "answer", "task", "progress"] {
        assert!(
            local_checks_with(kind, Some(&Vec::new()), 8, |_| panic!("checked a {kind}")).is_empty(),
            "{kind}"
        );
    }

    let unreadable = local_checks_with("result", None, 8, |_| panic!("checked"));
    assert!(unreadable[0].contains("could not be read"), "{unreadable:?}");
}

#[test]
fn a_malformed_reference_never_reaches_git() {
    let refs = vec![commit("--output=/tmp/x", false)];
    assert!(!needs_check(&refs[0]));
    let lines = local_checks_with("result", Some(&refs), 8, |i| panic!("{i} reached git"));
    assert!(lines[0].contains("malformed"), "{lines:?}");
}

#[test]
fn the_review_reports_each_reference_in_words() {
    let refs = vec![
        commit(&"a".repeat(40), true),
        commit(&"b".repeat(40), true),
        commit(&"c".repeat(40), true),
        ReferenceClaim { kind: "issue".to_owned(), id: "d".repeat(40), well_formed: true },
        commit("zz", false),
    ];
    let answers = [CommitCheck::InHistory, CommitCheck::Present, CommitCheck::Missing];
    let lines = local_checks_with("result", Some(&refs), 8, |i| answers[i]);
    assert_eq!(lines.len(), 5, "{lines:?}");
    assert_eq!(lines[0], "commit aaaaaaaaaaaa: found here, and your HEAD contains it");
    assert!(lines[1].contains("not in your HEAD"));
    assert!(lines[2].contains("CLAIMED BUT NOT FOUND"));
    assert!(lines[3].contains("was not checked"));
    assert!(lines[4].contains("malformed"));
    let capped = local_checks_with("result", Some(&refs), 2, |i| answers[i]);
    assert_eq!(capped.len(), 2);
}
