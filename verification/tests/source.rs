use hrc_cli::error::CliError;
use hrc_cli::source::{
    check_excerpt_request, commit_expression, committed_path, full_object_id,
    is_plain_revision_range, is_repository_relative_path, select_excerpt, truncate_capture,
    MAX_CAPTURE_BYTES,
};

fn reason(e: CliError) -> String {
    match e {
        CliError::InvalidContextSource { reason } => reason,
        other => panic!("unexpected {other:?}"),
    }
}

#[test]
fn a_range_is_a_range_and_nothing_else() {
    assert!(is_plain_revision_range("HEAD~3..HEAD"));
    assert!(is_plain_revision_range("  main...feature/x  "));
    assert!(!is_plain_revision_range("--output=/etc/passwd"));
    assert!(!is_plain_revision_range("a b"));
    assert!(!is_plain_revision_range(""));
    assert!(!is_plain_revision_range(&"a".repeat(201)));
}

#[test]
fn an_excerpt_path_stays_inside_its_repository() {
    assert!(is_repository_relative_path("src/lib.rs"));
    assert!(is_repository_relative_path("a/..b/c"));
    assert!(!is_repository_relative_path("../secret"));
    assert!(!is_repository_relative_path("src\\..\\..\\secret"));
    assert!(!is_repository_relative_path("/etc/passwd"));
    assert!(!is_repository_relative_path(""));
}

#[test]
fn excerpt_requests_are_checked_before_reading() {
    assert!(check_excerpt_request("src/a.rs", 1, 2, None).is_ok());
    assert_eq!(
        reason(check_excerpt_request("../a.rs", 1, 2, None).unwrap_err()),
        "excerpt paths must be repository-relative"
    );
    assert_eq!(
        reason(check_excerpt_request("a.rs", 0, 2, None).unwrap_err()),
        "excerpt line range is invalid"
    );
    assert_eq!(
        reason(check_excerpt_request("a.rs", 3, 2, None).unwrap_err()),
        "excerpt line range is invalid"
    );
    assert_eq!(
        reason(check_excerpt_request("a.rs", 1, 1, Some("abc")).unwrap_err()),
        "excerpt commit must be a full SHA-1 or SHA-256 object ID"
    );
    let sha1 = "0123456789abcdef0123456789abcdef01234567";
    assert!(full_object_id(sha1));
    assert!(full_object_id(&"A".repeat(64)));
    assert!(!full_object_id(&"g".repeat(40)));
    assert!(check_excerpt_request("a.rs", 1, 1, Some(sha1)).is_ok());
    assert_eq!(commit_expression(sha1), format!("{sha1}^{{commit}}"));
    assert_eq!(committed_path(sha1, "src\\a.rs"), format!("{sha1}:src/a.rs"));
}

#[test]
fn an_excerpt_selects_whole_lines() {
    let source = "one\ntwo\r\nthree\nfour\n";
    assert_eq!(select_excerpt(source, 2, 3).unwrap(), "two\nthree");
    assert_eq!(select_excerpt(source, 4, 4).unwrap(), "four");
    assert_eq!(
        reason(select_excerpt(source, 4, 5).unwrap_err()),
        "excerpt line range is outside the source file"
    );
    assert_eq!(
        reason(select_excerpt("a\n\n", 1, 2).unwrap_err()),
        "excerpt line range is outside the source file"
    );
}

#[test]
fn a_capture_that_fits_is_kept_and_a_long_one_is_cut_on_a_line() {
    assert_eq!(truncate_capture("short\n".to_owned()), "short\n");
    let line = "x".repeat(1000) + "\n";
    let long = line.repeat(70);
    let cut = truncate_capture(long);
    assert!(cut.ends_with(&format!("\n[truncated by HRC at {MAX_CAPTURE_BYTES} bytes]\n")));
    assert!(cut.len() <= MAX_CAPTURE_BYTES + 40);
    assert!(cut.starts_with(&line));
}

#[test]
fn committed_context_excerpt_accepts_sha1_and_sha256_commit_ids() {
    for expected_length in [40usize, 64] {
        let commit = "a1".repeat(expected_length / 2);
        assert_eq!(commit.len(), expected_length);
        assert!(full_object_id(&commit));
        assert!(check_excerpt_request("src/lib.rs", 1, 1, Some(&commit)).is_ok());
        assert_eq!(commit_expression(&commit), format!("{commit}^{{commit}}"));
        assert_eq!(committed_path(&commit, "src\\lib.rs"), format!("{commit}:src/lib.rs"));
    }
    assert!(!full_object_id(&"a".repeat(41)));
    assert!(check_excerpt_request("src/lib.rs", 1, 1, Some(&"g".repeat(40))).is_err());
}
