use hrc_cli::context::{
    context_preview_value, context_sent_report, send_blocker, ContextPreview, ExcludedPath,
    SecretFinding, SendBlocker,
};
use hrc_cli::json::{get, get_str, get_u64, Json};

fn preview(secrets: usize, excluded: &[&str]) -> ContextPreview {
    ContextPreview {
        total_bytes: 42,
        items: vec![("note".to_owned(), 40), ("excerpt".to_owned(), 2)],
        sendable: secrets == 0 && excluded.is_empty(),
        secrets: (0..secrets)
            .map(|i| SecretFinding { item_index: i as u64, rule: "aws-key".to_owned(), detail: "looks like a key".to_owned() })
            .collect(),
        excluded: excluded
            .iter()
            .map(|p| ExcludedPath { item_index: 1, path: (*p).to_owned(), reason: "path is ignored by its Git repository".to_owned() })
            .collect(),
    }
}

#[test]
fn a_preview_reports_sizes_and_findings_without_text() {
    let report = context_preview_value("ctx-1", "abc", &preview(1, &["secret.env"]), "preview");
    assert_eq!(get_str(&report, "state").unwrap(), "preview");
    assert_eq!(get_str(&report, "contextId").unwrap(), "ctx-1");
    assert_eq!(get_u64(&report, "totalBytes"), Some(42));
    assert!(matches!(get(&report, "sendable"), Some(Json::Bool(false))));
    match get(&report, "items") {
        Some(Json::Array(items)) => {
            assert_eq!(items.len(), 2);
            assert_eq!(get_str(&items[1], "kind").unwrap(), "excerpt");
            assert_eq!(get_u64(&items[1], "bytes"), Some(2));
        }
        other => panic!("{other:?}"),
    }
    match get(&report, "secretFindings") {
        Some(Json::Array(found)) => assert_eq!(get_str(&found[0], "rule").unwrap(), "aws-key"),
        other => panic!("{other:?}"),
    }
    match get(&report, "excludedPaths") {
        Some(Json::Array(paths)) => assert_eq!(get_str(&paths[0], "path").unwrap(), "secret.env"),
        other => panic!("{other:?}"),
    }
}

#[test]
fn secrets_block_a_send_before_excluded_paths() {
    assert!(matches!(send_blocker(&preview(2, &["a"])), Some(SendBlocker::Secrets(2))));
    match send_blocker(&preview(0, &["first", "second"])) {
        Some(SendBlocker::Excluded(path)) => assert_eq!(path, "first"),
        _ => panic!("expected an excluded path"),
    }
    assert!(send_blocker(&preview(0, &[])).is_none());
}

#[test]
fn a_sent_package_is_named_with_its_digest() {
    let report = context_sent_report("m1", "m1", true, "ctx-1", "abc");
    assert_eq!(get_str(&report, "kind").unwrap(), "note");
    assert_eq!(get_str(&report, "contextId").unwrap(), "ctx-1");
    assert_eq!(get_str(&report, "contextDigest").unwrap(), "abc");
    assert!(matches!(get(&report, "deferred"), Some(Json::Bool(false))));
}
