use hrc_cli::error::CliError;
use hrc_cli::json::Json;
use hrc_cli::trusted::{
    parse_preview_item, preview_agreement, preview_fields, preview_items, require_trusted_success,
    required_string,
};

fn s(x: &str) -> Json {
    Json::Str(x.to_owned())
}

fn obj(pairs: Vec<(&str, Json)>) -> Json {
    Json::Object(pairs.into_iter().map(|(k, v)| (k.to_owned(), v)).collect())
}

fn reason(e: CliError) -> String {
    match e {
        CliError::Ipc(m) => m,
        other => panic!("unexpected {other:?}"),
    }
}

fn preview(content: &str, total: u64) -> Json {
    obj(vec![
        ("status", s("ok")),
        ("method", s("preview_context")),
        ("contextId", s("ctx-1")),
        ("digest", s("sha256:00")),
        ("content", s(content)),
        ("authorization", s("auth-1")),
        ("totalBytes", Json::UInt(total)),
        ("items", Json::Array(vec![Json::Array(vec![s("excerpt"), Json::UInt(3)])])),
    ])
}

#[test]
fn daemon_error_responses_are_refused_with_their_code() {
    let failed = obj(vec![("status", s("error")), ("code", s("authorization_required"))]);
    let message = reason(require_trusted_success(&failed, "preview_context").unwrap_err());
    assert_eq!(
        message,
        "trusted `preview_context` failed with `authorization_required`: the daemon did not explain the failure"
    );

    let other = obj(vec![("status", s("ok")), ("method", s("approve"))]);
    assert_eq!(
        reason(require_trusted_success(&other, "preview_context").unwrap_err()),
        "trusted response did not identify `preview_context`"
    );
    let right = obj(vec![("status", s("ok")), ("method", s("approve"))]);
    assert!(require_trusted_success(&right, "approve").is_ok());
}

#[test]
fn an_empty_field_counts_as_missing() {
    let v = obj(vec![("digest", s(""))]);
    assert_eq!(reason(required_string(&v, "digest").unwrap_err()), "trusted preview omitted `digest`");
    let v = obj(vec![("digest", s("x"))]);
    assert_eq!(required_string(&v, "digest").unwrap(), "x");
}

#[test]
fn an_item_is_a_pair_or_an_object() {
    let pair = Json::Array(vec![s("patch"), Json::UInt(12)]);
    assert_eq!(parse_preview_item(&pair).unwrap(), ("patch".to_owned(), 12));
    let object = obj(vec![("kind", s("output")), ("bytes", Json::Int(4))]);
    assert_eq!(parse_preview_item(&object).unwrap(), ("output".to_owned(), 4));
    let bad = Json::Array(vec![s("patch")]);
    assert_eq!(
        reason(parse_preview_item(&bad).unwrap_err()),
        "trusted preview returned a malformed item summary"
    );
}

#[test]
fn a_preview_must_declare_its_true_size() {
    let fields = preview_fields(&preview("héllo", 6), "ctx-1").unwrap();
    assert_eq!(fields.authorization, "auth-1");
    assert_eq!(fields.total_bytes, 6);
    assert_eq!(
        reason(preview_fields(&preview("héllo", 5), "ctx-1").unwrap_err()),
        "trusted preview declared 5 bytes but returned 6"
    );
    assert_eq!(
        reason(preview_fields(&preview("x", 1), "ctx-2").unwrap_err()),
        "trusted preview answered for context `ctx-1` instead of `ctx-2`"
    );
}

#[test]
fn a_summary_must_match_what_the_content_yields() {
    let items = preview_items(&preview("abc", 3)).unwrap();
    assert_eq!(items, vec![("excerpt".to_owned(), 3)]);
    assert!(preview_agreement(&items, 3, &items, 3, true).is_ok());
    assert_eq!(
        reason(preview_agreement(&items, 3, &items, 3, false).unwrap_err()),
        "trusted preview returned content that failed local disclosure checks"
    );
    let other = vec![("patch".to_owned(), 3)];
    assert_eq!(
        reason(preview_agreement(&items, 3, &other, 3, true).unwrap_err()),
        "trusted preview summary did not match its canonical content"
    );
    let no_items = obj(vec![("status", s("ok"))]);
    assert_eq!(
        reason(preview_items(&no_items).unwrap_err()),
        "trusted preview omitted its item list"
    );
}

#[test]
fn daemon_error_response_is_not_rendered_as_an_empty_preview() {
    let response = obj(vec![
        ("status", s("error")),
        ("code", s("core_error")),
        ("message", s("context package is blocked by source or secret checks")),
    ]);
    let error = preview_fields(&response, "ctx-blocked").unwrap_err();
    assert!(
        error.message().contains("blocked by source or secret checks"),
        "{}",
        error.message()
    );
}
