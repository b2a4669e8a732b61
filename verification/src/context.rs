//! Context packages: what a preview reports and what stops a send.
//!
//! A preview reports sizes and findings, never package text or a suspected
//! secret. A package with a secret finding or an excluded path is never
//! sent.
use vstd::prelude::*;

use crate::json::{
    array, items, items_view, jview, members, members_view, object, push_item, push_member, text,
    Json, JsonView,
};

verus! {

broadcast use vstd::string::group_string_axioms;

/// A suspected secret found in a package item.
pub struct SecretFinding {
    /// The item it was found in.
    pub item_index: u64,
    /// The rule that matched.
    pub rule: String,
    /// A description that does not repeat the secret.
    pub detail: String,
}

/// A path the package may not carry.
pub struct ExcludedPath {
    /// The item that names it.
    pub item_index: u64,
    /// The path.
    pub path: String,
    /// Why it is excluded.
    pub reason: String,
}

/// What a human is shown before a package may be sent.
pub struct ContextPreview {
    /// The bytes the package carries in all.
    pub total_bytes: u64,
    /// Each item's kind and size, in package order.
    pub items: Vec<(String, u64)>,
    /// Whether the package may be sent as it stands.
    pub sendable: bool,
    /// Suspected secrets.
    pub secrets: Vec<SecretFinding>,
    /// Paths the package may not carry.
    pub excluded: Vec<ExcludedPath>,
}

/// How one item is reported.
pub open spec fn item_json(i: (String, u64)) -> JsonView {
    JsonView::Object(seq![("kind"@, JsonView::Str(i.0@)), ("bytes"@, JsonView::UInt(i.1))])
}

/// How one secret finding is reported: where and by which rule, never the
/// secret itself.
pub open spec fn finding_json(f: SecretFinding) -> JsonView {
    JsonView::Object(
        seq![
            ("item"@, JsonView::UInt(f.item_index)),
            ("rule"@, JsonView::Str(f.rule@)),
            ("detail"@, JsonView::Str(f.detail@)),
        ],
    )
}

/// How one excluded path is reported.
pub open spec fn excluded_json(e: ExcludedPath) -> JsonView {
    JsonView::Object(
        seq![
            ("item"@, JsonView::UInt(e.item_index)),
            ("path"@, JsonView::Str(e.path@)),
            ("reason"@, JsonView::Str(e.reason@)),
        ],
    )
}

/// The report of `hrc context draft` and `hrc context preview`.
pub open spec fn preview_json(
    package_id: Seq<char>,
    digest: Seq<char>,
    p: ContextPreview,
    state: Seq<char>,
) -> JsonView {
    JsonView::Object(
        seq![
            ("status"@, JsonView::Str("ok"@)),
            ("state"@, JsonView::Str(state)),
            ("contextId"@, JsonView::Str(package_id)),
            ("digest"@, JsonView::Str(digest)),
            ("totalBytes"@, JsonView::UInt(p.total_bytes)),
            ("items"@, JsonView::Array(p.items@.map_values(|i: (String, u64)| item_json(i)))),
            ("sendable"@, JsonView::Bool(p.sendable)),
            (
                "secretFindings"@,
                JsonView::Array(p.secrets@.map_values(|f: SecretFinding| finding_json(f))),
            ),
            (
                "excludedPaths"@,
                JsonView::Array(p.excluded@.map_values(|e: ExcludedPath| excluded_json(e))),
            ),
        ],
    )
}

fn item_values(list: &Vec<(String, u64)>) -> (r: Vec<Json>)
    ensures
        items_view(r@) == list@.map_values(|i: (String, u64)| item_json(i)),
{
    let mut out = items();
    let mut k: usize = 0;
    while k < list.len()
        invariant
            k <= list.len(),
            items_view(out@) == list@.take(k as int).map_values(|i: (String, u64)| item_json(i)),
        decreases list.len() - k,
    {
        let mut m = members();
        push_member(&mut m, "kind", text(list[k].0.as_str()));
        push_member(&mut m, "bytes", Json::UInt(list[k].1));
        assert(members_view(m@) =~= match item_json(list@[k as int]) {
            JsonView::Object(p) => p,
            _ => Seq::empty(),
        });
        push_item(&mut out, object(m));
        assert(items_view(out@) =~= list@.take(k + 1).map_values(|i: (String, u64)| item_json(i)));
        k = k + 1;
    }
    assert(list@.take(k as int) =~= list@);
    out
}

fn finding_values(list: &Vec<SecretFinding>) -> (r: Vec<Json>)
    ensures
        items_view(r@) == list@.map_values(|f: SecretFinding| finding_json(f)),
{
    let mut out = items();
    let mut k: usize = 0;
    while k < list.len()
        invariant
            k <= list.len(),
            items_view(out@) == list@.take(k as int).map_values(|f: SecretFinding| finding_json(f)),
        decreases list.len() - k,
    {
        let f = &list[k];
        let mut m = members();
        push_member(&mut m, "item", Json::UInt(f.item_index));
        push_member(&mut m, "rule", text(f.rule.as_str()));
        push_member(&mut m, "detail", text(f.detail.as_str()));
        assert(members_view(m@) =~= match finding_json(*f) {
            JsonView::Object(p) => p,
            _ => Seq::empty(),
        });
        push_item(&mut out, object(m));
        assert(items_view(out@) =~= list@.take(k + 1).map_values(
            |f: SecretFinding| finding_json(f),
        ));
        k = k + 1;
    }
    assert(list@.take(k as int) =~= list@);
    out
}

fn excluded_values(list: &Vec<ExcludedPath>) -> (r: Vec<Json>)
    ensures
        items_view(r@) == list@.map_values(|e: ExcludedPath| excluded_json(e)),
{
    let mut out = items();
    let mut k: usize = 0;
    while k < list.len()
        invariant
            k <= list.len(),
            items_view(out@) == list@.take(k as int).map_values(|e: ExcludedPath| excluded_json(e)),
        decreases list.len() - k,
    {
        let e = &list[k];
        let mut m = members();
        push_member(&mut m, "item", Json::UInt(e.item_index));
        push_member(&mut m, "path", text(e.path.as_str()));
        push_member(&mut m, "reason", text(e.reason.as_str()));
        assert(members_view(m@) =~= match excluded_json(*e) {
            JsonView::Object(p) => p,
            _ => Seq::empty(),
        });
        push_item(&mut out, object(m));
        assert(items_view(out@) =~= list@.take(k + 1).map_values(
            |e: ExcludedPath| excluded_json(e),
        ));
        k = k + 1;
    }
    assert(list@.take(k as int) =~= list@);
    out
}

/// The preview report: sizes, findings and exclusions, with the state the
/// package is in (`draft` or `preview`).
pub fn context_preview_value(package_id: &str, digest: &str, preview: &ContextPreview, state: &str) -> (r:
    Json)
    ensures
        jview(r) == preview_json(package_id@, digest@, *preview, state@),
{
    let mut m = members();
    push_member(&mut m, "status", text("ok"));
    push_member(&mut m, "state", text(state));
    push_member(&mut m, "contextId", text(package_id));
    push_member(&mut m, "digest", text(digest));
    push_member(&mut m, "totalBytes", Json::UInt(preview.total_bytes));
    push_member(&mut m, "items", array(item_values(&preview.items)));
    push_member(&mut m, "sendable", Json::Bool(preview.sendable));
    push_member(&mut m, "secretFindings", array(finding_values(&preview.secrets)));
    push_member(&mut m, "excludedPaths", array(excluded_values(&preview.excluded)));
    assert(members_view(m@) =~= match preview_json(package_id@, digest@, *preview, state@) {
        JsonView::Object(p) => p,
        _ => Seq::empty(),
    });
    object(m)
}

/// Why a package cannot be sent.
pub enum SendBlocker {
    /// It has suspected secrets, this many.
    Secrets(u64),
    /// It names a path it may not carry: the first one.
    Excluded(String),
}

/// What stops a send: secret findings first, then the first excluded path.
pub open spec fn blocker_of(p: ContextPreview) -> Option<Result<u64, Seq<char>>> {
    if p.secrets@.len() > 0 {
        Some(Ok(p.secrets@.len() as u64))
    } else if p.excluded@.len() > 0 {
        Some(Err(p.excluded@[0].path@))
    } else {
        None
    }
}

/// Whether `hrc context send` must refuse the package, and why.
pub fn send_blocker(preview: &ContextPreview) -> (r: Option<SendBlocker>)
    ensures
        match (r, blocker_of(*preview)) {
            (None, None) => true,
            (Some(SendBlocker::Secrets(n)), Some(Ok(m))) => n == m,
            (Some(SendBlocker::Excluded(p)), Some(Err(q))) => p@ == q,
            _ => false,
        },
{
    if preview.secrets.len() > 0 {
        Some(SendBlocker::Secrets(preview.secrets.len() as u64))
    } else if preview.excluded.len() > 0 {
        Some(SendBlocker::Excluded(preview.excluded[0].path.clone()))
    } else {
        None
    }
}

/// A package is sent only when nothing blocks it, and nothing blocks it
/// exactly when it has no suspected secret and names no excluded path.
pub proof fn law_only_clean_packages_are_sent(p: ContextPreview)
    ensures
        blocker_of(p) is None <==> (p.secrets@.len() == 0 && p.excluded@.len() == 0),
        p.secrets@.len() > 0 ==> blocker_of(p) == Some(Ok::<u64, Seq<char>>(p.secrets@.len() as u64)),
{
}

/// What `hrc context send` reports: the report of the note that carried
/// the package, with the package and its digest added.
pub open spec fn context_sent_json(
    message_id: Seq<char>,
    thread_id: Seq<char>,
    published: bool,
    package_id: Seq<char>,
    digest: Seq<char>,
) -> JsonView {
    match crate::compose::sent_json(message_id, thread_id, "note"@, published) {
        JsonView::Object(p) => JsonView::Object(
            p.push(("contextId"@, JsonView::Str(package_id))).push(
                ("contextDigest"@, JsonView::Str(digest)),
            ),
        ),
        other => other,
    }
}

/// The report of `hrc context send`.
pub fn context_sent_report(
    message_id: &str,
    thread_id: &str,
    published: bool,
    package_id: &str,
    digest: &str,
) -> (r: Json)
    ensures
        jview(r) == context_sent_json(message_id@, thread_id@, published, package_id@, digest@),
{
    let mut m = members();
    push_member(&mut m, "status", text("ok"));
    push_member(&mut m, "messageId", text(message_id));
    push_member(&mut m, "threadId", text(thread_id));
    push_member(&mut m, "kind", text("note"));
    push_member(&mut m, "published", Json::Bool(published));
    push_member(&mut m, "deferred", Json::Bool(!published));
    push_member(&mut m, "contextId", text(package_id));
    push_member(&mut m, "contextDigest", text(digest));
    assert(members_view(m@) =~= match context_sent_json(
        message_id@,
        thread_id@,
        published,
        package_id@,
        digest@,
    ) {
        JsonView::Object(p) => p,
        _ => Seq::empty(),
    });
    object(m)
}

} // verus!
