//! Reading answers from the daemon's trusted interface.
//!
//! A trusted answer is believed only as far as it is well formed: an error
//! response, a missing field or a summary that disagrees with the content
//! fails the command rather than becoming an empty, apparently harmless
//! screen.
use vstd::prelude::*;

use crate::decimal::{decimal, push_decimal_u64};
use crate::error::CliError;
use crate::json::{at, get, get_str, get_u64, str_at, str_of, u64_of, Json};
use crate::text::{equals_str, extend_str, string_of};

verus! {

broadcast use vstd::string::group_string_axioms;

/// Whether `e` is the refusal of a malformed trusted answer for `reason`.
pub open spec fn is_malformed(e: CliError, reason: Seq<char>) -> bool {
    e matches CliError::Ipc(m) && m@ == reason
}

/// The refusal of a trusted answer that did not succeed, or did not say
/// which method it answers; `None` when it is a success for `method`.
pub open spec fn trusted_failure(response: Json, method: Seq<char>) -> Option<Seq<char>> {
    if str_of(at(response, "status"@)) != Some("ok"@) {
        let code = match str_at(response, "code"@) {
            Some(c) => c,
            None => "unknown_error"@,
        };
        let message = match str_at(response, "message"@) {
            Some(m) => m,
            None => "the daemon did not explain the failure"@,
        };
        Some("trusted `"@ + method + "` failed with `"@ + code + "`: "@ + message)
    } else if str_at(response, "method"@) != Some(method) {
        Some("trusted response did not identify `"@ + method + "`"@)
    } else {
        None
    }
}

/// Refuses a trusted answer that is not a success for `method`.
pub fn require_trusted_success(response: &Json, method: &str) -> (r: Result<(), CliError>)
    ensures
        match trusted_failure(*response, method@) {
            None => r is Ok,
            Some(reason) => r matches Err(e) && is_malformed(e, reason),
        },
{
    let status_ok = match get_str(response, "status") {
        Some(s) => {
            let sc = crate::text::chars_of(s.as_str());
            equals_str(&sc, "ok")
        },
        None => false,
    };
    proof {
        reveal_strlit("ok");
    }
    if !status_ok {
        let mut reason: Vec<char> = Vec::new();
        extend_str(&mut reason, "trusted `");
        extend_str(&mut reason, method);
        extend_str(&mut reason, "` failed with `");
        match get_str(response, "code") {
            Some(c) => extend_str(&mut reason, c.as_str()),
            None => extend_str(&mut reason, "unknown_error"),
        }
        extend_str(&mut reason, "`: ");
        match get_str(response, "message") {
            Some(m) => extend_str(&mut reason, m.as_str()),
            None => extend_str(&mut reason, "the daemon did not explain the failure"),
        }
        proof {
            let code = match str_at(*response, "code"@) {
                Some(c) => c,
                None => "unknown_error"@,
            };
            let message = match str_at(*response, "message"@) {
                Some(m) => m,
                None => "the daemon did not explain the failure"@,
            };
            assert(reason@ =~= "trusted `"@ + method@ + "` failed with `"@ + code + "`: "@
                + message);
        }
        return Err(CliError::Ipc(string_of(reason.as_slice())));
    }
    let names_method = match get_str(response, "method") {
        Some(m) => {
            let mc = crate::text::chars_of(m.as_str());
            equals_str(&mc, method)
        },
        None => false,
    };
    if !names_method {
        let mut reason: Vec<char> = Vec::new();
        extend_str(&mut reason, "trusted response did not identify `");
        extend_str(&mut reason, method);
        extend_str(&mut reason, "`");
        assert(reason@ =~= "trusted response did not identify `"@ + method@ + "`"@);
        return Err(CliError::Ipc(string_of(reason.as_slice())));
    }
    Ok(())
}

/// A string member that must be present and not empty.
pub open spec fn required_of(response: Json, key: Seq<char>) -> Option<Seq<char>> {
    match str_at(response, key) {
        Some(s) => if s.len() > 0 {
            Some(s)
        } else {
            None
        },
        None => None,
    }
}

/// A string member that must be present and not empty.
pub fn required_string(response: &Json, key: &str) -> (r: Result<String, CliError>)
    ensures
        match required_of(*response, key@) {
            Some(s) => r matches Ok(v) && v@ == s,
            None => r matches Err(e) && is_malformed(e, omitted(key@)),
        },
{
    match get_str(response, key) {
        Some(s) => {
            if !s.as_str().is_empty() {
                return Ok(s.clone());
            }
        },
        None => {},
    }
    let mut reason: Vec<char> = Vec::new();
    extend_str(&mut reason, "trusted preview omitted `");
    extend_str(&mut reason, key);
    extend_str(&mut reason, "`");
    assert(reason@ =~= omitted(key@));
    Err(CliError::Ipc(string_of(reason.as_slice())))
}

/// An item of a preview summary: either the pair `[kind, bytes]` or an
/// object with `kind` and `bytes`.
pub open spec fn preview_item_of(v: Json) -> Option<(Seq<char>, u64)> {
    let as_pair = match v {
        Json::Array(pair) => if pair.len() == 2 && str_of(pair@[0]) is Some && u64_of(
            pair@[1],
        ) is Some {
            Some((str_of(pair@[0])->0, u64_of(pair@[1])->0))
        } else {
            None
        },
        _ => None,
    };
    match as_pair {
        Some(p) => Some(p),
        None => if str_at(v, "kind"@) is Some && u64_of(at(v, "bytes"@)) is Some {
            Some((str_at(v, "kind"@)->0, u64_of(at(v, "bytes"@))->0))
        } else {
            None
        },
    }
}

/// The reason given for a malformed preview item.
pub open spec fn malformed_item_reason() -> Seq<char> {
    "trusted preview returned a malformed item summary"@
}

/// Reads one item of a trusted preview's summary.
pub fn parse_preview_item(value: &Json) -> (r: Result<(String, u64), CliError>)
    ensures
        match preview_item_of(*value) {
            Some(p) => r matches Ok(q) && q.0@ == p.0 && q.1 == p.1,
            None => r matches Err(e) && is_malformed(e, malformed_item_reason()),
        },
{
    match value {
        Json::Array(pair) => {
            if pair.len() == 2 {
                match (&pair[0], crate::json::as_u64(&pair[1])) {
                    (Json::Str(kind), Some(bytes)) => {
                        return Ok((kind.clone(), bytes));
                    },
                    _ => {},
                }
            }
        },
        _ => {},
    }
    match (get_str(value, "kind"), get_u64(value, "bytes")) {
        (Some(kind), Some(bytes)) => Ok((kind.clone(), bytes)),
        _ => Err(CliError::Ipc(string_of(crate::text::chars_of("trusted preview returned a malformed item summary").as_slice()))),
    }
}

/// The length `str::len` reports for a string: its UTF-8 byte count.
pub open spec fn reported_len(s: Seq<char>) -> u64 {
    (crate::source::byte_len(s) as usize) as u64
}

/// The reason a trusted answer is refused for lacking `key`.
pub open spec fn omitted(key: Seq<char>) -> Seq<char> {
    "trusted preview omitted `"@ + key + "`"@
}

/// What a successful trusted preview carries before its content is checked.
#[derive(Debug)]
pub struct PreviewFields {
    /// The context package the preview answers for.
    pub package_id: String,
    /// The package digest.
    pub digest: String,
    /// The canonical package content a human will see.
    pub content: String,
    /// The authorization a send must present.
    pub authorization: String,
    /// The declared size of the content, in bytes.
    pub total_bytes: u64,
}

/// The fields of a trusted preview as read: package, digest, content,
/// authorization and declared size, or the reason it is refused.
pub open spec fn preview_fields_of(response: Json, expected: Seq<char>) -> Result<
    (Seq<char>, Seq<char>, Seq<char>, Seq<char>, u64),
    Seq<char>,
> {
    if trusted_failure(response, "preview_context"@) is Some {
        Err(trusted_failure(response, "preview_context"@)->0)
    } else if required_of(response, "contextId"@) is None {
        Err(omitted("contextId"@))
    } else if required_of(response, "contextId"@)->0 != expected {
        Err(
            "trusted preview answered for context `"@ + required_of(response, "contextId"@)->0
                + "` instead of `"@ + expected + "`"@,
        )
    } else if required_of(response, "digest"@) is None {
        Err(omitted("digest"@))
    } else if required_of(response, "content"@) is None {
        Err(omitted("content"@))
    } else if required_of(response, "authorization"@) is None {
        Err(omitted("authorization"@))
    } else if u64_of(at(response, "totalBytes"@)) is None {
        Err("trusted preview omitted the canonical package size"@)
    } else {
        let content = required_of(response, "content"@)->0;
        let total = u64_of(at(response, "totalBytes"@))->0;
        if total != reported_len(content) {
            Err(
                "trusted preview declared "@ + decimal(total as int) + " bytes but returned "@
                    + decimal(reported_len(content) as int),
            )
        } else {
            Ok(
                (
                    expected,
                    required_of(response, "digest"@)->0,
                    content,
                    required_of(response, "authorization"@)->0,
                    total,
                ),
            )
        }
    }
}

/// Reads a trusted preview's fields, refusing an error response, a missing
/// or empty field, an answer for another package, and a declared size that
/// is not the content's.
pub fn preview_fields(response: &Json, expected_package_id: &str) -> (r: Result<
    PreviewFields,
    CliError,
>)
    ensures
        match preview_fields_of(*response, expected_package_id@) {
            Ok(f) => r matches Ok(p) && p.package_id@ == f.0 && p.digest@ == f.1 && p.content@
                == f.2 && p.authorization@ == f.3 && p.total_bytes == f.4,
            Err(reason) => r matches Err(e) && is_malformed(e, reason),
        },
{
    match require_trusted_success(response, "preview_context") {
        Ok(()) => {},
        Err(e) => {
            return Err(e);
        },
    }
    let package_id = match required_string(response, "contextId") {
        Ok(p) => p,
        Err(e) => {
            return Err(e);
        },
    };
    let pc = crate::text::chars_of(package_id.as_str());
    if !equals_str(&pc, expected_package_id) {
        let mut reason: Vec<char> = Vec::new();
        extend_str(&mut reason, "trusted preview answered for context `");
        extend_str(&mut reason, package_id.as_str());
        extend_str(&mut reason, "` instead of `");
        extend_str(&mut reason, expected_package_id);
        extend_str(&mut reason, "`");
        assert(reason@ =~= "trusted preview answered for context `"@ + package_id@
            + "` instead of `"@ + expected_package_id@ + "`"@);
        return Err(CliError::Ipc(string_of(reason.as_slice())));
    }
    let digest = match required_string(response, "digest") {
        Ok(d) => d,
        Err(e) => {
            return Err(e);
        },
    };
    let content = match required_string(response, "content") {
        Ok(c) => c,
        Err(e) => {
            return Err(e);
        },
    };
    let authorization = match required_string(response, "authorization") {
        Ok(a) => a,
        Err(e) => {
            return Err(e);
        },
    };
    let total_bytes = match get_u64(response, "totalBytes") {
        Some(t) => t,
        None => {
            return Err(
                CliError::Ipc(
                    string_of(
                        crate::text::chars_of(
                            "trusted preview omitted the canonical package size",
                        ).as_slice(),
                    ),
                ),
            );
        },
    };
    let length = content.as_str().len();
    if total_bytes != length as u64 {
        let mut reason: Vec<char> = Vec::new();
        extend_str(&mut reason, "trusted preview declared ");
        push_decimal_u64(&mut reason, total_bytes);
        extend_str(&mut reason, " bytes but returned ");
        push_decimal_u64(&mut reason, length as u64);
        assert(reason@ =~= "trusted preview declared "@ + decimal(total_bytes as int)
            + " bytes but returned "@ + decimal(reported_len(content@) as int));
        return Err(CliError::Ipc(string_of(reason.as_slice())));
    }
    Ok(PreviewFields { package_id, digest, content, authorization, total_bytes })
}

/// A summary's items by kind and size.
pub open spec fn pairs_view(v: Seq<(String, u64)>) -> Seq<(Seq<char>, u64)> {
    v.map_values(|p: (String, u64)| (p.0@, p.1))
}

/// The item summary of a trusted preview, or the reason it is refused.
pub open spec fn preview_items_of(response: Json) -> Result<Seq<(Seq<char>, u64)>, Seq<char>> {
    match at(response, "items"@) {
        Json::Array(items) => if forall|i: int|
            0 <= i < items.len() ==> (#[trigger] preview_item_of(items@[i])) is Some {
            Ok(Seq::new(items.len() as nat, |i: int| preview_item_of(items@[i])->0))
        } else {
            Err(malformed_item_reason())
        },
        _ => Err("trusted preview omitted its item list"@),
    }
}

/// Reads the item summary of a trusted preview.
pub fn preview_items(response: &Json) -> (r: Result<Vec<(String, u64)>, CliError>)
    ensures
        match preview_items_of(*response) {
            Ok(v) => r matches Ok(items) && pairs_view(items@) == v,
            Err(reason) => r matches Err(e) && is_malformed(e, reason),
        },
{
    let list = match get(response, "items") {
        Some(Json::Array(list)) => list,
        _ => {
            return Err(
                CliError::Ipc(
                    string_of(
                        crate::text::chars_of("trusted preview omitted its item list").as_slice(),
                    ),
                ),
            );
        },
    };
    let mut out: Vec<(String, u64)> = Vec::new();
    let mut k: usize = 0;
    while k < list.len()
        invariant
            k <= list.len(),
            at(*response, "items"@) == Json::Array(*list),
            pairs_view(out@) == Seq::new(k as nat, |i: int| preview_item_of(list@[i])->0),
            forall|i: int| 0 <= i < k ==> (#[trigger] preview_item_of(list@[i])) is Some,
        decreases list.len() - k,
    {
        match parse_preview_item(&list[k]) {
            Ok(item) => {
                let ghost before = pairs_view(out@);
                let ghost p = preview_item_of(list@[k as int]);
                assert(p is Some);
                assert((item.0@, item.1) == p->0);
                out.push(item);
                assert(pairs_view(out@) =~= before.push(p->0));
                assert(pairs_view(out@) =~= Seq::new(
                    (k + 1) as nat,
                    |i: int| preview_item_of(list@[i])->0,
                ));
            },
            Err(e) => {
                return Err(e);
            },
        }
        k = k + 1;
    }
    Ok(out)
}

/// Whether two item summaries are the same, item by item.
fn same_items(a: &Vec<(String, u64)>, b: &Vec<(String, u64)>) -> (r: bool)
    ensures
        r == (pairs_view(a@) == pairs_view(b@)),
{
    if a.len() != b.len() {
        assert(pairs_view(a@).len() != pairs_view(b@).len());
        return false;
    }
    let mut k: usize = 0;
    while k < a.len()
        invariant
            k <= a.len() == b.len(),
            forall|i: int| 0 <= i < k ==> pairs_view(a@)[i] == pairs_view(b@)[i],
        decreases a.len() - k,
    {
        let ac = crate::text::chars_of(a[k].0.as_str());
        if !equals_str(&ac, b[k].0.as_str()) || a[k].1 != b[k].1 {
            assert(pairs_view(a@)[k as int] != pairs_view(b@)[k as int]);
            return false;
        }
        k = k + 1;
    }
    assert(pairs_view(a@) =~= pairs_view(b@));
    true
}

/// Whether a preview's summary agrees with what checking its content found,
/// or the reason it is refused.
pub open spec fn preview_agreement_of(
    items: Seq<(Seq<char>, u64)>,
    total_bytes: u64,
    checked_items: Seq<(Seq<char>, u64)>,
    checked_total: u64,
    sendable: bool,
) -> Option<Seq<char>> {
    if !sendable {
        Some("trusted preview returned content that failed local disclosure checks"@)
    } else if items != checked_items || total_bytes != checked_total {
        Some("trusted preview summary did not match its canonical content"@)
    } else {
        None
    }
}

/// Refuses a preview whose content failed the local disclosure checks, or
/// whose summary differs from the one its content yields.
pub fn preview_agreement(
    items: &Vec<(String, u64)>,
    total_bytes: u64,
    checked_items: &Vec<(String, u64)>,
    checked_total: u64,
    sendable: bool,
) -> (r: Result<(), CliError>)
    ensures
        match preview_agreement_of(
            pairs_view(items@),
            total_bytes,
            pairs_view(checked_items@),
            checked_total,
            sendable,
        ) {
            None => r is Ok,
            Some(reason) => r matches Err(e) && is_malformed(e, reason),
        },
{
    if !sendable {
        return Err(
            CliError::Ipc(
                string_of(
                    crate::text::chars_of(
                        "trusted preview returned content that failed local disclosure checks",
                    ).as_slice(),
                ),
            ),
        );
    }
    if !same_items(items, checked_items) || total_bytes != checked_total {
        return Err(
            CliError::Ipc(
                string_of(
                    crate::text::chars_of(
                        "trusted preview summary did not match its canonical content",
                    ).as_slice(),
                ),
            ),
        );
    }
    Ok(())
}

} // verus!
