//! The local audit log: what `hrc audit` shows, how the daemon writes an
//! entry as one line, and what the log says was already done.
use vstd::prelude::*;

use crate::json::{
    array, items, items_view, jview, members, members_view, object, push_item, push_member, text,
    Json, JsonView,
};
use crate::inbox::opt_json;
use crate::text::{chars_of, equals_str, extend_str, string_of};

verus! {

broadcast use vstd::string::group_string_axioms;

/// One entry of the local audit log.
pub struct AuditEntry {
    /// When it happened.
    pub occurred_at: String,
    /// What happened.
    pub action: String,
    /// The channel it concerns, if any.
    pub channel_id: Option<String>,
    /// The message it concerns, if any.
    pub message_id: Option<String>,
    /// Anything more it records.
    pub detail: Option<String>,
}

fn opt_value(o: &Option<String>) -> (r: Json)
    ensures
        jview(r) == opt_json(*o),
{
    match o {
        Some(s) => text(s.as_str()),
        None => Json::Null,
    }
}

/// How an audit entry is listed.
pub open spec fn audit_entry_json(e: AuditEntry) -> JsonView {
    JsonView::Object(
        seq![
            ("occurredAt"@, JsonView::Str(e.occurred_at@)),
            ("action"@, JsonView::Str(e.action@)),
            ("channelId"@, opt_json(e.channel_id)),
            ("messageId"@, opt_json(e.message_id)),
            ("detail"@, opt_json(e.detail)),
        ],
    )
}

/// The report of `hrc audit`, in the order the log gave.
pub open spec fn audit_json(entries: Seq<AuditEntry>) -> JsonView {
    JsonView::Object(
        seq![
            ("status"@, JsonView::Str("ok"@)),
            ("entries"@, JsonView::Array(entries.map_values(|e: AuditEntry| audit_entry_json(e)))),
        ],
    )
}

/// What `hrc audit` reports.
pub fn audit_report(entries: &Vec<AuditEntry>) -> (r: Json)
    ensures
        jview(r) == audit_json(entries@),
{
    let mut list = items();
    let mut k: usize = 0;
    while k < entries.len()
        invariant
            k <= entries.len(),
            items_view(list@) == entries@.take(k as int).map_values(
                |e: AuditEntry| audit_entry_json(e),
            ),
        decreases entries.len() - k,
    {
        let e = &entries[k];
        let mut m = members();
        push_member(&mut m, "occurredAt", text(e.occurred_at.as_str()));
        push_member(&mut m, "action", text(e.action.as_str()));
        push_member(&mut m, "channelId", opt_value(&e.channel_id));
        push_member(&mut m, "messageId", opt_value(&e.message_id));
        push_member(&mut m, "detail", opt_value(&e.detail));
        assert(members_view(m@) =~= match audit_entry_json(*e) {
            JsonView::Object(p) => p,
            _ => Seq::empty(),
        });
        let ghost before = items_view(list@);
        push_item(&mut list, object(m));
        assert(entries@.take(k + 1).map_values(|x: AuditEntry| audit_entry_json(x)) =~= before.push(
            audit_entry_json(*e),
        ));
        k = k + 1;
    }
    assert(entries@.take(entries.len() as int) =~= entries@);
    let mut top = members();
    push_member(&mut top, "status", text("ok"));
    push_member(&mut top, "entries", array(list));
    assert(members_view(top@) =~= match audit_json(entries@) {
        JsonView::Object(p) => p,
        _ => Seq::empty(),
    });
    object(top)
}

/// ` <label>=<value>` when there is a value, nothing otherwise.
pub open spec fn field_text(label: Seq<char>, value: Option<String>) -> Seq<char> {
    match value {
        Some(v) => " "@ + label + "="@ + v@,
        None => Seq::empty(),
    }
}

/// An audit entry as one line: when, what, then the channel, message and
/// detail it names.
pub open spec fn audit_line(e: AuditEntry) -> Seq<char> {
    e.occurred_at@ + " "@ + e.action@ + field_text("channel"@, e.channel_id) + field_text(
        "message"@,
        e.message_id,
    ) + field_text("detail"@, e.detail)
}

fn push_field(out: &mut Vec<char>, label: &str, value: &Option<String>)
    ensures
        final(out)@ == old(out)@ + field_text(label@, *value),
{
    match value {
        Some(v) => {
            let ghost before = out@;
            extend_str(out, " ");
            extend_str(out, label);
            extend_str(out, "=");
            extend_str(out, v.as_str());
            assert(out@ =~= before + field_text(label@, *value));
        },
        None => {
            assert(out@ =~= old(out)@ + field_text(label@, *value));
        },
    }
}

/// An audit entry as the daemon reports it, one line each.
pub fn format_audit_entry(entry: &AuditEntry) -> (r: String)
    ensures
        r@ == audit_line(*entry),
{
    let mut out: Vec<char> = Vec::new();
    extend_str(&mut out, entry.occurred_at.as_str());
    extend_str(&mut out, " ");
    extend_str(&mut out, entry.action.as_str());
    push_field(&mut out, "channel", &entry.channel_id);
    push_field(&mut out, "message", &entry.message_id);
    push_field(&mut out, "detail", &entry.detail);
    assert(out@ =~= audit_line(*entry));
    string_of(out.as_slice())
}

/// Whether an entry records a delivery receipt queued in `channel`.
pub open spec fn records_queued_receipt(e: AuditEntry, channel: Seq<char>) -> bool {
    &&& e.channel_id matches Some(c) && c@ == channel
    &&& e.action@ == "delivery_receipt_queued"@
    &&& e.message_id is Some
}

/// The messages of `channel` a delivery receipt was already queued for,
/// in log order.
pub open spec fn queued_receipts(entries: Seq<AuditEntry>, channel: Seq<char>) -> Seq<Seq<char>>
    decreases entries.len(),
{
    if entries.len() == 0 {
        Seq::empty()
    } else {
        let rest = queued_receipts(entries.drop_last(), channel);
        if records_queued_receipt(entries.last(), channel) {
            rest.push(entries.last().message_id->0@)
        } else {
            rest
        }
    }
}

/// The messages of `channel` a delivery receipt was already queued for, as
/// the log records them.
pub fn reported_receipts(entries: &Vec<AuditEntry>, channel_id: &str) -> (r: Vec<String>)
    ensures
        r@.map_values(|s: String| s@) == queued_receipts(entries@, channel_id@),
{
    let channel = chars_of(channel_id);
    let mut out: Vec<String> = Vec::new();
    let mut k: usize = 0;
    while k < entries.len()
        invariant
            k <= entries.len(),
            channel@ == channel_id@,
            out@.map_values(|s: String| s@) == queued_receipts(entries@.take(k as int), channel_id@),
        decreases entries.len() - k,
    {
        let e = &entries[k];
        assert(entries@.take(k + 1).drop_last() =~= entries@.take(k as int));
        assert(entries@.take(k + 1).last() == *e);
        let in_channel = match &e.channel_id {
            Some(c) => equals_str(&channel, c.as_str()),
            None => false,
        };
        let action = chars_of(e.action.as_str());
        if in_channel && equals_str(&action, "delivery_receipt_queued") {
            match &e.message_id {
                Some(m) => {
                    let ghost before = out@.map_values(|s: String| s@);
                    out.push(m.clone());
                    assert(out@.map_values(|s: String| s@) =~= before.push(m@));
                },
                None => {},
            }
        }
        k = k + 1;
    }
    assert(entries@.take(entries.len() as int) =~= entries@);
    out
}

/// The entry recorded when a message lapses before anyone decided: nobody
/// chose it, and it is still recorded, so "why did this never reach me" has
/// an answer.
pub fn expiry_audit_entry(message_id: &str, now: &str) -> (r: AuditEntry)
    ensures
        r.occurred_at@ == now@,
        r.action@ == "message_expired"@,
        r.channel_id is None,
        opt_chars(r.message_id) == Some(message_id@),
        opt_chars(r.detail) == Some("the message lapsed before a local decision was made"@),
{
    AuditEntry {
        occurred_at: now.to_owned(),
        action: "message_expired".to_owned(),
        channel_id: None,
        message_id: Some(message_id.to_owned()),
        detail: Some("the message lapsed before a local decision was made".to_owned()),
    }
}

/// An optional string's characters.
pub open spec fn opt_chars(o: Option<String>) -> Option<Seq<char>> {
    match o {
        Some(s) => Some(s@),
        None => None,
    }
}

} // verus!
