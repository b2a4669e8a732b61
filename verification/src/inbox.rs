//! Reading what arrived: the inbox, one message, a thread.
//!
//! The agent-safe surface shows metadata. A body appears only once a human
//! released it through the trusted interface; until then the inbox and the
//! thread say why it is absent instead.
use vstd::prelude::*;

use crate::json::{
    array, items, items_view, jview, members, members_view, object, optional_text, push_item,
    push_member, string, text, Json, JsonView,
};
use crate::text::{chars_of, equals_str, extend_str, string_of};

verus! {

broadcast use vstd::string::group_string_axioms;

/// One inbound message as recorded locally.
pub struct InboxEntry {
    /// The message identifier.
    pub message_id: String,
    /// Who sent it.
    pub sender_principal: String,
    /// The device that sent it.
    pub sender_device: String,
    /// Its kind.
    pub kind: String,
    /// The thread it belongs to, when it named one.
    pub thread_id: Option<String>,
    /// The message it answers, if any.
    pub in_reply_to: Option<String>,
    /// Its position in local arrival order.
    pub arrival_sequence: u64,
    /// When it lapses, if it does.
    pub expires_at: Option<String>,
    /// What happened to it locally.
    pub disposition: String,
}

/// An optional string as JSON: the string, or `null`.
pub open spec fn opt_json(o: Option<String>) -> JsonView {
    match o {
        Some(s) => JsonView::Str(s@),
        None => JsonView::Null,
    }
}

fn opt_value(o: &Option<String>) -> (r: Json)
    ensures
        jview(r) == opt_json(*o),
{
    match o {
        Some(s) => string(s.clone()),
        None => Json::Null,
    }
}

/// How an inbound message is listed.
pub open spec fn entry_json(e: InboxEntry) -> JsonView {
    JsonView::Object(
        seq![
            ("messageId"@, JsonView::Str(e.message_id@)),
            ("sender"@, JsonView::Str(e.sender_principal@)),
            ("kind"@, JsonView::Str(e.kind@)),
            ("threadId"@, opt_json(e.thread_id)),
            ("inReplyTo"@, opt_json(e.in_reply_to)),
            ("arrival"@, JsonView::UInt(e.arrival_sequence)),
            ("expiresAt"@, opt_json(e.expires_at)),
            ("disposition"@, JsonView::Str(e.disposition@)),
        ],
    )
}

/// The entries `hrc inbox` lists: all of them, or with `--pending` only
/// those still awaiting a decision, in the order recorded.
pub open spec fn listed(entries: Seq<InboxEntry>, pending_only: bool) -> Seq<InboxEntry> {
    if pending_only {
        entries.filter(|e: InboxEntry| is_pending(e))
    } else {
        entries
    }
}

/// The report of `hrc inbox`.
pub open spec fn inbox_json(channel_id: Seq<char>, entries: Seq<InboxEntry>, pending_only: bool) -> JsonView {
    JsonView::Object(
        seq![
            ("status"@, JsonView::Str("ok"@)),
            ("channelId"@, JsonView::Str(channel_id)),
            (
                "entries"@,
                JsonView::Array(
                    listed(entries, pending_only).map_values(|e: InboxEntry| entry_json(e)),
                ),
            ),
        ],
    )
}

/// Whether an inbound message still awaits a decision.
pub open spec fn is_pending(e: InboxEntry) -> bool {
    e.disposition@ == "quarantined"@
}

proof fn lemma_listed_push(s: Seq<InboxEntry>, e: InboxEntry, pending_only: bool)
    ensures
        listed(s.push(e), pending_only) == if !pending_only || is_pending(e) {
            listed(s, pending_only).push(e)
        } else {
            listed(s, pending_only)
        },
{
    reveal(Seq::filter);
    assert(s.push(e).drop_last() =~= s);
    assert(s.push(e).last() == e);
}

fn entry_value(e: &InboxEntry) -> (r: Json)
    ensures
        jview(r) == entry_json(*e),
{
    let mut m = members();
    push_member(&mut m, "messageId", text(e.message_id.as_str()));
    push_member(&mut m, "sender", text(e.sender_principal.as_str()));
    push_member(&mut m, "kind", text(e.kind.as_str()));
    push_member(&mut m, "threadId", opt_value(&e.thread_id));
    push_member(&mut m, "inReplyTo", opt_value(&e.in_reply_to));
    push_member(&mut m, "arrival", Json::UInt(e.arrival_sequence));
    push_member(&mut m, "expiresAt", opt_value(&e.expires_at));
    push_member(&mut m, "disposition", text(e.disposition.as_str()));
    assert(members_view(m@) =~= match entry_json(*e) {
        JsonView::Object(p) => p,
        _ => Seq::empty(),
    });
    object(m)
}

/// What `hrc inbox` reports: the closed metadata set, never a body.
pub fn inbox_report(channel_id: &str, entries: &Vec<InboxEntry>, pending_only: bool) -> (r: Json)
    ensures
        jview(r) == inbox_json(channel_id@, entries@, pending_only),
{
    let quarantined = chars_of("quarantined");
    let mut list = items();
    let mut k: usize = 0;
    while k < entries.len()
        invariant
            k <= entries.len(),
            quarantined@ == "quarantined"@,
            items_view(list@) == listed(entries@.take(k as int), pending_only).map_values(
                |e: InboxEntry| entry_json(e),
            ),
        decreases entries.len() - k,
    {
        let e = &entries[k];
        let ghost before = items_view(list@);
        proof {
            assert(entries@.take(k + 1) =~= entries@.take(k as int).push(*e));
            lemma_listed_push(entries@.take(k as int), *e, pending_only);
        }
        if !pending_only || equals_str(&quarantined, e.disposition.as_str()) {
            push_item(&mut list, entry_value(e));
            assert(items_view(list@) =~= listed(entries@.take(k + 1), pending_only).map_values(
                |x: InboxEntry| entry_json(x),
            ));
        }
        k = k + 1;
    }
    assert(entries@.take(entries.len() as int) =~= entries@);
    let mut top = members();
    push_member(&mut top, "status", text("ok"));
    push_member(&mut top, "channelId", text(channel_id));
    push_member(&mut top, "entries", array(list));
    assert(members_view(top@) =~= match inbox_json(channel_id@, entries@, pending_only) {
        JsonView::Object(p) => p,
        _ => Seq::empty(),
    });
    object(top)
}

/// With `--pending`, the inbox lists exactly the messages still awaiting a
/// decision: nothing decided appears, and nothing undecided is left out.
pub proof fn law_pending_inbox_lists_exactly_the_undecided(entries: Seq<InboxEntry>)
    ensures
        forall|i: int|
            0 <= i < listed(entries, true).len() ==> is_pending(#[trigger] listed(entries, true)[i]),
        forall|i: int|
            0 <= i < entries.len() && is_pending(entries[i]) ==> #[trigger] listed(
                entries,
                true,
            ).contains(entries[i]),
{
    let pred = |e: InboxEntry| is_pending(e);
    assert forall|i: int| 0 <= i < listed(entries, true).len() implies is_pending(
        #[trigger] listed(entries, true)[i],
    ) by {
        entries.lemma_filter_pred(pred, i);
    }
    assert forall|i: int| 0 <= i < entries.len() && is_pending(entries[i]) implies #[trigger] listed(
        entries,
        true,
    ).contains(entries[i]) by {
        entries.lemma_filter_contains(pred, i);
    }
}

/// `hrc inbox --pending` lists exactly the messages whose disposition is
/// `quarantined`, in the order they are recorded: nothing decided (approved,
/// declined, expired) is listed, every quarantined message is, and without
/// `--pending` every message is.
pub proof fn law_pending_means_quarantined(entries: Seq<InboxEntry>)
    ensures
        forall|i: int|
            0 <= i < listed(entries, true).len() ==> (#[trigger] listed(entries, true)[i]).disposition@
                == "quarantined"@,
        forall|i: int|
            0 <= i < entries.len() && entries[i].disposition@ == "quarantined"@
                ==> #[trigger] listed(entries, true).contains(entries[i]),
        forall|e: InboxEntry|
            #[trigger] listed(entries, true).contains(e) ==> entries.contains(e),
        listed(entries, false) == entries,
{
    law_pending_inbox_lists_exactly_the_undecided(entries);
    let pred = |e: InboxEntry| is_pending(e);
    assert forall|e: InboxEntry| #[trigger] listed(entries, true).contains(e) implies entries.contains(e) by {
        let k = choose|k: int| 0 <= k < listed(entries, true).len() && listed(entries, true)[k] == e;
        entries.lemma_filter_contains_rev(pred, e);
    }
}

/// Whether a JSON object has a member named `key`.
pub open spec fn has_member(v: JsonView, key: Seq<char>) -> bool {
    match v {
        JsonView::Object(p) => exists|j: int| 0 <= j < p.len() && (#[trigger] p[j]).0 == key,
        _ => false,
    }
}

/// The agent-safe inbox never carries a body: no entry it lists has a
/// `body` member, whatever the entries and whichever filter is asked for.
pub proof fn law_the_inbox_never_lists_a_body(
    channel_id: Seq<char>,
    entries: Seq<InboxEntry>,
    pending_only: bool,
)
    ensures
        !has_member(inbox_json(channel_id, entries, pending_only), "body"@),
        forall|i: int|
            0 <= i < listed(entries, pending_only).len() ==> !has_member(
                #[trigger] entry_json(listed(entries, pending_only)[i]),
                "body"@,
            ),
{
    reveal_strlit("body");
    reveal_strlit("messageId");
    reveal_strlit("sender");
    reveal_strlit("kind");
    reveal_strlit("threadId");
    reveal_strlit("inReplyTo");
    reveal_strlit("arrival");
    reveal_strlit("expiresAt");
    reveal_strlit("disposition");
    reveal_strlit("status");
    reveal_strlit("channelId");
    reveal_strlit("entries");
    let shown = listed(entries, pending_only);
    assert forall|i: int| 0 <= i < shown.len() implies !has_member(
        #[trigger] entry_json(shown[i]),
        "body"@,
    ) by {
        if let JsonView::Object(p) = entry_json(shown[i]) {
            assert forall|j: int| 0 <= j < p.len() implies (#[trigger] p[j]).0 != "body"@ by {
                assert(p[j].0.len() != 4 || p[j].0[0] != 'b');
            }
        }
    }
    if let JsonView::Object(p) = inbox_json(channel_id, entries, pending_only) {
        assert forall|j: int| 0 <= j < p.len() implies (#[trigger] p[j]).0 != "body"@ by {
            assert(p[j].0.len() != 4);
        }
    }
}

/// Why an inbound body is absent, by disposition.
pub open spec fn withheld_reason(disposition: Seq<char>) -> Option<Seq<char>> {
    if disposition == "quarantined"@ {
        Some("awaiting a decision in the trusted interface"@)
    } else if disposition == "declined"@ {
        Some("declined"@)
    } else if disposition == "expired"@ {
        Some("expired before a decision"@)
    } else {
        None
    }
}

fn withheld(disposition: &str) -> (r: Option<&'static str>)
    ensures
        opt_str_view(r) == withheld_reason(disposition@),
{
    let d = chars_of(disposition);
    if equals_str(&d, "quarantined") {
        Some("awaiting a decision in the trusted interface")
    } else if equals_str(&d, "declined") {
        Some("declined")
    } else if equals_str(&d, "expired") {
        Some("expired before a decision")
    } else {
        None
    }
}

/// The characters of an optional string slice.
pub open spec fn opt_str_view(o: Option<&str>) -> Option<Seq<char>> {
    match o {
        Some(s) => Some(s@),
        None => None,
    }
}

/// What `hrc show` reports of an inbound message: its metadata, the body
/// only when a human released it, and otherwise why it is withheld.
pub open spec fn show_inbound_json(e: InboxEntry, released: Option<String>) -> JsonView {
    JsonView::Object(
        seq![
            ("status"@, JsonView::Str("ok"@)),
            ("messageId"@, JsonView::Str(e.message_id@)),
            ("direction"@, JsonView::Str("inbound"@)),
            ("sender"@, JsonView::Str(e.sender_principal@)),
            ("kind"@, JsonView::Str(e.kind@)),
            ("threadId"@, opt_json(e.thread_id)),
            ("inReplyTo"@, opt_json(e.in_reply_to)),
            ("arrival"@, JsonView::UInt(e.arrival_sequence)),
            ("expiresAt"@, opt_json(e.expires_at)),
            ("disposition"@, JsonView::Str(e.disposition@)),
            ("body"@, opt_json(released)),
            (
                "bodyWithheld"@,
                match withheld_reason(e.disposition@) {
                    Some(w) => JsonView::Str(w),
                    None => JsonView::Null,
                },
            ),
        ],
    )
}

/// What `hrc show` reports of an inbound message.
pub fn show_inbound_report(entry: &InboxEntry, released: Option<String>) -> (r: Json)
    ensures
        jview(r) == show_inbound_json(*entry, released),
{
    let reason = withheld(entry.disposition.as_str());
    let mut m = members();
    push_member(&mut m, "status", text("ok"));
    push_member(&mut m, "messageId", text(entry.message_id.as_str()));
    push_member(&mut m, "direction", text("inbound"));
    push_member(&mut m, "sender", text(entry.sender_principal.as_str()));
    push_member(&mut m, "kind", text(entry.kind.as_str()));
    push_member(&mut m, "threadId", opt_value(&entry.thread_id));
    push_member(&mut m, "inReplyTo", opt_value(&entry.in_reply_to));
    push_member(&mut m, "arrival", Json::UInt(entry.arrival_sequence));
    push_member(&mut m, "expiresAt", opt_value(&entry.expires_at));
    push_member(&mut m, "disposition", text(entry.disposition.as_str()));
    push_member(&mut m, "body", opt_value(&released));
    push_member(&mut m, "bodyWithheld", optional_text(reason));
    assert(members_view(m@) =~= match show_inbound_json(*entry, released) {
        JsonView::Object(p) => p,
        _ => Seq::empty(),
    });
    object(m)
}

/// A receipt another device published about a message this installation
/// sent.
pub struct ReceiptRecord {
    /// The reporting principal.
    pub reporter_principal: String,
    /// The reporting device.
    pub reporter_device: String,
    /// What happened to the message there.
    pub state: String,
    /// Why it was rejected, when it was.
    pub rejection_code: Option<String>,
    /// When it was reported.
    pub reported_at: String,
}

/// How a receipt is listed.
pub open spec fn receipt_json(r: ReceiptRecord) -> JsonView {
    JsonView::Object(
        seq![
            ("reporter"@, JsonView::Str(r.reporter_principal@)),
            ("device"@, JsonView::Str(r.reporter_device@)),
            ("state"@, JsonView::Str(r.state@)),
            ("rejectionCode"@, opt_json(r.rejection_code)),
            ("reportedAt"@, JsonView::Str(r.reported_at@)),
        ],
    )
}

/// What `hrc show` reports of a message this installation sent: where it
/// got to.
pub open spec fn show_outbound_json(
    message_id: Seq<char>,
    state: Seq<char>,
    receipts: Seq<ReceiptRecord>,
) -> JsonView {
    JsonView::Object(
        seq![
            ("status"@, JsonView::Str("ok"@)),
            ("messageId"@, JsonView::Str(message_id)),
            ("direction"@, JsonView::Str("outbound"@)),
            ("state"@, JsonView::Str(state)),
            ("receipts"@, JsonView::Array(receipts.map_values(|r: ReceiptRecord| receipt_json(r)))),
        ],
    )
}

/// What `hrc show` reports of an outbound message.
pub fn show_outbound_report(message_id: &str, state: &str, receipts: &Vec<ReceiptRecord>) -> (r:
    Json)
    ensures
        jview(r) == show_outbound_json(message_id@, state@, receipts@),
{
    let mut list = items();
    let mut k: usize = 0;
    while k < receipts.len()
        invariant
            k <= receipts.len(),
            items_view(list@) == receipts@.take(k as int).map_values(
                |r: ReceiptRecord| receipt_json(r),
            ),
        decreases receipts.len() - k,
    {
        let rc = &receipts[k];
        let mut m = members();
        push_member(&mut m, "reporter", text(rc.reporter_principal.as_str()));
        push_member(&mut m, "device", text(rc.reporter_device.as_str()));
        push_member(&mut m, "state", text(rc.state.as_str()));
        push_member(&mut m, "rejectionCode", opt_value(&rc.rejection_code));
        push_member(&mut m, "reportedAt", text(rc.reported_at.as_str()));
        assert(members_view(m@) =~= match receipt_json(*rc) {
            JsonView::Object(p) => p,
            _ => Seq::empty(),
        });
        let ghost before = items_view(list@);
        push_item(&mut list, object(m));
        assert(receipts@.take(k + 1).map_values(|r: ReceiptRecord| receipt_json(r)) =~= before.push(
            receipt_json(*rc),
        ));
        k = k + 1;
    }
    assert(receipts@.take(receipts.len() as int) =~= receipts@);
    let mut top = members();
    push_member(&mut top, "status", text("ok"));
    push_member(&mut top, "messageId", text(message_id));
    push_member(&mut top, "direction", text("outbound"));
    push_member(&mut top, "state", text(state));
    push_member(&mut top, "receipts", array(list));
    assert(members_view(top@) =~= match show_outbound_json(message_id@, state@, receipts@) {
        JsonView::Object(p) => p,
        _ => Seq::empty(),
    });
    object(top)
}

/// One message of a thread, as recorded locally.
pub struct ThreadEntry {
    /// The message identifier.
    pub message_id: String,
    /// Who sent it.
    pub sender_principal: String,
    /// Its kind.
    pub kind: String,
    /// Its position in local arrival order.
    pub arrival_sequence: u64,
    /// What happened to it locally.
    pub disposition: String,
}

/// What stands in for a body nobody approved yet.
pub open spec fn redaction() -> Seq<char> {
    "[redacted until approved]"@
}

/// How a thread entry is listed: a pending body is marked redacted, and no
/// entry carries its content.
pub open spec fn thread_entry_json(e: ThreadEntry) -> JsonView {
    JsonView::Object(
        seq![
            ("messageId"@, JsonView::Str(e.message_id@)),
            ("sender"@, JsonView::Str(e.sender_principal@)),
            ("kind"@, JsonView::Str(e.kind@)),
            ("arrival"@, JsonView::UInt(e.arrival_sequence)),
            ("disposition"@, JsonView::Str(e.disposition@)),
            (
                "body"@,
                if e.disposition@ == "quarantined"@ {
                    JsonView::Str(redaction())
                } else {
                    JsonView::Null
                },
            ),
        ],
    )
}

/// The report of `hrc thread`, in local arrival order.
pub open spec fn thread_json(thread_id: Seq<char>, entries: Seq<ThreadEntry>) -> JsonView {
    JsonView::Object(
        seq![
            ("status"@, JsonView::Str("ok"@)),
            ("threadId"@, JsonView::Str(thread_id)),
            ("entries"@, JsonView::Array(entries.map_values(|e: ThreadEntry| thread_entry_json(e)))),
        ],
    )
}

/// What `hrc thread` reports.
pub fn thread_report(thread_id: &str, entries: &Vec<ThreadEntry>) -> (r: Json)
    ensures
        jview(r) == thread_json(thread_id@, entries@),
{
    let quarantined = chars_of("quarantined");
    let mut list = items();
    let mut k: usize = 0;
    while k < entries.len()
        invariant
            k <= entries.len(),
            quarantined@ == "quarantined"@,
            items_view(list@) == entries@.take(k as int).map_values(
                |e: ThreadEntry| thread_entry_json(e),
            ),
        decreases entries.len() - k,
    {
        let e = &entries[k];
        let body = if equals_str(&quarantined, e.disposition.as_str()) {
            text("[redacted until approved]")
        } else {
            Json::Null
        };
        let mut m = members();
        push_member(&mut m, "messageId", text(e.message_id.as_str()));
        push_member(&mut m, "sender", text(e.sender_principal.as_str()));
        push_member(&mut m, "kind", text(e.kind.as_str()));
        push_member(&mut m, "arrival", Json::UInt(e.arrival_sequence));
        push_member(&mut m, "disposition", text(e.disposition.as_str()));
        push_member(&mut m, "body", body);
        assert(members_view(m@) =~= match thread_entry_json(*e) {
            JsonView::Object(p) => p,
            _ => Seq::empty(),
        });
        let ghost before = items_view(list@);
        push_item(&mut list, object(m));
        assert(entries@.take(k + 1).map_values(|x: ThreadEntry| thread_entry_json(x)) =~= before.push(
            thread_entry_json(*e),
        ));
        k = k + 1;
    }
    assert(entries@.take(entries.len() as int) =~= entries@);
    let mut top = members();
    push_member(&mut top, "status", text("ok"));
    push_member(&mut top, "threadId", text(thread_id));
    push_member(&mut top, "entries", array(list));
    assert(members_view(top@) =~= match thread_json(thread_id@, entries@) {
        JsonView::Object(p) => p,
        _ => Seq::empty(),
    });
    object(top)
}

/// A decision a human recorded about an inbound message.
pub struct DecisionRecord {
    /// What was decided, such as `deliver_to_agent`.
    pub action: String,
    /// The message as it arrived.
    pub original_content: String,
    /// The human's edit, when they made one.
    pub edited_content: Option<String>,
    /// The channel the message came from.
    pub channel_id: String,
    /// Who decided.
    pub decided_by: String,
}

/// Whether a decision delivers content to the agent.
pub open spec fn delivers(d: DecisionRecord) -> bool {
    d.action@ == "deliver_to_agent"@ || d.action@ == "deliver_edited"@
}

/// The latest decision that delivers, when there is one.
pub fn releasing_decision(decisions: &Vec<DecisionRecord>) -> (r: Option<usize>)
    ensures
        match r {
            Some(i) => i < decisions.len() && delivers(decisions@[i as int]) && forall|j: int|
                i < j < decisions.len() ==> !delivers(#[trigger] decisions@[j]),
            None => forall|j: int| 0 <= j < decisions.len() ==> !delivers(#[trigger] decisions@[j]),
        },
{
    let mut k: usize = decisions.len();
    while k > 0
        invariant
            k <= decisions.len(),
            forall|j: int| k <= j < decisions.len() ==> !delivers(#[trigger] decisions@[j]),
        decreases k,
    {
        let a = chars_of(decisions[k - 1].action.as_str());
        if equals_str(&a, "deliver_to_agent") || equals_str(&a, "deliver_edited") {
            return Some(k - 1);
        }
        k = k - 1;
    }
    None
}

/// The content a decision released: the edit when there is one, because the
/// edit is what the human approved.
pub open spec fn released_body(d: DecisionRecord) -> Seq<char> {
    match d.edited_content {
        Some(e) => e@,
        None => d.original_content@,
    }
}

/// The released text an agent reads: the provenance banner, then the body.
pub fn released_text(banner: &str, decision: &DecisionRecord) -> (r: String)
    ensures
        r@ == banner@ + released_body(*decision),
{
    let mut out: Vec<char> = Vec::new();
    extend_str(&mut out, banner);
    match &decision.edited_content {
        Some(e) => extend_str(&mut out, e.as_str()),
        None => extend_str(&mut out, decision.original_content.as_str()),
    }
    string_of(out.as_slice())
}

} // verus!
