//! The trusted review popup: which message it opens on, what a screen
//! outcome becomes, and which local agent a delivery goes to.
use vstd::prelude::*;

use crate::json::{
    get, jview, members, members_view, object, push_member, string, text, Json, JsonView,
};
use crate::time::{rfc3339_from, stamp_text};
use crate::text::chars_of;

verus! {

broadcast use vstd::string::group_string_axioms;

/// Whether `c` is a digit of Crockford's base32, which ULIDs are written in:
/// `0`-`9` and the capital letters but `I`, `L`, `O` and `U`.
pub open spec fn is_crockford_digit(c: char) -> bool {
    ('0' <= c && c <= '9') || ('A' <= c && c <= 'Z' && c != 'I' && c != 'L' && c != 'O' && c
        != 'U')
}

/// Whether `s` is a well-formed ULID, the message protocol's identifier:
/// 26 Crockford base32 digits, the first at most `7` so that the value fits
/// in 128 bits. The protocol's own check is not linked into this crate, so
/// the rule is stated here over characters, uppercase only.
pub open spec fn is_ulid(s: Seq<char>) -> bool {
    s.len() == 26 && '0' <= s[0] && s[0] <= '7' && forall|i: int|
        0 <= i < 26 ==> is_crockford_digit(#[trigger] s[i])
}

/// Whether `s` is a well-formed ULID.
pub fn ulid(s: &str) -> (r: bool)
    ensures
        r == is_ulid(s@),
{
    let c = chars_of(s);
    if c.len() != 26 || !('0' <= c[0] && c[0] <= '7') {
        return false;
    }
    let mut k: usize = 0;
    while k < 26
        invariant
            k <= 26,
            c.len() == 26,
            c@ == s@,
            forall|i: int| 0 <= i < k ==> is_crockford_digit(#[trigger] c@[i]),
        decreases 26 - k,
    {
        let d = c[k];
        if !(('0' <= d && d <= '9') || ('A' <= d && d <= 'Z' && d != 'I' && d != 'L' && d != 'O'
            && d != 'U')) {
            return false;
        }
        k = k + 1;
    }
    true
}

/// The message the review popup was opened for: the value Herdr passed,
/// when it is a well-formed message identifier. Anything else opens the
/// unfocused list rather than some other message.
pub fn review_target_from(value: Option<String>) -> (r: Option<String>)
    ensures
        match value {
            Some(v) => if is_ulid(v@) {
                r == Some(v)
            } else {
                r is None
            },
            None => r is None,
        },
{
    match value {
        Some(v) => {
            if ulid(v.as_str()) {
                Some(v)
            } else {
                None
            }
        },
        None => None,
    }
}

/// What a person chose on the review screen.
pub enum ScreenOutcome {
    /// Deliver the message to a local agent.
    DeliverToAgent {
        /// The message.
        message_id: String,
        /// The local agent chosen.
        agent: String,
    },
    /// Keep it in the inbox.
    KeepInInbox {
        /// The message.
        message_id: String,
    },
    /// Decline it.
    Decline {
        /// The message.
        message_id: String,
    },
    /// Leave without deciding.
    Quit,
}

/// The decision the daemon records.
#[derive(Debug)]
pub enum WireDecision {
    /// Deliver to the named local agent.
    DeliverToAgent {
        /// The local agent.
        agent: String,
    },
    /// Keep in the inbox.
    KeepInInbox,
    /// Decline, with the reason to send back.
    Decline {
        /// The reason, when one was given.
        reason: Option<String>,
    },
}

/// Turns a screen outcome into the decision the daemon records, with the
/// audit word for it. Leaving the screen is no decision, and a declined
/// message carries no reason the person did not give.
pub fn wire_decision(outcome: ScreenOutcome) -> (r: Option<(String, WireDecision, &'static str)>)
    ensures
        match outcome {
            ScreenOutcome::DeliverToAgent { message_id, agent } => r matches Some(t) && t.0
                == message_id && t.1 == (WireDecision::DeliverToAgent { agent }) && t.2@
                == "deliver_to_agent"@,
            ScreenOutcome::KeepInInbox { message_id } => r matches Some(t) && t.0 == message_id
                && t.1 is KeepInInbox && t.2@ == "keep_in_inbox"@,
            ScreenOutcome::Decline { message_id } => r matches Some(t) && t.0 == message_id && t.1
                == (WireDecision::Decline { reason: None }) && t.2@ == "decline"@,
            ScreenOutcome::Quit => r is None,
        },
{
    match outcome {
        ScreenOutcome::DeliverToAgent { message_id, agent } => Some(
            (message_id, WireDecision::DeliverToAgent { agent }, "deliver_to_agent"),
        ),
        ScreenOutcome::KeepInInbox { message_id } => Some(
            (message_id, WireDecision::KeepInInbox, "keep_in_inbox"),
        ),
        ScreenOutcome::Decline { message_id } => Some(
            (message_id, WireDecision::Decline { reason: None }, "decline"),
        ),
        ScreenOutcome::Quit => None,
    }
}

/// A non-empty string value.
pub open spec fn nonempty_str(v: Json) -> Option<Seq<char>> {
    match v {
        Json::Str(s) => if s@.len() > 0 {
            Some(s@)
        } else {
            None
        },
        _ => None,
    }
}

/// The first of the members `name`, `title`, `id` that is a string, when it
/// is not empty.
pub open spec fn named_member(v: Json) -> Option<Seq<char>> {
    let first = if crate::json::str_at(v, "name"@) is Some {
        crate::json::str_at(v, "name"@)
    } else if crate::json::str_at(v, "title"@) is Some {
        crate::json::str_at(v, "title"@)
    } else {
        crate::json::str_at(v, "id"@)
    };
    match first {
        Some(s) => if s.len() > 0 {
            Some(s)
        } else {
            None
        },
        None => None,
    }
}

/// An agent or pane label, in whichever shape the host used: a bare string,
/// or an object carrying a name, title or id.
pub open spec fn label_of(v: Json) -> Option<Seq<char>> {
    match v {
        Json::Str(s) => nonempty_str(v),
        _ => named_member(v),
    }
}

fn string_member<'a>(v: &'a Json, key: &str) -> (r: Option<&'a String>)
    ensures
        match r {
            Some(s) => crate::json::str_at(*v, key@) == Some(s@),
            None => crate::json::str_at(*v, key@) is None,
        },
{
    crate::json::get_str(v, key)
}

/// Reads an agent or pane label.
pub fn agent_label(value: &Json) -> (r: Option<String>)
    ensures
        match r {
            Some(s) => label_of(*value) == Some(s@),
            None => label_of(*value) is None,
        },
{
    match value {
        Json::Str(s) => {
            if s.as_str().is_empty() {
                None
            } else {
                Some(s.clone())
            }
        },
        _ => {
            let first = match string_member(value, "name") {
                Some(s) => Some(s),
                None => match string_member(value, "title") {
                    Some(s) => Some(s),
                    None => string_member(value, "id"),
                },
            };
            match first {
                Some(s) => {
                    if s.as_str().is_empty() {
                        None
                    } else {
                        Some(s.clone())
                    }
                },
                None => None,
            }
        },
    }
}

/// The label used when the host names no agent.
pub open spec fn fallback_agent() -> Seq<char> {
    "this Herdr session"@
}

/// The agent a delivery defaults to, read from the plugin context Herdr
/// passed: `agent`, else the focused pane, else the pane, else a fixed
/// label that names what is known.
pub open spec fn local_agent_of(plugin_context: Option<Json>) -> Seq<char> {
    match plugin_context {
        None => fallback_agent(),
        Some(c) => if crate::json::member(c, "agent"@) is Some && label_of(
            crate::json::member(c, "agent"@)->0,
        ) is Some {
            label_of(crate::json::member(c, "agent"@)->0)->0
        } else if crate::json::member(c, "focused_pane"@) is Some && label_of(
            crate::json::member(c, "focused_pane"@)->0,
        ) is Some {
            label_of(crate::json::member(c, "focused_pane"@)->0)->0
        } else if crate::json::member(c, "pane"@) is Some && label_of(
            crate::json::member(c, "pane"@)->0,
        ) is Some {
            label_of(crate::json::member(c, "pane"@)->0)->0
        } else {
            fallback_agent()
        },
    }
}

fn label_at(c: &Json, key: &str) -> (r: Option<String>)
    ensures
        match r {
            Some(s) => crate::json::member(*c, key@) is Some && label_of(
                crate::json::member(*c, key@)->0,
            ) == Some(s@),
            None => !(crate::json::member(*c, key@) is Some && label_of(
                crate::json::member(*c, key@)->0,
            ) is Some),
        },
{
    match get(c, key) {
        Some(v) => agent_label(v),
        None => None,
    }
}

/// The local agent an approved delivery goes to by default. The label is
/// local and stays local: it is shown and recorded here, never put on a
/// message.
pub fn local_agent_from(plugin_context: Option<&Json>) -> (r: String)
    ensures
        r@ == local_agent_of(
            match plugin_context {
                Some(c) => Some(*c),
                None => None,
            },
        ),
{
    match plugin_context {
        None => "this Herdr session".to_owned(),
        Some(c) => match label_at(c, "agent") {
            Some(s) => s,
            None => match label_at(c, "focused_pane") {
                Some(s) => s,
                None => match label_at(c, "pane") {
                    Some(s) => s,
                    None => "this Herdr session".to_owned(),
                },
            },
        },
    }
}

/// What the answer says of handing approved text to a local session.
pub open spec fn hand_over_json(text_empty: bool, failure: Option<Seq<char>>) -> JsonView {
    if text_empty {
        JsonView::Object(
            seq![
                ("handedOver"@, JsonView::Bool(false)),
                ("reason"@, JsonView::Str("the approved content was not available to hand over"@)),
            ],
        )
    } else {
        match failure {
            None => JsonView::Object(seq![("handedOver"@, JsonView::Bool(true))]),
            Some(f) => JsonView::Object(
                seq![("handedOver"@, JsonView::Bool(false)), ("reason"@, JsonView::Str(f))],
            ),
        }
    }
}

/// Reports a hand-over: nothing to hand over, handed over, or why not. The
/// decision itself is recorded either way.
pub fn hand_over_report(text_empty: bool, failure: Option<&str>) -> (r: Json)
    ensures
        jview(r) == hand_over_json(
            text_empty,
            match failure {
                Some(f) => Some(f@),
                None => None,
            },
        ),
{
    let mut m = members();
    if text_empty {
        push_member(&mut m, "handedOver", Json::Bool(false));
        push_member(&mut m, "reason", text("the approved content was not available to hand over"));
    } else {
        match failure {
            None => push_member(&mut m, "handedOver", Json::Bool(true)),
            Some(f) => {
                push_member(&mut m, "handedOver", Json::Bool(false));
                push_member(&mut m, "reason", text(f));
            },
        }
    }
    assert(members_view(m@) =~= match hand_over_json(
        text_empty,
        match failure {
            Some(f) => Some(f@),
            None => None,
        },
    ) {
        JsonView::Object(p) => p,
        _ => Seq::empty(),
    });
    object(m)
}

/// The hand-over report with, when a delivery waited for its destination
/// to go idle, whether it settled before the wait ran out.
pub open spec fn with_idle_wait_json(delivered: JsonView, waited: Option<bool>) -> JsonView {
    match (delivered, waited) {
        (JsonView::Object(p), Some(w)) => JsonView::Object(p.push(("waitedForIdle"@, JsonView::Bool(w)))),
        _ => delivered,
    }
}

/// Adds how the wait for an idle destination went to a hand-over report.
pub fn with_idle_wait(delivered: Json, waited: Option<bool>) -> (r: Json)
    ensures
        jview(r) == with_idle_wait_json(jview(delivered), waited),
{
    match (delivered, waited) {
        (Json::Object(mut m), Some(w)) => {
            proof {
                assert(jview(Json::Object(m)) matches JsonView::Object(p) && p =~= members_view(m@));
            }
            push_member(&mut m, "waitedForIdle", Json::Bool(w));
            object(m)
        },
        (other, _) => other,
    }
}

/// What the screen reports when nothing awaited a decision.
pub open spec fn nothing_pending_json() -> JsonView {
    JsonView::Object(
        seq![
            ("status"@, JsonView::Str("ok"@)),
            ("pending"@, JsonView::UInt(0)),
            ("decided"@, JsonView::Null),
        ],
    )
}

/// The report of a review with nothing to decide.
pub fn nothing_pending_report() -> (r: Json)
    ensures
        jview(r) == nothing_pending_json(),
{
    let mut m = members();
    push_member(&mut m, "status", text("ok"));
    push_member(&mut m, "pending", Json::UInt(0));
    push_member(&mut m, "decided", Json::Null);
    assert(members_view(m@) =~= match nothing_pending_json() {
        JsonView::Object(p) => p,
        _ => Seq::empty(),
    });
    object(m)
}

/// What the screen reports when the person left it without deciding:
/// leaving is not a decision, so none is recorded.
pub open spec fn undecided_json() -> JsonView {
    JsonView::Object(seq![("status"@, JsonView::Str("ok"@)), ("decided"@, JsonView::Null)])
}

/// The report of a review left without a decision.
pub fn undecided_report() -> (r: Json)
    ensures
        jview(r) == undecided_json(),
{
    let mut m = members();
    push_member(&mut m, "status", text("ok"));
    push_member(&mut m, "decided", Json::Null);
    assert(members_view(m@) =~= match undecided_json() {
        JsonView::Object(p) => p,
        _ => Seq::empty(),
    });
    object(m)
}

/// What the screen reports once the daemon recorded a decision: the
/// message, the action, the daemon's answer, and the hand-over if the
/// decision was a delivery.
pub open spec fn decided_json(
    message_id: Seq<char>,
    action: Seq<char>,
    daemon: JsonView,
    delivered: Option<JsonView>,
) -> JsonView {
    JsonView::Object(
        seq![
            ("status"@, JsonView::Str("ok"@)),
            ("messageId"@, JsonView::Str(message_id)),
            ("decided"@, JsonView::Str(action)),
            ("daemon"@, daemon),
            (
                "delivered"@,
                match delivered {
                    Some(d) => d,
                    None => JsonView::Null,
                },
            ),
        ],
    )
}

/// The view of an optional JSON value.
pub open spec fn opt_jview(o: Option<Json>) -> Option<JsonView> {
    match o {
        Some(d) => Some(jview(d)),
        None => None,
    }
}

/// The report of a recorded decision.
pub fn decided_report(message_id: String, action: &str, daemon: Json, delivered: Option<Json>) -> (r:
    Json)
    ensures
        jview(r) == decided_json(message_id@, action@, jview(daemon), opt_jview(delivered)),
{
    let ghost expected = decided_json(message_id@, action@, jview(daemon), opt_jview(delivered));
    let mut m = members();
    push_member(&mut m, "status", text("ok"));
    push_member(&mut m, "messageId", string(message_id));
    push_member(&mut m, "decided", text(action));
    push_member(&mut m, "daemon", daemon);
    push_member(
        &mut m,
        "delivered",
        match delivered {
            Some(d) => d,
            None => Json::Null,
        },
    );
    assert(members_view(m@) =~= match expected {
        JsonView::Object(p) => p,
        _ => Seq::empty(),
    });
    object(m)
}

/// How long an approval authorization stays usable: it is consumed in the
/// call that issues it, so this bounds clock skew, not a person's time.
pub const AUTHORIZATION_LIFETIME_SECONDS: i64 = 300;

/// When an approval authorization issued at `now` lapses.
pub fn approval_expiry(now: i64) -> (r: String)
    requires
        now <= i64::MAX - 300,
    ensures
        r@ == stamp_text(now + 300),
{
    rfc3339_from(now + AUTHORIZATION_LIFETIME_SECONDS)
}

/// Whether a message goes on the review screen: it awaits a decision, and
/// it is the one the screen was opened on when it was opened on one.
pub fn goes_on_screen(only: Option<&str>, message_id: &str, awaiting_decision: bool) -> (r: bool)
    ensures
        r == (awaiting_decision && match only {
            Some(w) => w@ == message_id@,
            None => true,
        }),
{
    match only {
        Some(w) => awaiting_decision && crate::text::equals_str(&chars_of(w), message_id),
        None => awaiting_decision,
    }
}

} // verus!
