//! What the resident daemon answers: one synchronization pass over every
//! channel, and the replies on its trusted and agent-safe endpoints.
use vstd::prelude::*;

use crate::json::{
    array, items, items_view, jview, members, members_view, object, push_item, push_member,
    string, text, Json, JsonView,
};
use crate::text::{chars_of, equals_str, extend_str, string_of};

verus! {

broadcast use vstd::string::group_string_axioms;

/// How one channel fared in a daemon pass.
pub enum ChannelOutcome {
    /// It synchronized; this is its report.
    Synced(Json),
    /// It failed, and the pass went on to the next channel.
    Failed {
        /// The channel.
        channel_id: String,
        /// Its transport kind.
        transport: String,
        /// Where its transport lives.
        locator: String,
        /// The failure's stable code.
        code: String,
        /// The failure, in words.
        message: String,
    },
}

/// What a pass reports of one channel.
pub open spec fn outcome_json(o: ChannelOutcome) -> JsonView {
    match o {
        ChannelOutcome::Synced(v) => jview(v),
        ChannelOutcome::Failed { channel_id, transport, locator, code, message } => JsonView::Object(
            seq![
                ("channelId"@, JsonView::Str(channel_id@)),
                ("transport"@, JsonView::Str(transport@)),
                ("locator"@, JsonView::Str(locator@)),
                ("status"@, JsonView::Str("error"@)),
                ("code"@, JsonView::Str(code@)),
                ("message"@, JsonView::Str(message@)),
            ],
        ),
    }
}

/// Whether every channel of a pass synchronized.
pub open spec fn all_synced(outcomes: Seq<ChannelOutcome>) -> bool {
    forall|i: int| 0 <= i < outcomes.len() ==> (#[trigger] outcomes[i]) is Synced
}

/// The report of one daemon pass: `ok` when every channel synchronized and
/// `degraded` otherwise, with every channel reported in order either way.
pub open spec fn tick_json(
    synced_at: Seq<char>,
    next_poll_seconds: u64,
    expired: Seq<Seq<char>>,
    outcomes: Seq<ChannelOutcome>,
) -> JsonView {
    JsonView::Object(
        seq![
            (
                "status"@,
                JsonView::Str(
                    if all_synced(outcomes) {
                        "ok"@
                    } else {
                        "degraded"@
                    },
                ),
            ),
            ("syncedAt"@, JsonView::Str(synced_at)),
            ("nextPollSeconds"@, JsonView::UInt(next_poll_seconds)),
            ("expired"@, JsonView::Array(expired.map_values(|s: Seq<char>| JsonView::Str(s)))),
            ("channels"@, JsonView::Array(outcomes.map_values(|o: ChannelOutcome| outcome_json(o)))),
        ],
    )
}

fn outcome_value(o: ChannelOutcome) -> (r: Json)
    ensures
        jview(r) == outcome_json(o),
{
    match o {
        ChannelOutcome::Synced(v) => v,
        ChannelOutcome::Failed { channel_id, transport, locator, code, message } => {
            let mut m = members();
            push_member(&mut m, "channelId", string(channel_id));
            push_member(&mut m, "transport", string(transport));
            push_member(&mut m, "locator", string(locator));
            push_member(&mut m, "status", text("error"));
            push_member(&mut m, "code", string(code));
            push_member(&mut m, "message", string(message));
            assert(members_view(m@) =~= seq![
                ("channelId"@, JsonView::Str(channel_id@)),
                ("transport"@, JsonView::Str(transport@)),
                ("locator"@, JsonView::Str(locator@)),
                ("status"@, JsonView::Str("error"@)),
                ("code"@, JsonView::Str(code@)),
                ("message"@, JsonView::Str(message@)),
            ]);
            object(m)
        },
    }
}

/// The report of one daemon pass.
pub fn tick_report(
    synced_at: &str,
    next_poll_seconds: u64,
    expired: &Vec<String>,
    outcomes: Vec<ChannelOutcome>,
) -> (r: Json)
    ensures
        jview(r) == tick_json(
            synced_at@,
            next_poll_seconds,
            expired@.map_values(|s: String| s@),
            outcomes@,
        ),
{
    let ghost all = outcomes@;
    let mut healthy = true;
    let mut k: usize = 0;
    while k < outcomes.len()
        invariant
            k <= outcomes.len(),
            all == outcomes@,
            healthy == forall|i: int| 0 <= i < k ==> (#[trigger] all[i]) is Synced,
        decreases outcomes.len() - k,
    {
        match &outcomes[k] {
            ChannelOutcome::Synced(_) => {},
            ChannelOutcome::Failed { .. } => {
                healthy = false;
            },
        }
        k = k + 1;
    }
    let mut gone = items();
    let mut j: usize = 0;
    while j < expired.len()
        invariant
            j <= expired.len(),
            items_view(gone@) == expired@.take(j as int).map_values(|s: String| s@).map_values(
                |s: Seq<char>| JsonView::Str(s),
            ),
        decreases expired.len() - j,
    {
        let ghost before = items_view(gone@);
        push_item(&mut gone, text(expired[j].as_str()));
        assert(expired@.take(j + 1).map_values(|s: String| s@).map_values(
            |s: Seq<char>| JsonView::Str(s),
        ) =~= before.push(JsonView::Str(expired@[j as int]@)));
        j = j + 1;
    }
    assert(expired@.take(expired.len() as int) =~= expired@);
    let mut list = items();
    let mut rest = outcomes;
    let mut done: usize = 0;
    let ghost n = all.len();
    while rest.len() > 0
        invariant
            n == all.len(),
            n <= usize::MAX,
            done <= n,
            done + rest.len() == n,
            rest@ == all.subrange(done as int, n as int),
            items_view(list@) == all.take(done as int).map_values(|o: ChannelOutcome| outcome_json(o)),
        decreases rest.len(),
    {
        let o = rest.remove(0);
        assert(o == all[done as int]);
        let ghost before = items_view(list@);
        push_item(&mut list, outcome_value(o));
        assert(all.take(done + 1).map_values(|x: ChannelOutcome| outcome_json(x)) =~= before.push(
            outcome_json(all[done as int]),
        ));
        done = done + 1;
        assert(rest@ =~= all.subrange(done as int, n as int));
    }
    assert(all.take(n as int) =~= all);
    let mut top = members();
    push_member(&mut top, "status", text(if healthy { "ok" } else { "degraded" }));
    push_member(&mut top, "syncedAt", text(synced_at));
    push_member(&mut top, "nextPollSeconds", Json::UInt(next_poll_seconds));
    push_member(&mut top, "expired", array(gone));
    push_member(&mut top, "channels", array(list));
    assert(members_view(top@) =~= match tick_json(
        synced_at@,
        next_poll_seconds,
        expired@.map_values(|s: String| s@),
        all,
    ) {
        JsonView::Object(p) => p,
        _ => Seq::empty(),
    });
    object(top)
}

/// A failure answered on an endpoint.
pub open spec fn error_json(code: Seq<char>, message: Seq<char>) -> JsonView {
    JsonView::Object(
        seq![
            ("status"@, JsonView::Str("error"@)),
            ("code"@, JsonView::Str(code)),
            ("message"@, JsonView::Str(message)),
        ],
    )
}

/// Answers a request with a failure: its code and what went wrong.
pub fn error_answer(code: &str, message: &str) -> (r: Json)
    ensures
        jview(r) == error_json(code@, message@),
{
    let mut m = members();
    push_member(&mut m, "status", text("error"));
    push_member(&mut m, "code", text(code));
    push_member(&mut m, "message", text(message));
    assert(members_view(m@) =~= match error_json(code@, message@) {
        JsonView::Object(p) => p,
        _ => Seq::empty(),
    });
    object(m)
}

/// What an agent-safe method that does not exist yet answers.
pub open spec fn unimplemented_message(method: Seq<char>) -> Seq<char> {
    "the `"@ + method + "` agent-safe daemon method is not implemented yet"@
}

/// Answers an agent-safe method that is not implemented yet.
pub fn unimplemented_answer(method: &str) -> (r: Json)
    ensures
        jview(r) == error_json("unimplemented"@, unimplemented_message(method@)),
{
    let mut msg: Vec<char> = Vec::new();
    extend_str(&mut msg, "the `");
    extend_str(&mut msg, method);
    extend_str(&mut msg, "` agent-safe daemon method is not implemented yet");
    assert(msg@ =~= unimplemented_message(method@));
    let s = string_of(msg.as_slice());
    error_answer("unimplemented", s.as_str())
}

/// What a trusted request produced.
pub enum TrustedAnswer {
    /// A context package, shown before it may be sent.
    ContextPreview {
        /// The package.
        package_id: String,
        /// Its digest.
        digest: String,
        /// Its canonical content.
        content: String,
        /// The authorization a send must present.
        authorization: String,
        /// Its items as `[kind, bytes]`.
        items: Json,
        /// Its size in bytes.
        total_bytes: u64,
    },
    /// Approved content delivered to a local agent.
    Delivered {
        /// The agent.
        agent: String,
        /// What it was handed, framed.
        framed: String,
    },
    /// A pending message and its body, for a human to review.
    Pending {
        /// The message.
        message_id: String,
        /// Its body.
        body: String,
    },
    /// Done; nothing to report.
    Done,
}

/// The reply to a trusted request that succeeded: `ok`, the method it
/// answers, and what it produced.
pub open spec fn trusted_answer_json(method: Seq<char>, a: TrustedAnswer) -> JsonView {
    match a {
        TrustedAnswer::ContextPreview {
            package_id,
            digest,
            content,
            authorization,
            items,
            total_bytes,
        } => JsonView::Object(
            seq![
                ("status"@, JsonView::Str("ok"@)),
                ("method"@, JsonView::Str(method)),
                ("contextId"@, JsonView::Str(package_id@)),
                ("digest"@, JsonView::Str(digest@)),
                ("content"@, JsonView::Str(content@)),
                ("authorization"@, JsonView::Str(authorization@)),
                ("items"@, jview(items)),
                ("totalBytes"@, JsonView::UInt(total_bytes)),
            ],
        ),
        TrustedAnswer::Delivered { agent, framed } => JsonView::Object(
            seq![
                ("status"@, JsonView::Str("ok"@)),
                ("method"@, JsonView::Str(method)),
                ("agent"@, JsonView::Str(agent@)),
                ("framed"@, JsonView::Str(framed@)),
            ],
        ),
        TrustedAnswer::Pending { message_id, body } => JsonView::Object(
            seq![
                ("status"@, JsonView::Str("ok"@)),
                ("method"@, JsonView::Str(method)),
                ("messageId"@, JsonView::Str(message_id@)),
                ("body"@, JsonView::Str(body@)),
            ],
        ),
        TrustedAnswer::Done => JsonView::Object(
            seq![("status"@, JsonView::Str("ok"@)), ("method"@, JsonView::Str(method))],
        ),
    }
}

/// Replies to a trusted request that succeeded.
pub fn trusted_answer(method: &str, answer: TrustedAnswer) -> (r: Json)
    ensures
        jview(r) == trusted_answer_json(method@, answer),
{
    let ghost a = answer;
    let mut m = members();
    push_member(&mut m, "status", text("ok"));
    push_member(&mut m, "method", text(method));
    match answer {
        TrustedAnswer::ContextPreview {
            package_id,
            digest,
            content,
            authorization,
            items,
            total_bytes,
        } => {
            push_member(&mut m, "contextId", string(package_id));
            push_member(&mut m, "digest", string(digest));
            push_member(&mut m, "content", string(content));
            push_member(&mut m, "authorization", string(authorization));
            push_member(&mut m, "items", items);
            push_member(&mut m, "totalBytes", Json::UInt(total_bytes));
        },
        TrustedAnswer::Delivered { agent, framed } => {
            push_member(&mut m, "agent", string(agent));
            push_member(&mut m, "framed", string(framed));
        },
        TrustedAnswer::Pending { message_id, body } => {
            push_member(&mut m, "messageId", string(message_id));
            push_member(&mut m, "body", string(body));
        },
        TrustedAnswer::Done => {},
    }
    assert(members_view(m@) =~= match trusted_answer_json(method@, a) {
        JsonView::Object(p) => p,
        _ => Seq::empty(),
    });
    object(m)
}

/// A trusted reply names the method it answers, so a caller that checks
/// it accepts the reply for that method and for no other.
pub proof fn law_trusted_answers_name_their_method(method: Seq<char>, a: TrustedAnswer)
    ensures
        trusted_answer_json(method, a) matches JsonView::Object(p) && p[0] == ("status"@,
            JsonView::Str("ok"@)) && p[1] == ("method"@, JsonView::Str(method)),
{
}

/// A trusted request that may change who is in the channel, or what this
/// installation calls someone.
pub enum TrustedChange {
    /// Remove a member.
    RemoveMember(String),
    /// Revoke one device.
    RevokeDevice(String),
    /// Admit a pending join request.
    ApproveJoin(String),
    /// Turn a pending join request away.
    RejectJoin(String),
    /// Name a principal locally, or forget the name.
    SetAlias {
        /// The principal named.
        principal_id: String,
        /// The name, or `None` to forget it.
        display_name: Option<String>,
    },
    /// Any other trusted request, which changes no membership.
    Other,
}

/// What a trusted request does to the channel and to local state.
pub enum ChangeEffect {
    /// Publish a control entry removing this member.
    PublishRemoval(String),
    /// Publish a control entry revoking this device.
    PublishRevocation(String),
    /// Admit the join request, which publishes its own control entry.
    Admit(String),
    /// Record a local name for a principal.
    SetAlias(String, String),
    /// Forget the local name of a principal.
    ClearAlias(String),
    /// Nothing.
    Nothing,
}

/// The effect of a trusted request. Declining a join publishes nothing: a
/// refusal left in the channel would tell everyone who was turned away. An
/// alias stays local: it is what this installation calls someone.
pub open spec fn effect_of(c: TrustedChange) -> ChangeEffect {
    match c {
        TrustedChange::RemoveMember(p) => ChangeEffect::PublishRemoval(p),
        TrustedChange::RevokeDevice(d) => ChangeEffect::PublishRevocation(d),
        TrustedChange::ApproveJoin(r) => ChangeEffect::Admit(r),
        TrustedChange::RejectJoin(_) => ChangeEffect::Nothing,
        TrustedChange::SetAlias { principal_id, display_name } => match display_name {
            Some(n) => ChangeEffect::SetAlias(principal_id, n),
            None => ChangeEffect::ClearAlias(principal_id),
        },
        TrustedChange::Other => ChangeEffect::Nothing,
    }
}

/// What applying a trusted request does.
pub fn change_effect(change: TrustedChange) -> (r: ChangeEffect)
    ensures
        r == effect_of(change),
{
    match change {
        TrustedChange::RemoveMember(p) => ChangeEffect::PublishRemoval(p),
        TrustedChange::RevokeDevice(d) => ChangeEffect::PublishRevocation(d),
        TrustedChange::ApproveJoin(r) => ChangeEffect::Admit(r),
        TrustedChange::RejectJoin(_) => ChangeEffect::Nothing,
        TrustedChange::SetAlias { principal_id, display_name } => match display_name {
            Some(n) => ChangeEffect::SetAlias(principal_id, n),
            None => ChangeEffect::ClearAlias(principal_id),
        },
        TrustedChange::Other => ChangeEffect::Nothing,
    }
}

/// Only a removal or a revocation, or an admitted join, ever reaches the
/// channel: a declined join and a local name never do.
pub proof fn law_refusals_and_names_stay_local(c: TrustedChange)
    ensures
        (c is RejectJoin || c is SetAlias || c is Other) ==> !(effect_of(c) is PublishRemoval
            || effect_of(c) is PublishRevocation || effect_of(c) is Admit),
{
}

/// What a delivery's provenance banner calls a channel it cannot name.
pub open spec fn unknown_channel() -> Seq<char> {
    "an unknown channel"@
}

/// The last value recorded for a key, as a map built from the pairs in
/// order keeps.
pub open spec fn last_value_for(pairs: Seq<(String, String)>, key: Seq<char>) -> Option<Seq<char>>
    decreases pairs.len(),
{
    if pairs.len() == 0 {
        None
    } else if pairs.last().0@ == key {
        Some(pairs.last().1@)
    } else {
        last_value_for(pairs.drop_last(), key)
    }
}

/// The first value recorded for a key.
pub open spec fn first_value_for(pairs: Seq<(String, String)>, key: Seq<char>) -> Option<Seq<char>>
    decreases pairs.len(),
{
    if pairs.len() == 0 {
        None
    } else if pairs[0].0@ == key {
        Some(pairs[0].1@)
    } else {
        first_value_for(pairs.drop_first(), key)
    }
}

/// The channel a delivery came from, named as every other surface names
/// it: resolved from the held message itself, whose channel was verified
/// when it arrived, and never guessed.
pub open spec fn channel_name_of(
    pending: Seq<(String, String)>,
    names: Seq<(String, String)>,
    message_id: Seq<char>,
) -> Seq<char> {
    match first_value_for(pending, message_id) {
        Some(channel) => match last_value_for(names, channel) {
            Some(name) => name,
            None => unknown_channel(),
        },
        None => unknown_channel(),
    }
}

fn first_for(pairs: &Vec<(String, String)>, key: &str) -> (r: Option<String>)
    ensures
        crate::text::opt_view(r) == first_value_for(pairs@, key@),
{
    let mut k: usize = 0;
    assert(pairs@.skip(0) =~= pairs@);
    while k < pairs.len()
        invariant
            k <= pairs.len(),
            first_value_for(pairs@.skip(k as int), key@) == first_value_for(pairs@, key@),
        decreases pairs.len() - k,
    {
        assert(pairs@.skip(k as int)[0] == pairs@[k as int]);
        assert(pairs@.skip(k as int).drop_first() =~= pairs@.skip(k + 1));
        if equals_str(&chars_of(pairs[k].0.as_str()), key) {
            return Some(pairs[k].1.clone());
        }
        k = k + 1;
    }
    assert(pairs@.skip(k as int).len() == 0);
    None
}

fn last_for(pairs: &Vec<(String, String)>, key: &str) -> (r: Option<String>)
    ensures
        crate::text::opt_view(r) == last_value_for(pairs@, key@),
{
    let mut k: usize = pairs.len();
    assert(pairs@.take(k as int) =~= pairs@);
    while k > 0
        invariant
            k <= pairs.len(),
            last_value_for(pairs@.take(k as int), key@) == last_value_for(pairs@, key@),
        decreases k,
    {
        assert(pairs@.take(k as int).drop_last() =~= pairs@.take(k - 1));
        assert(pairs@.take(k as int).last() == pairs@[k - 1]);
        if equals_str(&chars_of(pairs[k - 1].0.as_str()), key) {
            return Some(pairs[k - 1].1.clone());
        }
        k = k - 1;
    }
    None
}

/// The name of the channel a held message came from. `pending` pairs each
/// held message with its channel; `names` pairs each channel with its
/// display name.
pub fn channel_local_name(
    pending: &Vec<(String, String)>,
    names: &Vec<(String, String)>,
    message_id: &str,
) -> (r: String)
    ensures
        r@ == channel_name_of(pending@, names@, message_id@),
{
    match first_for(pending, message_id) {
        Some(channel) => match last_for(names, channel.as_str()) {
            Some(name) => name,
            None => "an unknown channel".to_owned(),
        },
        None => "an unknown channel".to_owned(),
    }
}

/// Who a decision is recorded as made by: the login name the environment
/// gives as `USER`, else as `USERNAME`, else a fixed phrase.
pub fn local_user(user: Option<String>, username: Option<String>) -> (r: String)
    ensures
        r@ == match (user, username) {
            (Some(u), _) => u@,
            (None, Some(u)) => u@,
            (None, None) => "local human"@,
        },
{
    match (user, username) {
        (Some(u), _) => u,
        (None, Some(u)) => u,
        (None, None) => "local human".to_owned(),
    }
}

/// How long an authorization to send a previewed context package lasts.
pub const CONTEXT_AUTHORIZATION_LIFETIME: &'static str = "5m";

/// Whether an authorization to send a package still covers it: the package
/// has not changed since it was previewed, and it goes to the channel the
/// preview was for.
pub fn authorization_still_holds(
    authorized_digest: &str,
    current_digest: &str,
    authorized_channel: &str,
    current_channel: &str,
) -> (r: bool)
    ensures
        r == (authorized_digest@ == current_digest@ && authorized_channel@ == current_channel@),
{
    equals_str(&chars_of(authorized_digest), current_digest) && equals_str(
        &chars_of(authorized_channel),
        current_channel,
    )
}

} // verus!
