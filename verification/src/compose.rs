//! Writing a message: who it is addressed to, which thread it continues,
//! and what the sender is told afterwards.
//!
//! The thread of a reply is read from local state rather than chosen, so a
//! sender cannot attach a reply to a conversation it never saw.
use vstd::prelude::*;

use crate::error::CliError;
use crate::inbox::InboxEntry;
use crate::json::{jview, members, members_view, object, push_member, text, Json, JsonView};
use crate::publish::PublishOutcome;
use crate::text::{
    chars_of, equals_str, first_index, first_position, opt_str_view, opt_view, slice, string_of,
};

verus! {

broadcast use vstd::string::group_string_axioms;

/// Who a message is for: a principal and, after the first `/`, an advisory
/// endpoint that asks the receiving human to route it somewhere.
pub struct Addressee {
    /// The principal addressed.
    pub principal_id: String,
    /// The logical endpoint named after the principal, if any.
    pub endpoint: Option<String>,
}

/// The principal part of a recipient: everything before the first `/`.
pub open spec fn principal_part(recipient: Seq<char>) -> Seq<char> {
    recipient.take(first_index(recipient, '/'))
}

/// The endpoint part of a recipient: everything after the first `/`, when
/// there is one.
pub open spec fn endpoint_part(recipient: Seq<char>) -> Option<Seq<char>> {
    let i = first_index(recipient, '/');
    if i < recipient.len() {
        Some(recipient.skip(i + 1))
    } else {
        None
    }
}

/// Splits a recipient such as `alice/builder` at its first `/`.
pub fn addressee(recipient: &str) -> (a: Addressee)
    ensures
        a.principal_id@ == principal_part(recipient@),
        opt_view(a.endpoint) == endpoint_part(recipient@),
{
    let all = chars_of(recipient);
    let i = first_position(&all, '/');
    proof {
        crate::text::lemma_count_and_first(all@, '/');
    }
    let principal = slice(&all, 0, i);
    let principal_id = string_of(principal.as_slice());
    if i < all.len() {
        let rest = slice(&all, i + 1, all.len());
        assert(rest@ =~= all@.skip(i + 1));
        assert(principal@ =~= all@.take(i as int));
        Addressee { principal_id, endpoint: Some(string_of(rest.as_slice())) }
    } else {
        assert(principal@ =~= all@.take(i as int));
        Addressee { principal_id, endpoint: None }
    }
}

/// A message this installation wrote, with the thread recorded for it.
pub struct SentMessage {
    /// The message identifier.
    pub message_id: String,
    /// The thread it was written into.
    pub thread_id: String,
    /// Its kind.
    pub kind: String,
}

/// The value paired with the first occurrence of `key`, if any.
pub open spec fn first_value(pairs: Seq<(Seq<char>, Seq<char>)>, key: Seq<char>) -> Option<Seq<char>>
    decreases pairs.len(),
{
    if pairs.len() == 0 {
        None
    } else if pairs[0].0 == key {
        Some(pairs[0].1)
    } else {
        first_value(pairs.drop_first(), key)
    }
}

/// The thread a received message belongs to: the one it named, or the
/// message itself when it started one.
pub open spec fn received_thread(e: InboxEntry) -> Seq<char> {
    match e.thread_id {
        Some(t) => t@,
        None => e.message_id@,
    }
}

/// Each received message with its thread.
pub open spec fn received_threads(entries: Seq<InboxEntry>) -> Seq<(Seq<char>, Seq<char>)> {
    entries.map_values(|e: InboxEntry| (e.message_id@, received_thread(e)))
}

/// Each sent message with its thread.
pub open spec fn sent_threads(sent: Seq<SentMessage>) -> Seq<(Seq<char>, Seq<char>)> {
    sent.map_values(|m: SentMessage| (m.message_id@, m.thread_id@))
}

/// Each received message with its sender.
pub open spec fn senders(entries: Seq<InboxEntry>) -> Seq<(Seq<char>, Seq<char>)> {
    entries.map_values(|e: InboxEntry| (e.message_id@, e.sender_principal@))
}

/// The thread a new message goes into and the message it answers.
///
/// A message that answers nothing starts a thread named after itself. One
/// that answers a message continues that message's thread: a received
/// message is looked up first, then one written here, so that a follow-up
/// to one's own message (cancelling a delegated task) lands in its thread.
/// `None` when the message answered is not known locally.
pub open spec fn threading(
    in_reply_to: Option<Seq<char>>,
    message_id: Seq<char>,
    received: Seq<InboxEntry>,
    sent: Seq<SentMessage>,
) -> Option<(Seq<char>, Option<Seq<char>>)> {
    match in_reply_to {
        None => Some((message_id, None)),
        Some(answered) => match first_value(received_threads(received), answered) {
            Some(t) => Some((t, Some(answered))),
            None => match first_value(sent_threads(sent), answered) {
                Some(t) => Some((t, Some(answered))),
                None => None,
            },
        },
    }
}

/// Looks `key` up among the first entries of `pairs` not yet searched.
pub proof fn lemma_first_value_step(pairs: Seq<(Seq<char>, Seq<char>)>, key: Seq<char>, k: int)
    requires
        0 <= k < pairs.len(),
    ensures
        first_value(pairs.skip(k), key) == if pairs[k].0 == key {
            Some(pairs[k].1)
        } else {
            first_value(pairs.skip(k + 1), key)
        },
{
    assert(pairs.skip(k)[0] == pairs[k]);
    assert(pairs.skip(k).drop_first() =~= pairs.skip(k + 1));
}

pub(crate) fn received_thread_of(entries: &Vec<InboxEntry>, id: &str) -> (r: Option<String>)
    ensures
        opt_view(r) == first_value(received_threads(entries@), id@),
{
    let ghost pairs = received_threads(entries@);
    let mut k: usize = 0;
    assert(pairs.skip(0) =~= pairs);
    while k < entries.len()
        invariant
            k <= entries.len(),
            pairs == received_threads(entries@),
            first_value(pairs.skip(k as int), id@) == first_value(pairs, id@),
        decreases entries.len() - k,
    {
        proof {
            lemma_first_value_step(pairs, id@, k as int);
        }
        let e = &entries[k];
        if equals_str(&chars_of(e.message_id.as_str()), id) {
            return match &e.thread_id {
                Some(t) => Some(t.clone()),
                None => Some(e.message_id.clone()),
            };
        }
        k = k + 1;
    }
    assert(pairs.skip(k as int).len() == 0);
    None
}

fn sent_thread_of(sent: &Vec<SentMessage>, id: &str) -> (r: Option<String>)
    ensures
        opt_view(r) == first_value(sent_threads(sent@), id@),
{
    let ghost pairs = sent_threads(sent@);
    let mut k: usize = 0;
    assert(pairs.skip(0) =~= pairs);
    while k < sent.len()
        invariant
            k <= sent.len(),
            pairs == sent_threads(sent@),
            first_value(pairs.skip(k as int), id@) == first_value(pairs, id@),
        decreases sent.len() - k,
    {
        proof {
            lemma_first_value_step(pairs, id@, k as int);
        }
        let m = &sent[k];
        if equals_str(&chars_of(m.message_id.as_str()), id) {
            return Some(m.thread_id.clone());
        }
        k = k + 1;
    }
    assert(pairs.skip(k as int).len() == 0);
    None
}

/// The thread of a new message and what it answers, or `NoSuchMessage`
/// when the message it answers is neither received nor sent here.
pub fn thread_for(
    in_reply_to: Option<&str>,
    message_id: &str,
    received: &Vec<InboxEntry>,
    sent: &Vec<SentMessage>,
) -> (r: Result<(String, Option<String>), CliError>)
    ensures
        r is Ok <==> threading(opt_str_view(in_reply_to), message_id@, received@, sent@) is Some,
        r matches Ok(p) ==> threading(opt_str_view(in_reply_to), message_id@, received@, sent@) == Some(
            (p.0@, opt_view(p.1)),
        ),
        r matches Err(CliError::NoSuchMessage { message_id: m }) ==> in_reply_to matches Some(id)
            && m@ == id@,
        r is Err ==> r matches Err(CliError::NoSuchMessage { .. }),
{
    match in_reply_to {
        None => Ok((message_id.to_owned(), None)),
        Some(id) => {
            let thread = match received_thread_of(received, id) {
                Some(t) => Some(t),
                None => sent_thread_of(sent, id),
            };
            match thread {
                Some(t) => Ok((t, Some(id.to_owned()))),
                None => Err(CliError::NoSuchMessage { message_id: id.to_owned() }),
            }
        },
    }
}

/// Who `hrc reply` answers: the sender of the first received message with
/// that identifier, or `NoSuchMessage` when none was received.
pub fn reply_recipient(received: &Vec<InboxEntry>, message_id: &str) -> (r: Result<String, CliError>)
    ensures
        r is Ok <==> first_value(senders(received@), message_id@) is Some,
        r matches Ok(s) ==> first_value(senders(received@), message_id@) == Some(s@),
        r is Err ==> (r matches Err(CliError::NoSuchMessage { message_id: m }) && m@ == message_id@),
{
    let ghost pairs = senders(received@);
    let mut k: usize = 0;
    assert(pairs.skip(0) =~= pairs);
    while k < received.len()
        invariant
            k <= received.len(),
            pairs == senders(received@),
            first_value(pairs.skip(k as int), message_id@) == first_value(pairs, message_id@),
        decreases received.len() - k,
    {
        proof {
            lemma_first_value_step(pairs, message_id@, k as int);
        }
        let e = &received[k];
        if equals_str(&chars_of(e.message_id.as_str()), message_id) {
            return Ok(e.sender_principal.clone());
        }
        k = k + 1;
    }
    assert(pairs.skip(k as int).len() == 0);
    Err(CliError::NoSuchMessage { message_id: message_id.to_owned() })
}

/// Whether any publication pass published the message.
pub open spec fn published_in(outcomes: Seq<PublishOutcome>, message_id: Seq<char>) -> bool {
    exists|i: int, j: int|
        0 <= i < outcomes.len() && 0 <= j < outcomes[i].published@.len()
            && #[trigger] outcomes[i].published@[j]@ == message_id
}

/// Whether the message just written went out in one of the passes that
/// followed it, or is waiting in the outbox.
pub fn was_published(outcomes: &Vec<PublishOutcome>, message_id: &str) -> (r: bool)
    ensures
        r == published_in(outcomes@, message_id@),
{
    let id = chars_of(message_id);
    let mut i: usize = 0;
    while i < outcomes.len()
        invariant
            i <= outcomes.len(),
            id@ == message_id@,
            forall|a: int, b: int|
                0 <= a < i && 0 <= b < outcomes@[a].published@.len() ==> #[trigger] outcomes@[a].published@[b]@
                    != message_id@,
        decreases outcomes.len() - i,
    {
        let published = &outcomes[i].published;
        let mut j: usize = 0;
        while j < published.len()
            invariant
                i < outcomes.len(),
                j <= published.len(),
                published == outcomes@[i as int].published,
                id@ == message_id@,
                forall|b: int| 0 <= b < j ==> #[trigger] published@[b]@ != message_id@,
            decreases published.len() - j,
        {
            if equals_str(&id, published[j].as_str()) {
                assert(outcomes@[i as int].published@[j as int]@ == message_id@);
                return true;
            }
            j = j + 1;
        }
        i = i + 1;
    }
    false
}

/// What the sender is told once a message is written.
pub open spec fn sent_json(
    message_id: Seq<char>,
    thread_id: Seq<char>,
    kind: Seq<char>,
    published: bool,
) -> JsonView {
    JsonView::Object(
        seq![
            ("status"@, JsonView::Str("ok"@)),
            ("messageId"@, JsonView::Str(message_id)),
            ("threadId"@, JsonView::Str(thread_id)),
            ("kind"@, JsonView::Str(kind)),
            ("published"@, JsonView::Bool(published)),
            ("deferred"@, JsonView::Bool(!published)),
        ],
    )
}

/// The report of `hrc send`, `ask`, `reply` and `delegate`: a message not
/// published yet is deferred, and waits in the outbox for the next pass.
pub fn sent_report(message_id: &str, thread_id: &str, kind: &str, published: bool) -> (r: Json)
    ensures
        jview(r) == sent_json(message_id@, thread_id@, kind@, published),
{
    let mut m = members();
    push_member(&mut m, "status", text("ok"));
    push_member(&mut m, "messageId", text(message_id));
    push_member(&mut m, "threadId", text(thread_id));
    push_member(&mut m, "kind", text(kind));
    push_member(&mut m, "published", Json::Bool(published));
    push_member(&mut m, "deferred", Json::Bool(!published));
    assert(members_view(m@) =~= match sent_json(message_id@, thread_id@, kind@, published) {
        JsonView::Object(p) => p,
        _ => Seq::empty(),
    });
    object(m)
}

} // verus!
