//! What the thread and setup panes show.
//!
//! A message's content appears in a thread only when a human released it;
//! everything else appears as metadata and a fixed local line saying why
//! there is no content. The order is this installation's own, never one a
//! sender chose.
use vstd::prelude::*;

use crate::compose::{first_value, received_thread, received_threads, SentMessage};
use crate::decimal::{decimal, push_decimal_u64};
use crate::inbox::InboxEntry;
use crate::json::{jview, members, members_view, object, push_member, text, Json, JsonView};
use crate::text::{chars_of, equals_str, extend_str, string_of};

verus! {

broadcast use vstd::string::group_string_axioms;

/// What a quarantined message says in place of its body.
pub const AWAITING: &'static str = "Not yet approved. Select it in the inbox and press Enter to review it.";

/// What a message decided without delivery says in place of its body.
pub const NOT_RELEASED: &'static str = "Kept or declined without releasing its content, so there is nothing to show.";

/// What a message this installation sent says in place of its body.
pub const SENT_HERE: &'static str = "Sent from here. Its content is sealed to its recipients and is not kept here in readable form.";

/// What a quarantined message says in place of its body.
pub open spec fn awaiting() -> Seq<char> {
    AWAITING@
}

/// What a message decided without delivery says in place of its body.
pub open spec fn not_released() -> Seq<char> {
    NOT_RELEASED@
}

/// What a message this installation sent says in place of its body.
pub open spec fn sent_here() -> Seq<char> {
    SENT_HERE@
}

/// The entry the thread pane opens on when the inbox named none: the most
/// recent arrival, the last of them when several share the highest
/// position.
pub open spec fn latest_index(entries: Seq<InboxEntry>) -> int
    decreases entries.len(),
{
    if entries.len() <= 1 {
        0
    } else {
        let i = latest_index(entries.drop_last());
        if entries.last().arrival_sequence >= entries[i].arrival_sequence {
            entries.len() - 1
        } else {
            i
        }
    }
}

/// The thread the pane shows: that of the message it was opened on (or
/// the named identifier itself, when no such message arrived), else that
/// of the most recent arrival; `None` when there is nothing to show.
pub open spec fn chosen_thread(entries: Seq<InboxEntry>, target: Option<Seq<char>>) -> Option<
    Seq<char>,
> {
    match target {
        Some(t) => match first_value(received_threads(entries), t) {
            Some(thread) => Some(thread),
            None => Some(t),
        },
        None => if entries.len() == 0 {
            None
        } else {
            Some(received_thread(entries[latest_index(entries)]))
        },
    }
}

proof fn lemma_latest_in_range(entries: Seq<InboxEntry>)
    requires
        entries.len() > 0,
    ensures
        0 <= latest_index(entries) < entries.len(),
    decreases entries.len(),
{
    if entries.len() > 1 {
        lemma_latest_in_range(entries.drop_last());
    }
}

/// The thread the pane opens on.
pub fn thread_to_show(entries: &Vec<InboxEntry>, target: Option<&str>) -> (r: Option<String>)
    ensures
        crate::text::opt_view(r) == chosen_thread(entries@, crate::text::opt_str_view(target)),
{
    match target {
        Some(t) => match crate::compose::received_thread_of(entries, t) {
            Some(thread) => Some(thread),
            None => Some(t.to_owned()),
        },
        None => {
            if entries.len() == 0 {
                return None;
            }
            let mut best: usize = 0;
            let mut k: usize = 1;
            while k < entries.len()
                invariant
                    1 <= k <= entries.len(),
                    best == latest_index(entries@.take(k as int)),
                    best < k,
                decreases entries.len() - k,
            {
                proof {
                    assert(entries@.take(k + 1).drop_last() =~= entries@.take(k as int));
                    lemma_latest_in_range(entries@.take(k as int));
                }
                if entries[k].arrival_sequence >= entries[best].arrival_sequence {
                    best = k;
                }
                k = k + 1;
            }
            assert(entries@.take(k as int) =~= entries@);
            let e = &entries[best];
            match &e.thread_id {
                Some(thread) => Some(thread.clone()),
                None => Some(e.message_id.clone()),
            }
        },
    }
}

/// One place in this installation's reading order of a thread.
pub struct ThreadPlace {
    /// The message at this place.
    pub message_id: String,
    /// Whether it was written here rather than received.
    pub outbound: bool,
}

/// A received message of the thread, as the pane needs it.
pub struct ThreadInbound {
    /// The message identifier.
    pub message_id: String,
    /// How its sender is shown.
    pub sender_name: String,
    /// Its kind.
    pub kind: String,
    /// What happened to it locally.
    pub disposition: String,
    /// Its content, when a human released it.
    pub released: Option<String>,
}

/// One entry of the thread pane.
pub struct ThreadLine {
    /// Who wrote it and what kind of message it is.
    pub heading: String,
    /// Its content, or why there is none.
    pub body: String,
}

/// The received message recorded for an identifier: the last one recorded,
/// as a map keyed by identifier keeps.
pub open spec fn inbound_for(inbound: Seq<ThreadInbound>, id: Seq<char>) -> Option<ThreadInbound>
    decreases inbound.len(),
{
    if inbound.len() == 0 {
        None
    } else if inbound.last().message_id@ == id {
        Some(inbound.last())
    } else {
        inbound_for(inbound.drop_last(), id)
    }
}

/// The kind recorded for a message written here into `thread`: the last
/// such record, as a map keyed by identifier keeps.
pub open spec fn sent_kind(sent: Seq<SentMessage>, thread: Seq<char>, id: Seq<char>) -> Option<
    Seq<char>,
>
    decreases sent.len(),
{
    if sent.len() == 0 {
        None
    } else if sent.last().message_id@ == id && sent.last().thread_id@ == thread {
        Some(sent.last().kind@)
    } else {
        sent_kind(sent.drop_last(), thread, id)
    }
}

/// What a received message shows in place of a body it does not have.
pub open spec fn inbound_body(e: ThreadInbound) -> Seq<char> {
    match e.released {
        Some(content) => content@,
        None => if e.disposition@ == "quarantined"@ {
            awaiting()
        } else {
            not_released()
        },
    }
}

/// The entry a place shows, as heading and body; `None` for a place with
/// nothing recorded yet, such as a message still being written.
pub open spec fn line_at(
    place: ThreadPlace,
    inbound: Seq<ThreadInbound>,
    sent: Seq<SentMessage>,
    thread: Seq<char>,
) -> Option<(Seq<char>, Seq<char>)> {
    if place.outbound {
        match sent_kind(sent, thread, place.message_id@) {
            Some(kind) => Some(("you \u{b7} "@ + kind, sent_here())),
            None => None,
        }
    } else {
        match inbound_for(inbound, place.message_id@) {
            Some(e) => Some((e.sender_name@ + " \u{b7} "@ + e.kind@, inbound_body(e))),
            None => None,
        }
    }
}

/// Every entry of a thread, in this installation's reading order.
pub open spec fn thread_lines_of(
    places: Seq<ThreadPlace>,
    inbound: Seq<ThreadInbound>,
    sent: Seq<SentMessage>,
    thread: Seq<char>,
) -> Seq<(Seq<char>, Seq<char>)>
    decreases places.len(),
{
    if places.len() == 0 {
        Seq::empty()
    } else {
        let before = thread_lines_of(places.drop_last(), inbound, sent, thread);
        match line_at(places.last(), inbound, sent, thread) {
            Some(l) => before.push(l),
            None => before,
        }
    }
}

fn find_inbound(inbound: &Vec<ThreadInbound>, id: &str) -> (r: Option<usize>)
    ensures
        match r {
            Some(i) => i < inbound.len() && inbound_for(inbound@, id@) == Some(inbound@[i as int]),
            None => inbound_for(inbound@, id@) is None,
        },
{
    let mut k: usize = inbound.len();
    assert(inbound@.take(k as int) =~= inbound@);
    while k > 0
        invariant
            k <= inbound.len(),
            inbound_for(inbound@, id@) == inbound_for(inbound@.take(k as int), id@),
        decreases k,
    {
        let ghost s = inbound@.take(k as int);
        assert(s.drop_last() =~= inbound@.take(k - 1));
        assert(s.last() == inbound@[k - 1]);
        if equals_str(&chars_of(inbound[k - 1].message_id.as_str()), id) {
            return Some(k - 1);
        }
        k = k - 1;
    }
    None
}

fn find_sent(sent: &Vec<SentMessage>, thread: &str, id: &str) -> (r: Option<usize>)
    ensures
        match r {
            Some(i) => i < sent.len() && sent_kind(sent@, thread@, id@) == Some(sent@[i as int].kind@),
            None => sent_kind(sent@, thread@, id@) is None,
        },
{
    let mut k: usize = sent.len();
    assert(sent@.take(k as int) =~= sent@);
    while k > 0
        invariant
            k <= sent.len(),
            sent_kind(sent@, thread@, id@) == sent_kind(sent@.take(k as int), thread@, id@),
        decreases k,
    {
        let ghost s = sent@.take(k as int);
        assert(s.drop_last() =~= sent@.take(k - 1));
        assert(s.last() == sent@[k - 1]);
        if equals_str(&chars_of(sent[k - 1].message_id.as_str()), id) && equals_str(
            &chars_of(sent[k - 1].thread_id.as_str()),
            thread,
        ) {
            return Some(k - 1);
        }
        k = k - 1;
    }
    None
}

fn line_for(
    place: &ThreadPlace,
    inbound: &Vec<ThreadInbound>,
    sent: &Vec<SentMessage>,
    thread: &str,
) -> (r: Option<ThreadLine>)
    ensures
        match r {
            Some(l) => line_at(*place, inbound@, sent@, thread@) == Some((l.heading@, l.body@)),
            None => line_at(*place, inbound@, sent@, thread@) is None,
        },
{
    if place.outbound {
        match find_sent(sent, thread, place.message_id.as_str()) {
            Some(i) => {
                let mut heading = chars_of("you \u{b7} ");
                extend_str(&mut heading, sent[i].kind.as_str());
                Some(
                    ThreadLine {
                        heading: string_of(heading.as_slice()),
                        body: SENT_HERE.to_owned(),
                    },
                )
            },
            None => None,
        }
    } else {
        match find_inbound(inbound, place.message_id.as_str()) {
            Some(i) => {
                let e = &inbound[i];
                let mut heading = chars_of(e.sender_name.as_str());
                extend_str(&mut heading, " \u{b7} ");
                extend_str(&mut heading, e.kind.as_str());
                let body = match &e.released {
                    Some(content) => content.clone(),
                    None => if equals_str(&chars_of("quarantined"), e.disposition.as_str()) {
                        AWAITING.to_owned()
                    } else {
                        NOT_RELEASED.to_owned()
                    },
                };
                Some(ThreadLine { heading: string_of(heading.as_slice()), body })
            },
            None => None,
        }
    }
}

/// Whether a body is content a human released for one of the received
/// messages.
pub open spec fn released_among(inbound: Seq<ThreadInbound>, body: Seq<char>) -> bool {
    exists|i: int|
        0 <= i < inbound.len() && (#[trigger] inbound[i]).released is Some
            && inbound[i].released.unwrap()@ == body
}

proof fn lemma_inbound_for_member(inbound: Seq<ThreadInbound>, id: Seq<char>)
    ensures
        inbound_for(inbound, id) matches Some(e) ==> exists|i: int|
            0 <= i < inbound.len() && #[trigger] inbound[i] == e,
    decreases inbound.len(),
{
    if inbound.len() > 0 && inbound.last().message_id@ != id {
        lemma_inbound_for_member(inbound.drop_last(), id);
        if let Some(e) = inbound_for(inbound.drop_last(), id) {
            let i = choose|i: int| 0 <= i < inbound.drop_last().len() && #[trigger] inbound.drop_last()[i] == e;
            assert(inbound[i] == e);
        }
    } else if inbound.len() > 0 {
        assert(inbound[inbound.len() - 1] == inbound.last());
    }
}

/// A thread shows content only where a human released it: every body is a
/// released message's content or one of the fixed local lines that say why
/// there is none, and a message written here never shows its content.
pub proof fn law_threads_show_only_released_content(
    places: Seq<ThreadPlace>,
    inbound: Seq<ThreadInbound>,
    sent: Seq<SentMessage>,
    thread: Seq<char>,
)
    ensures
        forall|i: int|
            0 <= i < thread_lines_of(places, inbound, sent, thread).len() ==> {
                let body = (#[trigger] thread_lines_of(places, inbound, sent, thread)[i]).1;
                body == sent_here() || body == awaiting() || body == not_released()
                    || released_among(inbound, body)
            },
    decreases places.len(),
{
    if places.len() > 0 {
        law_threads_show_only_released_content(places.drop_last(), inbound, sent, thread);
        let before = thread_lines_of(places.drop_last(), inbound, sent, thread);
        let place = places.last();
        if !place.outbound {
            lemma_inbound_for_member(inbound, place.message_id@);
            if let Some(e) = inbound_for(inbound, place.message_id@) {
                if let Some(content) = e.released {
                    let j = choose|j: int| 0 <= j < inbound.len() && #[trigger] inbound[j] == e;
                    assert(inbound[j].released is Some);
                    assert(released_among(inbound, content@));
                }
            }
        }
        assert forall|i: int|
            0 <= i < thread_lines_of(places, inbound, sent, thread).len() implies {
                let body = (#[trigger] thread_lines_of(places, inbound, sent, thread)[i]).1;
                body == sent_here() || body == awaiting() || body == not_released()
                    || released_among(inbound, body)
            } by {
            if i < before.len() {
                assert(thread_lines_of(places, inbound, sent, thread)[i] == before[i]);
            }
        }
    }
}

/// The view of a list of thread entries.
pub open spec fn lines_view(lines: Seq<ThreadLine>) -> Seq<(Seq<char>, Seq<char>)> {
    lines.map_values(|l: ThreadLine| (l.heading@, l.body@))
}

/// Every entry of one thread, in reading order: the places come from this
/// installation's record of when each message arrived or was written here,
/// never from a time the sender chose.
pub fn thread_lines(
    places: &Vec<ThreadPlace>,
    inbound: &Vec<ThreadInbound>,
    sent: &Vec<SentMessage>,
    thread: &str,
) -> (r: Vec<ThreadLine>)
    ensures
        lines_view(r@) == thread_lines_of(places@, inbound@, sent@, thread@),
{
    let mut out: Vec<ThreadLine> = Vec::new();
    let mut k: usize = 0;
    while k < places.len()
        invariant
            k <= places.len(),
            lines_view(out@) == thread_lines_of(places@.take(k as int), inbound@, sent@, thread@),
        decreases places.len() - k,
    {
        assert(places@.take(k + 1).drop_last() =~= places@.take(k as int));
        assert(places@.take(k + 1).last() == places@[k as int]);
        match line_for(&places[k], inbound, sent, thread) {
            Some(l) => {
                out.push(l);
                assert(lines_view(out@) =~= thread_lines_of(
                    places@.take(k + 1),
                    inbound@,
                    sent@,
                    thread@,
                ));
            },
            None => {},
        }
        k = k + 1;
    }
    assert(places@.take(k as int) =~= places@);
    out
}

/// The title of the thread pane.
pub open spec fn thread_title_of(channel_name: Seq<char>, count: nat) -> Seq<char> {
    "Thread in "@ + channel_name + " ("@ + decimal(count as int) + " message"@ + (if count == 1 {
        Seq::empty()
    } else {
        "s"@
    }) + ")"@
}

/// The title of the thread pane, counting its messages.
pub fn thread_title(channel_name: &str, count: u64) -> (r: String)
    ensures
        r@ == thread_title_of(channel_name@, count as nat),
{
    let mut t = chars_of("Thread in ");
    extend_str(&mut t, channel_name);
    extend_str(&mut t, " (");
    push_decimal_u64(&mut t, count);
    extend_str(&mut t, " message");
    let ghost before = t@;
    if count != 1 {
        extend_str(&mut t, "s");
    }
    extend_str(&mut t, ")");
    proof {
        let suffix: Seq<char> = if count == 1 { Seq::empty() } else { "s"@ };
        assert(t@ =~= before + suffix + ")"@);
    }
    assert(t@ =~= thread_title_of(channel_name@, count as nat));
    string_of(t.as_slice())
}

/// What a pane reports once it closes.
pub open spec fn pane_json(pane: Seq<char>, entries: u64) -> JsonView {
    JsonView::Object(
        seq![
            ("status"@, JsonView::Str("ok"@)),
            ("pane"@, JsonView::Str(pane)),
            ("entries"@, JsonView::UInt(entries)),
        ],
    )
}

/// The report of a pane that showed `entries` entries.
pub fn pane_report(pane: &str, entries: u64) -> (r: Json)
    ensures
        jview(r) == pane_json(pane@, entries),
{
    let mut m = members();
    push_member(&mut m, "status", text("ok"));
    push_member(&mut m, "pane", text(pane));
    push_member(&mut m, "entries", Json::UInt(entries));
    assert(members_view(m@) =~= match pane_json(pane@, entries) {
        JsonView::Object(p) => p,
        _ => Seq::empty(),
    });
    object(m)
}

/// A step the setup screen can offer.
#[derive(Debug, Clone, Copy, PartialEq, Eq, Structural)]
pub enum SetupStep {
    /// Choosing a passphrase and creating this installation's keys.
    Initialize,
    /// Creating a channel in a repository.
    CreateChannel,
    /// Inviting someone into the channel.
    CreateInvite,
    /// Redeeming an invitation.
    Join,
}

/// The steps that make sense for this installation: before there are keys
/// only initializing, since every other step signs something; with a
/// channel only inviting, since a second channel is not supported; without
/// one, creating or joining one.
pub open spec fn steps_for(initialized: bool, has_channel: bool) -> Seq<SetupStep> {
    if !initialized {
        seq![SetupStep::Initialize]
    } else if has_channel {
        seq![SetupStep::CreateInvite]
    } else {
        seq![SetupStep::CreateChannel, SetupStep::Join]
    }
}

/// The setup steps on offer.
pub fn available_steps(initialized: bool, has_channel: bool) -> (r: Vec<SetupStep>)
    ensures
        r@ == steps_for(initialized, has_channel),
{
    let mut v = Vec::new();
    if !initialized {
        v.push(SetupStep::Initialize);
    } else if has_channel {
        v.push(SetupStep::CreateInvite);
    } else {
        v.push(SetupStep::CreateChannel);
        v.push(SetupStep::Join);
    }
    assert(v@ =~= steps_for(initialized, has_channel));
    v
}

/// Whether the screen only initializes, the one step that cannot ask for
/// the passphrase first because it is the step that chooses it.
pub fn only_initializing(steps: &Vec<SetupStep>) -> (r: bool)
    ensures
        r == (steps@ == seq![SetupStep::Initialize]),
{
    let r = steps.len() == 1 && steps[0] == SetupStep::Initialize;
    if r {
        assert(steps@ =~= seq![SetupStep::Initialize]);
    }
    r
}

/// How long an invitation issued from the setup screen stays usable: a day
/// is long enough to pass a code along and short enough that a forgotten
/// one lapses.
pub const DEFAULT_INVITE_LIFETIME: &'static str = "24h";

/// What the setup screen reports when the person left without a step.
pub fn setup_quit_report() -> (r: Json)
    ensures
        jview(r) == JsonView::Object(
            seq![("status"@, JsonView::Str("ok"@)), ("done"@, JsonView::Null)],
        ),
{
    let mut m = members();
    push_member(&mut m, "status", text("ok"));
    push_member(&mut m, "done", Json::Null);
    assert(members_view(m@) =~= seq![("status"@, JsonView::Str("ok"@)), ("done"@, JsonView::Null)]);
    object(m)
}

} // verus!
