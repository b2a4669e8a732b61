//! One synchronization pass: what it does and in which order, and what it
//! reports.
//!
//! Messages from one device form a chain, so once one of a device's queued
//! messages has to wait, none of its later messages may overtake it in the
//! same pass.
use vstd::prelude::*;

use crate::error::CliError;
use crate::json::{
    array, items, items_view, jview, members, members_view, object, push_item, push_member, text,
    Json, JsonView,
};
use crate::inbox::opt_json;
use crate::text::{chars_of, equals_str};

verus! {

broadcast use vstd::string::group_string_axioms;

/// The devices whose queued messages wait for the rest of this pass.
pub struct PublishGate {
    blocked: Vec<String>,
}

impl PublishGate {
    /// The devices held back so far, in the order they were held.
    pub closed spec fn held(&self) -> Seq<Seq<char>> {
        self.blocked@.map_values(|s: String| s@)
    }

    /// A pass that has held nothing back yet.
    pub fn new() -> (g: PublishGate)
        ensures
            g.held() == Seq::<Seq<char>>::empty(),
    {
        let g = PublishGate { blocked: Vec::new() };
        assert(g.held() =~= Seq::<Seq<char>>::empty());
        g
    }

    /// Whether a message from `device` may be published now: not when an
    /// earlier message of the same device had to wait.
    pub fn admits(&self, device: &str) -> (r: bool)
        ensures
            r == !self.held().contains(device@),
    {
        let d = chars_of(device);
        let mut k: usize = 0;
        while k < self.blocked.len()
            invariant
                k <= self.blocked.len(),
                d@ == device@,
                forall|i: int| 0 <= i < k ==> self.held()[i] != device@,
            decreases self.blocked.len() - k,
        {
            if equals_str(&d, self.blocked[k].as_str()) {
                assert(self.held()[k as int] == device@);
                return false;
            }
            k = k + 1;
        }
        true
    }

    /// Records how a message of `device` fared: when any of it had to wait,
    /// the device is held back for the rest of the pass.
    pub fn record(&mut self, device: &str, deferred: bool)
        ensures
            final(self).held() == if deferred {
                old(self).held().push(device@)
            } else {
                old(self).held()
            },
    {
        if deferred {
            self.blocked.push(device.to_owned());
            assert(self.held() =~= old(self).held().push(device@));
        }
    }
}

/// The devices held back after recording `outcomes` in order, each a
/// device and whether its message had to wait.
pub open spec fn held_after(held: Seq<Seq<char>>, outcomes: Seq<(Seq<char>, bool)>) -> Seq<
    Seq<char>,
>
    decreases outcomes.len(),
{
    if outcomes.len() == 0 {
        held
    } else {
        let before = held_after(held, outcomes.drop_last());
        if outcomes.last().1 {
            before.push(outcomes.last().0)
        } else {
            before
        }
    }
}

/// Once a device had a message wait, no later message of that device is
/// admitted in the same pass, whatever else happens.
pub proof fn law_a_waiting_message_holds_back_its_device(
    held: Seq<Seq<char>>,
    device: Seq<char>,
    later: Seq<(Seq<char>, bool)>,
)
    requires
        held.contains(device),
    ensures
        held_after(held, later).contains(device),
    decreases later.len(),
{
    if later.len() > 0 {
        law_a_waiting_message_holds_back_its_device(held, device, later.drop_last());
        let before = held_after(held, later.drop_last());
        if later.last().1 {
            let i = choose|i: int| 0 <= i < before.len() && before[i] == device;
            assert(before.push(later.last().0)[i] == device);
        }
    }
}

/// What publishing one queued message came to.
pub struct PublishOutcome {
    /// Messages published.
    pub published: Vec<String>,
    /// Publication conflicts met on the way.
    pub conflicts: u32,
    /// Messages that wait for a later pass.
    pub deferred: Vec<String>,
}

/// The outcome of a message held back behind an earlier one of its device.
pub fn held_back(message_id: String) -> (o: PublishOutcome)
    ensures
        o.published.len() == 0,
        o.conflicts == 0,
        o.deferred@.map_values(|s: String| s@) == seq![message_id@],
{
    let mut deferred = Vec::new();
    deferred.push(message_id);
    let o = PublishOutcome { published: Vec::new(), conflicts: 0, deferred };
    assert(o.deferred@.map_values(|s: String| s@) =~= seq![o.deferred@[0]@]);
    o
}

/// What a pass does about one channel, from where its heads stand.
pub struct SyncPlan {
    /// The remote moved since the last pass.
    pub remote_changed: bool,
    /// The local copy must be brought to the remote, and the cursor checked.
    pub refresh: bool,
    /// New messages must be received.
    pub receive: bool,
}

/// Decides what a pass does: the remote changed when its head is not the
/// recorded cursor; the local copy is refreshed when either the remote
/// changed or the local head differs from the remote's; messages are
/// received when the receive cursor is not the remote head.
pub fn sync_plan(
    remote_head: Option<&str>,
    local_head: Option<&str>,
    sync_cursor: Option<&str>,
    receive_cursor: Option<&str>,
) -> (p: SyncPlan)
    ensures
        p.remote_changed == (opt(remote_head) != opt(sync_cursor)),
        p.refresh == (p.remote_changed || opt(local_head) != opt(remote_head)),
        p.receive == (opt(receive_cursor) != opt(remote_head)),
{
    let remote_changed = !same_head(remote_head, sync_cursor);
    let out_of_sync = !same_head(local_head, remote_head);
    SyncPlan {
        remote_changed,
        refresh: remote_changed || out_of_sync,
        receive: !same_head(receive_cursor, remote_head),
    }
}

/// An optional revision's characters.
pub open spec fn opt(o: Option<&str>) -> Option<Seq<char>> {
    match o {
        Some(s) => Some(s@),
        None => None,
    }
}

fn same_head(a: Option<&str>, b: Option<&str>) -> (r: bool)
    ensures
        r == (opt(a) == opt(b)),
{
    match (a, b) {
        (Some(x), Some(y)) => {
            let xc = chars_of(x);
            equals_str(&xc, y)
        },
        (None, None) => true,
        _ => false,
    }
}

/// Whether a failure while receiving means the received history cannot be
/// trusted, which halts the channel rather than being retried.
pub open spec fn halts_on(e: CliError) -> bool {
    e is Core || e is Protocol || e is Transport
}

/// Whether a failure while receiving halts the channel.
pub fn halts_synchronization(error: &CliError) -> (r: bool)
    ensures
        r == halts_on(*error),
{
    match error {
        CliError::Core(_) | CliError::Protocol(_) | CliError::Transport(_) => true,
        _ => false,
    }
}

/// Every message the outcomes list, in order.
pub open spec fn all_of(lists: Seq<Seq<Seq<char>>>) -> Seq<Seq<char>>
    decreases lists.len(),
{
    if lists.len() == 0 {
        Seq::empty()
    } else {
        all_of(lists.drop_last()) + lists.last()
    }
}

/// The published messages of each outcome.
pub open spec fn published_of(o: Seq<PublishOutcome>) -> Seq<Seq<Seq<char>>> {
    o.map_values(|x: PublishOutcome| x.published@.map_values(|s: String| s@))
}

/// The deferred messages of each outcome.
pub open spec fn deferred_of(o: Seq<PublishOutcome>) -> Seq<Seq<Seq<char>>> {
    o.map_values(|x: PublishOutcome| x.deferred@.map_values(|s: String| s@))
}

/// The conflicts met over all outcomes.
pub open spec fn conflicts_of(o: Seq<PublishOutcome>) -> int
    decreases o.len(),
{
    if o.len() == 0 {
        0
    } else {
        conflicts_of(o.drop_last()) + o.last().conflicts
    }
}

fn strings_value(v: &Vec<String>) -> (r: Json)
    ensures
        jview(r) == JsonView::Array(v@.map_values(|s: String| JsonView::Str(s@))),
{
    let mut list = items();
    let mut k: usize = 0;
    while k < v.len()
        invariant
            k <= v.len(),
            items_view(list@) == v@.take(k as int).map_values(|s: String| JsonView::Str(s@)),
        decreases v.len() - k,
    {
        let ghost before = items_view(list@);
        push_item(&mut list, text(v[k].as_str()));
        assert(v@.take(k + 1).map_values(|s: String| JsonView::Str(s@)) =~= before.push(
            JsonView::Str(v@[k as int]@),
        ));
        k = k + 1;
    }
    assert(v@.take(v.len() as int) =~= v@);
    array(list)
}

/// The messages of a list of lists, laid end to end.
fn flatten(lists: &Vec<Vec<String>>) -> (r: Vec<String>)
    ensures
        r@.map_values(|s: String| s@) == all_of(
            lists@.map_values(|l: Vec<String>| l@.map_values(|s: String| s@)),
        ),
{
    let ghost lv = lists@.map_values(|l: Vec<String>| l@.map_values(|s: String| s@));
    let mut out: Vec<String> = Vec::new();
    let mut k: usize = 0;
    while k < lists.len()
        invariant
            k <= lists.len(),
            lv == lists@.map_values(|l: Vec<String>| l@.map_values(|s: String| s@)),
            out@.map_values(|s: String| s@) == all_of(lv.take(k as int)),
        decreases lists.len() - k,
    {
        let l = &lists[k];
        let mut j: usize = 0;
        let ghost start = out@.map_values(|s: String| s@);
        while j < l.len()
            invariant
                j <= l.len(),
                out@.map_values(|s: String| s@) == start + l@.take(j as int).map_values(
                    |s: String| s@,
                ),
            decreases l.len() - j,
        {
            let ghost before = out@.map_values(|s: String| s@);
            out.push(l[j].clone());
            assert(out@.map_values(|s: String| s@) =~= before.push(l@[j as int]@));
            assert(l@.take(j + 1).map_values(|s: String| s@) =~= l@.take(j as int).map_values(
                |s: String| s@,
            ).push(l@[j as int]@));
            j = j + 1;
        }
        assert(l@.take(l.len() as int) =~= l@);
        assert(lv.take(k + 1).drop_last() =~= lv.take(k as int));
        k = k + 1;
    }
    assert(lv.take(lists.len() as int) =~= lv);
    out
}

/// What a pass reports of one channel it synchronized.
pub struct ChannelSync {
    /// The channel.
    pub channel_id: String,
    /// Its transport kind.
    pub transport: String,
    /// Where its transport lives.
    pub locator: String,
    /// Whether the remote moved since the last pass.
    pub remote_changed: bool,
    /// The remote head.
    pub remote_head: Option<String>,
    /// Reserved outbox slots recovered.
    pub recovered: u64,
    /// Publications fetched.
    pub fetched_publications: u64,
    /// Control objects fetched.
    pub fetched_control: u64,
    /// Message objects fetched.
    pub fetched_messages: u64,
    /// Messages received.
    pub received: Vec<String>,
    /// Why delivery receipts could not be queued, if they could not.
    pub receipt_error: Option<String>,
    /// Where the pass left the channel.
    pub cursor: Option<String>,
}

/// The report of one channel's pass, with what was published and deferred
/// over every outcome, in order.
pub open spec fn channel_sync_json(s: ChannelSync, outcomes: Seq<PublishOutcome>) -> JsonView {
    JsonView::Object(
        seq![
            ("channelId"@, JsonView::Str(s.channel_id@)),
            ("transport"@, JsonView::Str(s.transport@)),
            ("locator"@, JsonView::Str(s.locator@)),
            ("remoteChanged"@, JsonView::Bool(s.remote_changed)),
            ("remoteHead"@, opt_json(s.remote_head)),
            ("recoveredReservations"@, JsonView::UInt(s.recovered)),
            (
                "publishedMessages"@,
                JsonView::Array(all_of(published_of(outcomes)).map_values(|m: Seq<char>| JsonView::Str(m))),
            ),
            (
                "deferredMessages"@,
                JsonView::Array(all_of(deferred_of(outcomes)).map_values(|m: Seq<char>| JsonView::Str(m))),
            ),
            ("publishConflicts"@, JsonView::UInt(conflicts_of(outcomes) as u64)),
            ("fetchedPublications"@, JsonView::UInt(s.fetched_publications)),
            ("fetchedControlObjects"@, JsonView::UInt(s.fetched_control)),
            ("fetchedMessageObjects"@, JsonView::UInt(s.fetched_messages)),
            (
                "receivedMessages"@,
                JsonView::Array(s.received@.map_values(|m: String| JsonView::Str(m@))),
            ),
            ("receiptError"@, opt_json(s.receipt_error)),
            ("cursor"@, opt_json(s.cursor)),
        ],
    )
}

fn opt_value(o: &Option<String>) -> (r: Json)
    ensures
        jview(r) == opt_json(*o),
{
    match o {
        Some(s) => text(s.as_str()),
        None => Json::Null,
    }
}

/// What a pass reports of one channel.
pub fn channel_sync_report(s: &ChannelSync, outcomes: &Vec<PublishOutcome>) -> (r: Json)
    requires
        conflicts_of(outcomes@) <= u32::MAX,
    ensures
        jview(r) == channel_sync_json(*s, outcomes@),
{
    let mut published: Vec<Vec<String>> = Vec::new();
    let mut deferred: Vec<Vec<String>> = Vec::new();
    let mut conflicts: u32 = 0;
    let mut k: usize = 0;
    proof {
        lemma_conflicts_prefix_bound(outcomes@, 0);
    }
    while k < outcomes.len()
        invariant
            k <= outcomes.len(),
            conflicts_of(outcomes@) <= u32::MAX,
            conflicts == conflicts_of(outcomes@.take(k as int)),
            published@.map_values(|l: Vec<String>| l@.map_values(|s: String| s@)) == published_of(
                outcomes@.take(k as int),
            ),
            deferred@.map_values(|l: Vec<String>| l@.map_values(|s: String| s@)) == deferred_of(
                outcomes@.take(k as int),
            ),
        decreases outcomes.len() - k,
    {
        let o = &outcomes[k];
        proof {
            assert(outcomes@.take(k + 1).drop_last() =~= outcomes@.take(k as int));
            lemma_conflicts_prefix_bound(outcomes@, k + 1);
        }
        let ghost pb = published@.map_values(|l: Vec<String>| l@.map_values(|s: String| s@));
        let ghost db = deferred@.map_values(|l: Vec<String>| l@.map_values(|s: String| s@));
        published.push(o.published.clone());
        deferred.push(o.deferred.clone());
        conflicts = conflicts + o.conflicts;
        assert(published@.map_values(|l: Vec<String>| l@.map_values(|s: String| s@)) =~= pb.push(
            o.published@.map_values(|s: String| s@),
        ));
        assert(published_of(outcomes@.take(k + 1)) =~= published_of(outcomes@.take(k as int)).push(
            o.published@.map_values(|s: String| s@),
        ));
        assert(deferred@.map_values(|l: Vec<String>| l@.map_values(|s: String| s@)) =~= db.push(
            o.deferred@.map_values(|s: String| s@),
        ));
        assert(deferred_of(outcomes@.take(k + 1)) =~= deferred_of(outcomes@.take(k as int)).push(
            o.deferred@.map_values(|s: String| s@),
        ));
        k = k + 1;
    }
    assert(outcomes@.take(outcomes.len() as int) =~= outcomes@);
    let all_published = flatten(&published);
    let all_deferred = flatten(&deferred);
    let ghost pv = all_published@.map_values(|x: String| x@);
    let ghost dv = all_deferred@.map_values(|x: String| x@);
    let mut m = members();
    push_member(&mut m, "channelId", text(s.channel_id.as_str()));
    push_member(&mut m, "transport", text(s.transport.as_str()));
    push_member(&mut m, "locator", text(s.locator.as_str()));
    push_member(&mut m, "remoteChanged", Json::Bool(s.remote_changed));
    push_member(&mut m, "remoteHead", opt_value(&s.remote_head));
    push_member(&mut m, "recoveredReservations", Json::UInt(s.recovered));
    let pj = strings_value(&all_published);
    assert(all_published@.map_values(|x: String| JsonView::Str(x@)) =~= pv.map_values(
        |x: Seq<char>| JsonView::Str(x),
    ));
    push_member(&mut m, "publishedMessages", pj);
    let dj = strings_value(&all_deferred);
    assert(all_deferred@.map_values(|x: String| JsonView::Str(x@)) =~= dv.map_values(
        |x: Seq<char>| JsonView::Str(x),
    ));
    push_member(&mut m, "deferredMessages", dj);
    push_member(&mut m, "publishConflicts", Json::UInt(conflicts as u64));
    push_member(&mut m, "fetchedPublications", Json::UInt(s.fetched_publications));
    push_member(&mut m, "fetchedControlObjects", Json::UInt(s.fetched_control));
    push_member(&mut m, "fetchedMessageObjects", Json::UInt(s.fetched_messages));
    push_member(&mut m, "receivedMessages", strings_value(&s.received));
    push_member(&mut m, "receiptError", opt_value(&s.receipt_error));
    push_member(&mut m, "cursor", opt_value(&s.cursor));
    assert(members_view(m@) =~= match channel_sync_json(*s, outcomes@) {
        JsonView::Object(p) => p,
        _ => Seq::empty(),
    });
    object(m)
}

proof fn lemma_conflicts_prefix_bound(o: Seq<PublishOutcome>, k: int)
    requires
        0 <= k <= o.len(),
    ensures
        conflicts_of(o.take(k)) <= conflicts_of(o),
        conflicts_of(o.take(k)) >= 0,
    decreases o.len() - k,
{
    if k < o.len() {
        lemma_conflicts_prefix_bound(o, k + 1);
        assert(o.take(k + 1).drop_last() =~= o.take(k));
    } else {
        assert(o.take(k) =~= o);
    }
    lemma_conflicts_nonnegative(o.take(k));
}

proof fn lemma_conflicts_nonnegative(o: Seq<PublishOutcome>)
    ensures
        conflicts_of(o) >= 0,
    decreases o.len(),
{
    if o.len() > 0 {
        lemma_conflicts_nonnegative(o.drop_last());
    }
}


/// What asking the transport for a message's object under one known
/// ciphertext's hash came to.
pub enum Probe {
    /// The object is there with that content.
    Found,
    /// No object has that name.
    Missing,
    /// An object has that name but other content.
    Mismatch,
    /// The transport failed, as it reported.
    Failed(String),
}

/// What the probes say about publishing a queued message.
pub enum ProbeVerdict {
    /// It was published already, by an earlier attempt.
    AlreadyPublished,
    /// Nothing is published under its name yet.
    Absent,
    /// Something else is published under its name: the history cannot be
    /// trusted and synchronization halts.
    Conflict,
    /// The transport failed.
    Failed(String),
}

/// The probes, one per ciphertext this message has had, read in order: the
/// first that finds it or finds nothing decides; a transport failure stops
/// the reading; only when every one finds other content is it a conflict.
pub open spec fn probe_verdict_of(probes: Seq<Probe>) -> ProbeVerdict
    decreases probes.len(),
{
    if probes.len() == 0 {
        ProbeVerdict::Absent
    } else {
        match probes[0] {
            Probe::Found => ProbeVerdict::AlreadyPublished,
            Probe::Missing => ProbeVerdict::Absent,
            Probe::Failed(e) => ProbeVerdict::Failed(e),
            Probe::Mismatch => if probes.len() == 1 {
                ProbeVerdict::Conflict
            } else {
                probe_verdict_of(probes.drop_first())
            },
        }
    }
}

/// Reads the probes of a queued message's name.
pub fn probe_verdict(probes: &Vec<Probe>) -> (r: ProbeVerdict)
    ensures
        match (r, probe_verdict_of(probes@)) {
            (ProbeVerdict::AlreadyPublished, ProbeVerdict::AlreadyPublished) => true,
            (ProbeVerdict::Absent, ProbeVerdict::Absent) => true,
            (ProbeVerdict::Conflict, ProbeVerdict::Conflict) => true,
            (ProbeVerdict::Failed(a), ProbeVerdict::Failed(b)) => a@ == b@,
            _ => false,
        },
{
    let mut k: usize = 0;
    assert(probes@.skip(0) =~= probes@);
    while k < probes.len()
        invariant
            k <= probes.len(),
            probe_verdict_of(probes@.skip(k as int)) == probe_verdict_of(probes@),
        decreases probes.len() - k,
    {
        let ghost rest = probes@.skip(k as int);
        assert(rest[0] == probes@[k as int]);
        assert(rest.drop_first() =~= probes@.skip(k + 1));
        match &probes[k] {
            Probe::Found => return ProbeVerdict::AlreadyPublished,
            Probe::Missing => return ProbeVerdict::Absent,
            Probe::Failed(e) => return ProbeVerdict::Failed(e.clone()),
            Probe::Mismatch => {
                if k + 1 == probes.len() {
                    return ProbeVerdict::Conflict;
                }
            },
        }
        k = k + 1;
    }
    assert(probes@.skip(k as int).len() == 0);
    ProbeVerdict::Absent
}

/// What to do with a queued message, given the epoch it was sealed under
/// and the roster's epoch now.
#[derive(Debug, Clone, Copy, PartialEq, Eq, Structural)]
pub enum EpochDecision {
    /// It names an epoch the roster has not reached: refused.
    OutOfOrder {
        /// The roster's epoch.
        expected: u64,
        /// The message's epoch.
        found: u64,
    },
    /// It must be resealed, and there is no device key here to do it:
    /// wait for a pass that has one.
    Defer,
    /// It must be resealed, but was queued without the material that
    /// needs: recorded as a failed attempt, and waits.
    Unresealable,
    /// Reseal it for the current roster, then publish.
    Reseal,
    /// Publish it as it is.
    Publish,
}

/// The decision about a queued message: one sealed under a later epoch
/// than the roster's is out of order; one sealed under an earlier epoch, or
/// whose recipients' order went stale, is resealed when it can be.
pub open spec fn epoch_decision_of(
    message_epoch: u64,
    roster_epoch: u64,
    recipients_stale: bool,
    has_device: bool,
    has_material: bool,
) -> EpochDecision {
    if message_epoch > roster_epoch {
        EpochDecision::OutOfOrder { expected: roster_epoch, found: message_epoch }
    } else if message_epoch < roster_epoch || recipients_stale {
        if !has_device {
            EpochDecision::Defer
        } else if !has_material {
            EpochDecision::Unresealable
        } else {
            EpochDecision::Reseal
        }
    } else {
        EpochDecision::Publish
    }
}

/// Decides what to do with a queued message before publishing it.
pub fn epoch_decision(
    message_epoch: u64,
    roster_epoch: u64,
    recipients_stale: bool,
    has_device: bool,
    has_material: bool,
) -> (r: EpochDecision)
    ensures
        r == epoch_decision_of(message_epoch, roster_epoch, recipients_stale, has_device, has_material),
{
    if message_epoch > roster_epoch {
        EpochDecision::OutOfOrder { expected: roster_epoch, found: message_epoch }
    } else if message_epoch < roster_epoch || recipients_stale {
        if !has_device {
            EpochDecision::Defer
        } else if !has_material {
            EpochDecision::Unresealable
        } else {
            EpochDecision::Reseal
        }
    } else {
        EpochDecision::Publish
    }
}

/// A message is never published under an epoch other than the roster's:
/// whatever is decided to publish, as it is or after resealing, is sealed
/// for the roster as it stands.
pub proof fn law_published_messages_match_the_roster(
    message_epoch: u64,
    roster_epoch: u64,
    recipients_stale: bool,
    has_device: bool,
    has_material: bool,
)
    ensures
        epoch_decision_of(message_epoch, roster_epoch, recipients_stale, has_device, has_material)
            is Publish ==> message_epoch == roster_epoch && !recipients_stale,
        epoch_decision_of(message_epoch, roster_epoch, recipients_stale, has_device, has_material)
            is Reseal ==> message_epoch < roster_epoch || recipients_stale,
{
}

/// The report of `hrc sync --once`: when it ran, what lapsed before it
/// fetched, and each channel's report in order.
pub open spec fn sync_once_json(synced_at: Seq<char>, expired: Seq<String>, channels: Seq<Json>) -> JsonView {
    JsonView::Object(
        seq![
            ("status"@, JsonView::Str("ok"@)),
            ("syncedAt"@, JsonView::Str(synced_at)),
            ("expired"@, JsonView::Array(expired.map_values(|m: String| JsonView::Str(m@)))),
            ("channels"@, JsonView::Array(items_view(channels))),
        ],
    )
}

/// The report of one synchronization pass over every channel.
pub fn sync_once_report(synced_at: &str, expired: &Vec<String>, channels: Vec<Json>) -> (r: Json)
    ensures
        jview(r) == sync_once_json(synced_at@, expired@, channels@),
{
    let mut m = members();
    push_member(&mut m, "status", text("ok"));
    push_member(&mut m, "syncedAt", text(synced_at));
    push_member(&mut m, "expired", strings_value(expired));
    push_member(&mut m, "channels", array(channels));
    assert(members_view(m@) =~= match sync_once_json(synced_at@, expired@, channels@) {
        JsonView::Object(p) => p,
        _ => Seq::empty(),
    });
    object(m)
}

/// Why a channel is not synchronized at all.
pub enum ChannelRefusal {
    /// Synchronization halted earlier, for this reason; only a person can
    /// resume it.
    Halted(String),
    /// The channel names a transport this build does not speak.
    UnsupportedTransport(CliError),
}

/// What a pass refuses before touching a channel: a halted channel, then a
/// transport other than Git.
pub fn channel_refusal(halted_reason: Option<&str>, transport_kind: &str) -> (r: Option<
    ChannelRefusal,
>)
    ensures
        match halted_reason {
            Some(reason) => r matches Some(ChannelRefusal::Halted(why)) && why@ == reason@,
            None => if transport_kind@ == "git"@ {
                r is None
            } else {
                r matches Some(
                    ChannelRefusal::UnsupportedTransport(CliError::Io { action, detail }),
                ) && action@ == "open the configured transport"@ && detail@
                    == "unsupported transport "@ + transport_kind@
            },
        },
{
    match halted_reason {
        Some(reason) => Some(ChannelRefusal::Halted(reason.to_owned())),
        None => {
            if equals_str(&chars_of(transport_kind), "git") {
                None
            } else {
                let mut detail = chars_of("unsupported transport ");
                crate::text::extend_str(&mut detail, transport_kind);
                Some(
                    ChannelRefusal::UnsupportedTransport(
                        CliError::Io {
                            action: "open the configured transport".to_owned(),
                            detail: crate::text::string_of(detail.as_slice()),
                        },
                    ),
                )
            }
        },
    }
}

/// A failure while receiving halts the channel exactly when it says the
/// received history cannot be trusted: every core, protocol and transport
/// failure does, and no other failure does.
pub proof fn law_untrusted_history_halts(reason: String, e: CliError)
    ensures
        halts_on(CliError::Core(reason)),
        halts_on(CliError::Protocol(reason)),
        halts_on(CliError::Transport(reason)),
        !halts_on(CliError::Git(reason)),
        !halts_on(CliError::Storage(reason)),
        !halts_on(CliError::Crypto(reason)),
        !halts_on(CliError::Ipc(reason)),
        !halts_on(CliError::NoPassphrase),
        !halts_on(CliError::DaemonUnavailable),
        !(e is Core) && !(e is Protocol) && !(e is Transport) ==> !halts_on(e),
{
}

} // verus!
