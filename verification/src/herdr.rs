//! The decisions behind the Herdr plugin: where the inbox pane is
//! remembered, what the sidebar counts, and whether the inbox is placed on
//! screen when Herdr starts.
//!
//! Placing the inbox is never allowed to fail the startup hook: each reason
//! not to place it is reported in the hook's answer instead.
use vstd::prelude::*;

use crate::json::{jview, members, members_view, object, push_member, string, text, Json, JsonView};
use crate::paths::{join, joined, Platform};
use crate::text::{chars_of, string_of, trim, trimmed};

verus! {

broadcast use vstd::string::group_string_axioms;

/// The file, inside the plugin's state directory, that holds the pane the
/// inbox was last placed in.
pub open spec fn inbox_pane_file() -> Seq<char> {
    "inbox-pane"@
}

/// Where the inbox pane is recorded: in the state directory Herdr creates
/// for the plugin, when it named a non-empty one.
pub fn inbox_pane_record(platform: &Platform, state_directory: Option<&str>) -> (r: Option<String>)
    ensures
        match state_directory {
            Some(d) if d@.len() > 0 => r matches Some(p) && p@ == joined(
                *platform,
                d@,
                inbox_pane_file(),
            ),
            _ => r is None,
        },
{
    match state_directory {
        Some(d) => {
            if d.unicode_len() == 0 {
                None
            } else {
                Some(join(platform, d, "inbox-pane"))
            }
        },
        None => None,
    }
}

/// The pane recorded in the file: its text without surrounding whitespace,
/// when anything is left.
pub fn recorded_pane(recorded: &str) -> (r: Option<String>)
    ensures
        match r {
            Some(p) => p@ == trim(recorded@) && p@.len() > 0,
            None => trim(recorded@).len() == 0,
        },
{
    let t = trimmed(&chars_of(recorded));
    if t.len() == 0 {
        None
    } else {
        Some(string_of(t.as_slice()))
    }
}

/// What the sidebar needs of one channel.
pub struct ChannelCounts {
    /// The channel's local name.
    pub local_name: String,
    /// Its roster epoch.
    pub roster_epoch: u64,
    /// Messages not read yet.
    pub unread: u64,
    /// Messages awaiting a human decision.
    pub pending_approval: u64,
    /// Whether synchronization is halted.
    pub halted: bool,
    /// Questions this installation owes an answer to.
    pub owed: u64,
    /// Questions this installation is waiting on an answer to.
    pub awaiting: u64,
}

/// One channel's line in the sidebar.
pub struct ChannelStatus {
    /// The channel's local name.
    pub local_name: String,
    /// Its roster epoch.
    pub roster_epoch: u64,
    /// Messages awaiting a human decision.
    pub pending: u64,
    /// Whether synchronization is halted.
    pub halted: bool,
}

/// The sidebar's counts over every configured channel.
pub struct SidebarTally {
    /// One status per channel, in the order the channels were listed.
    pub statuses: Vec<ChannelStatus>,
    /// Unread messages over every channel.
    pub unread: u64,
    /// Questions owed an answer over every channel.
    pub unanswered: u64,
    /// Questions awaiting an answer over every channel.
    pub awaiting_answer: u64,
}

/// A sum that stops at the largest count rather than wrapping.
pub open spec fn capped(n: int) -> int {
    if n > u64::MAX {
        u64::MAX as int
    } else {
        n
    }
}

/// The capped running sum of one count over the channels, added in order.
pub open spec fn capped_total(channels: Seq<ChannelCounts>, pick: spec_fn(ChannelCounts) -> u64) -> int
    decreases channels.len(),
{
    if channels.len() == 0 {
        0
    } else {
        capped(capped_total(channels.drop_last(), pick) + pick(channels.last()))
    }
}

/// Whether a status draws exactly a channel's line.
pub open spec fn status_of(s: ChannelStatus, c: ChannelCounts) -> bool {
    &&& s.local_name@ == c.local_name@
    &&& s.roster_epoch == c.roster_epoch
    &&& s.pending == c.pending_approval
    &&& s.halted == c.halted
}

proof fn lemma_total_in_range(channels: Seq<ChannelCounts>, pick: spec_fn(ChannelCounts) -> u64)
    ensures
        0 <= capped_total(channels, pick) <= u64::MAX,
    decreases channels.len(),
{
    if channels.len() > 0 {
        lemma_total_in_range(channels.drop_last(), pick);
    }
}

/// The sidebar's counts: a status per channel, and totals that saturate
/// rather than wrap.
pub fn sidebar_tally(channels: &Vec<ChannelCounts>) -> (t: SidebarTally)
    ensures
        t.statuses.len() == channels.len(),
        forall|i: int| 0 <= i < channels.len() ==> status_of(#[trigger] t.statuses@[i], channels@[i]),
        t.unread == capped_total(channels@, |c: ChannelCounts| c.unread),
        t.unanswered == capped_total(channels@, |c: ChannelCounts| c.owed),
        t.awaiting_answer == capped_total(channels@, |c: ChannelCounts| c.awaiting),
{
    let ghost unread_of = |c: ChannelCounts| c.unread;
    let ghost owed_of = |c: ChannelCounts| c.owed;
    let ghost awaiting_of = |c: ChannelCounts| c.awaiting;
    let mut statuses: Vec<ChannelStatus> = Vec::new();
    let mut unread: u64 = 0;
    let mut unanswered: u64 = 0;
    let mut awaiting_answer: u64 = 0;
    let mut k: usize = 0;
    while k < channels.len()
        invariant
            k <= channels.len(),
            statuses.len() == k,
            forall|i: int| 0 <= i < k ==> status_of(#[trigger] statuses@[i], channels@[i]),
            unread == capped_total(channels@.take(k as int), unread_of),
            unanswered == capped_total(channels@.take(k as int), owed_of),
            awaiting_answer == capped_total(channels@.take(k as int), awaiting_of),
            unread_of == (|c: ChannelCounts| c.unread),
            owed_of == (|c: ChannelCounts| c.owed),
            awaiting_of == (|c: ChannelCounts| c.awaiting),
        decreases channels.len() - k,
    {
        let c = &channels[k];
        proof {
            let s = channels@.take(k + 1);
            assert(s.drop_last() =~= channels@.take(k as int));
            assert(s.last() == channels@[k as int]);
        }
        unread = unread.saturating_add(c.unread);
        unanswered = unanswered.saturating_add(c.owed);
        awaiting_answer = awaiting_answer.saturating_add(c.awaiting);
        statuses.push(
            ChannelStatus {
                local_name: c.local_name.clone(),
                roster_epoch: c.roster_epoch,
                pending: c.pending_approval,
                halted: c.halted,
            },
        );
        k = k + 1;
    }
    assert(channels@.take(k as int) =~= channels@);
    SidebarTally { statuses, unread, unanswered, awaiting_answer }
}

/// What happened at each stage of placing the inbox when Herdr starts.
pub enum PlacementEvent {
    /// The hook started, with whether this installation asked for the inbox
    /// at startup.
    Begin {
        /// The `inbox.open_at_startup` setting.
        open_at_startup: bool,
    },
    /// The local database was read: the number of channels, or why it
    /// could not be.
    Channels(Result<u64, String>),
    /// The connection to the host, or why there is none.
    Connected(Result<(), String>),
    /// The pane recorded at the last startup, when the host says it is
    /// still open.
    Remembered(Option<String>),
    /// The pane the inbox was opened in, or why it could not be.
    Opened(Result<String, String>),
    /// The pane was narrowed, or left at the size the host chose.
    Narrowed {
        /// The pane the inbox is in.
        pane: String,
        /// Whether narrowing it worked.
        narrowed: bool,
    },
}

/// What placing the inbox does next.
pub enum PlacementAction {
    /// Read the configured channels.
    CountChannels,
    /// Connect to the host.
    ConnectHost,
    /// Ask whether the pane recorded last time is still open.
    CheckRemembered,
    /// Open the inbox without focus.
    OpenInbox,
    /// Record the pane and narrow it to the configured share of the window.
    RecordAndNarrow(String),
    /// Stop, with this answer.
    Answer(Json),
}

/// The answer of a stage that decided not to place the inbox.
pub open spec fn not_opened(reason: Seq<char>) -> JsonView {
    JsonView::Object(seq![("opened"@, JsonView::Bool(false)), ("reason"@, JsonView::Str(reason))])
}

/// Why nothing was placed when the setting is off.
pub open spec fn setting_off() -> Seq<char> {
    "`inbox.open_at_startup` is off in this installation's configuration"@
}

/// Why nothing was placed before any channel exists: a pane whose only
/// content is an error is worse than no pane.
pub open spec fn no_channel_yet() -> Seq<char> {
    "no channel is configured yet; `Remote channel setup` is where that starts"@
}

/// What placing the inbox does after `event`. The answer after narrowing
/// leaves the configured share for the caller to add.
pub open spec fn placement_after(event: PlacementEvent) -> (bool, Option<JsonView>) {
    match event {
        PlacementEvent::Begin { open_at_startup } => if open_at_startup {
            (false, None)
        } else {
            (true, Some(not_opened(setting_off())))
        },
        PlacementEvent::Channels(Ok(n)) => if n == 0 {
            (true, Some(not_opened(no_channel_yet())))
        } else {
            (false, None)
        },
        PlacementEvent::Channels(Err(reason)) => (true, Some(not_opened(reason@))),
        PlacementEvent::Connected(Ok(())) => (false, None),
        PlacementEvent::Connected(Err(reason)) => (true, Some(not_opened(reason@))),
        PlacementEvent::Remembered(Some(pane)) => (
            true,
            Some(
                JsonView::Object(
                    seq![
                        ("opened"@, JsonView::Bool(false)),
                        ("reason"@, JsonView::Str("already open"@)),
                        ("pane"@, JsonView::Str(pane@)),
                    ],
                ),
            ),
        ),
        PlacementEvent::Remembered(None) => (false, None),
        PlacementEvent::Opened(Ok(_)) => (false, None),
        PlacementEvent::Opened(Err(reason)) => (true, Some(not_opened(reason@))),
        PlacementEvent::Narrowed { pane, narrowed } => (
            true,
            Some(
                JsonView::Object(
                    seq![
                        ("opened"@, JsonView::Bool(true)),
                        ("pane"@, JsonView::Str(pane@)),
                        ("narrowed"@, JsonView::Bool(narrowed)),
                    ],
                ),
            ),
        ),
    }
}

fn not_opened_report(reason: String) -> (r: Json)
    ensures
        jview(r) == not_opened(reason@),
{
    let mut m = members();
    push_member(&mut m, "opened", Json::Bool(false));
    push_member(&mut m, "reason", string(reason));
    assert(members_view(m@) =~= match not_opened(reason@) {
        JsonView::Object(p) => p,
        _ => Seq::empty(),
    });
    object(m)
}

/// The next step of placing the inbox: each stage either continues to the
/// next or ends with the reason it stopped.
pub fn placement_next(event: PlacementEvent) -> (a: PlacementAction)
    ensures
        match a {
            PlacementAction::Answer(j) => placement_after(event).0 && placement_after(event).1
                == Some(jview(j)),
            _ => !placement_after(event).0,
        },
        match event {
            PlacementEvent::Begin { open_at_startup: true } => a is CountChannels,
            PlacementEvent::Channels(Ok(n)) => n > 0 ==> a is ConnectHost,
            PlacementEvent::Connected(Ok(())) => a is CheckRemembered,
            PlacementEvent::Remembered(None) => a is OpenInbox,
            PlacementEvent::Opened(Ok(pane)) => a matches PlacementAction::RecordAndNarrow(p) && p@
                == pane@,
            _ => a is Answer,
        },
{
    match event {
        PlacementEvent::Begin { open_at_startup } => {
            if open_at_startup {
                PlacementAction::CountChannels
            } else {
                PlacementAction::Answer(
                    not_opened_report(
                        "`inbox.open_at_startup` is off in this installation's configuration".to_owned(),
                    ),
                )
            }
        },
        PlacementEvent::Channels(Ok(n)) => {
            if n == 0 {
                PlacementAction::Answer(
                    not_opened_report(
                        "no channel is configured yet; `Remote channel setup` is where that starts".to_owned(),
                    ),
                )
            } else {
                PlacementAction::ConnectHost
            }
        },
        PlacementEvent::Channels(Err(reason)) => PlacementAction::Answer(not_opened_report(reason)),
        PlacementEvent::Connected(Ok(())) => PlacementAction::CheckRemembered,
        PlacementEvent::Connected(Err(reason)) => PlacementAction::Answer(not_opened_report(reason)),
        PlacementEvent::Remembered(Some(pane)) => {
            let ghost expected = seq![
                ("opened"@, JsonView::Bool(false)),
                ("reason"@, JsonView::Str("already open"@)),
                ("pane"@, JsonView::Str(pane@)),
            ];
            let mut m = members();
            push_member(&mut m, "opened", Json::Bool(false));
            push_member(&mut m, "reason", text("already open"));
            push_member(&mut m, "pane", string(pane));
            assert(members_view(m@) =~= expected);
            PlacementAction::Answer(object(m))
        },
        PlacementEvent::Remembered(None) => PlacementAction::OpenInbox,
        PlacementEvent::Opened(Ok(pane)) => PlacementAction::RecordAndNarrow(pane),
        PlacementEvent::Opened(Err(reason)) => PlacementAction::Answer(not_opened_report(reason)),
        PlacementEvent::Narrowed { pane, narrowed } => {
            let ghost expected = seq![
                ("opened"@, JsonView::Bool(true)),
                ("pane"@, JsonView::Str(pane@)),
                ("narrowed"@, JsonView::Bool(narrowed)),
            ];
            let mut m = members();
            push_member(&mut m, "opened", Json::Bool(true));
            push_member(&mut m, "pane", string(pane));
            push_member(&mut m, "narrowed", Json::Bool(narrowed));
            assert(members_view(m@) =~= expected);
            PlacementAction::Answer(object(m))
        },
    }
}

} // verus!
