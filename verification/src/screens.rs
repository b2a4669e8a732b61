//! What the trusted screens are given to draw: the roster with this
//! installation marked, the people it can write to, and the messages it can
//! answer.
use vstd::prelude::*;

use crate::inbox::InboxEntry;
use crate::roster::{RosterDevice, RosterListing, RosterMember};
use crate::text::{chars_of, equals_str};

verus! {

broadcast use vstd::string::group_string_axioms;

/// The names this installation gave principals: pairs of principal and
/// name, the first pair for a principal being the one that counts.
pub open spec fn alias_in(aliases: Seq<(String, String)>, principal: Seq<char>) -> Option<Seq<char>>
    decreases aliases.len(),
{
    if aliases.len() == 0 {
        None
    } else if aliases[0].0@ == principal {
        Some(aliases[0].1@)
    } else {
        alias_in(aliases.drop_first(), principal)
    }
}

/// The name recorded for `principal`, if any.
pub fn alias_of(aliases: &Vec<(String, String)>, principal: &str) -> (r: Option<String>)
    ensures
        match r {
            Some(n) => alias_in(aliases@, principal@) == Some(n@),
            None => alias_in(aliases@, principal@) is None,
        },
{
    let p = chars_of(principal);
    let mut k: usize = 0;
    assert(aliases@.skip(0) =~= aliases@);
    while k < aliases.len()
        invariant
            k <= aliases.len(),
            p@ == principal@,
            alias_in(aliases@, principal@) == alias_in(aliases@.skip(k as int), principal@),
        decreases aliases.len() - k,
    {
        assert(aliases@.skip(k as int).drop_first() =~= aliases@.skip(k + 1));
        if equals_str(&p, aliases[k].0.as_str()) {
            return Some(aliases[k].1.clone());
        }
        k = k + 1;
    }
    assert(aliases@.skip(k as int).len() == 0);
    None
}

/// An optional string's characters.
pub open spec fn opt_chars(o: Option<String>) -> Option<Seq<char>> {
    match o {
        Some(s) => Some(s@),
        None => None,
    }
}

/// One device as the membership screen draws it.
pub struct MemberDevice {
    /// The device identifier.
    pub device_id: String,
    /// Whether it is still active.
    pub active: bool,
}

/// One member as the membership screen draws it.
pub struct MemberRow {
    /// The member's principal.
    pub principal_id: String,
    /// Whether the member is this installation, which the screen refuses to
    /// remove.
    pub is_local: bool,
    /// The name this installation gave them, if any.
    pub display_name: Option<String>,
    /// Whether they administer the channel.
    pub administrator: bool,
    /// Whether they are still a member.
    pub active: bool,
    /// Their devices.
    pub devices: Vec<MemberDevice>,
}

/// Whether a screen row draws exactly the listed member.
pub open spec fn draws(
    row: MemberRow,
    m: RosterMember,
    local_principal: Seq<char>,
    aliases: Seq<(String, String)>,
) -> bool {
    &&& row.principal_id@ == m.principal_id@
    &&& row.is_local == (m.principal_id@ == local_principal)
    &&& opt_chars(row.display_name) == alias_in(aliases, m.principal_id@)
    &&& row.administrator == m.administrator
    &&& row.active == m.active
    &&& row.devices.len() == m.devices.len()
    &&& forall|j: int|
        0 <= j < m.devices.len() ==> (#[trigger] row.devices@[j]).device_id@
            == m.devices@[j].device_id@ && row.devices@[j].active == m.devices@[j].active
}

fn screen_devices(devices: &Vec<RosterDevice>) -> (r: Vec<MemberDevice>)
    ensures
        r.len() == devices.len(),
        forall|j: int|
            0 <= j < devices.len() ==> (#[trigger] r@[j]).device_id@ == devices@[j].device_id@
                && r@[j].active == devices@[j].active,
{
    let mut out: Vec<MemberDevice> = Vec::new();
    let mut k: usize = 0;
    while k < devices.len()
        invariant
            k <= devices.len(),
            out.len() == k,
            forall|j: int|
                0 <= j < k ==> (#[trigger] out@[j]).device_id@ == devices@[j].device_id@
                    && out@[j].active == devices@[j].active,
        decreases devices.len() - k,
    {
        out.push(MemberDevice { device_id: devices[k].device_id.clone(), active: devices[k].active });
        k = k + 1;
    }
    out
}

/// The roster as the membership screen draws it: every member in roster
/// order, marked local exactly when the member is this installation's
/// principal.
pub fn member_rows(
    listing: &RosterListing,
    local_principal: &str,
    aliases: &Vec<(String, String)>,
) -> (r: Vec<MemberRow>)
    ensures
        r.len() == listing.members.len(),
        forall|i: int|
            0 <= i < r.len() ==> draws(
                #[trigger] r@[i],
                listing.members@[i],
                local_principal@,
                aliases@,
            ),
{
    let local = chars_of(local_principal);
    let mut out: Vec<MemberRow> = Vec::new();
    let mut k: usize = 0;
    while k < listing.members.len()
        invariant
            k <= listing.members.len(),
            local@ == local_principal@,
            out.len() == k,
            forall|i: int|
                0 <= i < k ==> draws(
                    #[trigger] out@[i],
                    listing.members@[i],
                    local_principal@,
                    aliases@,
                ),
        decreases listing.members.len() - k,
    {
        let m = &listing.members[k];
        let row = MemberRow {
            principal_id: m.principal_id.clone(),
            is_local: equals_str(&local, m.principal_id.as_str()),
            display_name: alias_of(aliases, m.principal_id.as_str()),
            administrator: m.administrator,
            active: m.active,
            devices: screen_devices(&m.devices),
        };
        out.push(row);
        k = k + 1;
    }
    out
}

/// Exactly one row of the membership screen is this installation when its
/// principal is listed once, and no other member is marked local.
pub proof fn law_only_this_installation_is_local(
    rows: Seq<MemberRow>,
    listing: RosterListing,
    local_principal: Seq<char>,
    aliases: Seq<(String, String)>,
)
    requires
        rows.len() == listing.members.len(),
        forall|i: int|
            0 <= i < rows.len() ==> draws(
                #[trigger] rows[i],
                listing.members@[i],
                local_principal,
                aliases,
            ),
    ensures
        forall|i: int| 0 <= i < rows.len() ==> (#[trigger] rows[i].is_local <==> rows[i].principal_id@
            == local_principal),
{
}

/// Someone a message can be written to, as the compose screen offers them.
pub struct Recipient {
    /// The principal written to.
    pub principal_id: String,
    /// The name this installation gave them, if any.
    pub display_name: Option<String>,
    /// Whether they are still a member.
    pub active: bool,
    /// The kind of message being answered, for a reply.
    pub answering: Option<String>,
    /// The message being answered, for a reply.
    pub in_reply_to: Option<String>,
}

/// Whether a recipient offers exactly the listed member, as a new message.
pub open spec fn offers_member(r: Recipient, m: RosterMember, aliases: Seq<(String, String)>) -> bool {
    &&& r.principal_id@ == m.principal_id@
    &&& opt_chars(r.display_name) == alias_in(aliases, m.principal_id@)
    &&& r.active == m.active
    &&& r.answering is None
    &&& r.in_reply_to is None
}

/// Whether a member is someone other than this installation.
pub open spec fn is_other(m: RosterMember, local_principal: Seq<char>) -> bool {
    m.principal_id@ != local_principal
}

/// The members other than this installation, in roster order.
pub open spec fn others(members: Seq<RosterMember>, local_principal: Seq<char>) -> Seq<RosterMember> {
    members.filter(|m: RosterMember| is_other(m, local_principal))
}

proof fn lemma_others_push(s: Seq<RosterMember>, m: RosterMember, local_principal: Seq<char>)
    ensures
        others(s.push(m), local_principal) == if m.principal_id@ != local_principal {
            others(s, local_principal).push(m)
        } else {
            others(s, local_principal)
        },
{
    reveal(Seq::filter);
    assert(s.push(m).drop_last() =~= s);
}

/// Everyone in the roster this installation can write to: every member but
/// itself, which would otherwise be the preselected first entry.
pub fn addressable(listing: &RosterListing, local_principal: &str, aliases: &Vec<(String, String)>) -> (r:
    Vec<Recipient>)
    ensures
        r.len() == others(listing.members@, local_principal@).len(),
        forall|i: int|
            0 <= i < r.len() ==> offers_member(
                #[trigger] r@[i],
                others(listing.members@, local_principal@)[i],
                aliases@,
            ),
{
    let local = chars_of(local_principal);
    let mut out: Vec<Recipient> = Vec::new();
    let mut k: usize = 0;
    assert(listing.members@.take(0) =~= Seq::<RosterMember>::empty());
    proof {
        reveal(Seq::filter);
    }
    while k < listing.members.len()
        invariant
            k <= listing.members.len(),
            local@ == local_principal@,
            out.len() == others(listing.members@.take(k as int), local_principal@).len(),
            forall|i: int|
                0 <= i < out.len() ==> offers_member(
                    #[trigger] out@[i],
                    others(listing.members@.take(k as int), local_principal@)[i],
                    aliases@,
                ),
        decreases listing.members.len() - k,
    {
        let m = &listing.members[k];
        proof {
            assert(listing.members@.take(k + 1) =~= listing.members@.take(k as int).push(*m));
            lemma_others_push(listing.members@.take(k as int), *m, local_principal@);
        }
        if !equals_str(&local, m.principal_id.as_str()) {
            out.push(
                Recipient {
                    principal_id: m.principal_id.clone(),
                    display_name: alias_of(aliases, m.principal_id.as_str()),
                    active: m.active,
                    answering: None,
                    in_reply_to: None,
                },
            );
        }
        k = k + 1;
    }
    assert(listing.members@.take(listing.members.len() as int) =~= listing.members@);
    out
}

/// This installation is never offered as its own recipient, and every other
/// member is.
pub proof fn law_never_addressed_to_itself(members: Seq<RosterMember>, local_principal: Seq<char>)
    ensures
        forall|i: int|
            0 <= i < others(members, local_principal).len() ==> (#[trigger] others(
                members,
                local_principal,
            )[i]).principal_id@ != local_principal,
        forall|i: int|
            0 <= i < members.len() && members[i].principal_id@ != local_principal
                ==> #[trigger] others(members, local_principal).contains(members[i]),
{
    let pred = |m: RosterMember| is_other(m, local_principal);
    assert forall|i: int| 0 <= i < others(members, local_principal).len() implies (#[trigger] others(
        members,
        local_principal,
    )[i]).principal_id@ != local_principal by {
        members.lemma_filter_pred(pred, i);
    }
    assert forall|i: int|
        0 <= i < members.len() && members[i].principal_id@ != local_principal implies #[trigger] others(
        members,
        local_principal,
    ).contains(members[i]) by {
        members.lemma_filter_contains(pred, i);
    }
}

/// Whether an inbound message can be answered: it came from someone else
/// and is still open or was delivered.
pub open spec fn is_answerable(e: InboxEntry, local_principal: Seq<char>) -> bool {
    e.sender_principal@ != local_principal && (e.disposition@ == "quarantined"@ || e.disposition@
        == "approved"@ || e.disposition@ == "edited"@)
}

/// The answerable messages among `entries`, in order.
pub open spec fn answerable_of(entries: Seq<InboxEntry>, local_principal: Seq<char>) -> Seq<InboxEntry> {
    entries.filter(|e: InboxEntry| is_answerable(e, local_principal))
}

/// Whether a recipient offers a reply to exactly this message.
pub open spec fn offers_reply(r: Recipient, e: InboxEntry, aliases: Seq<(String, String)>) -> bool {
    &&& r.principal_id@ == e.sender_principal@
    &&& opt_chars(r.display_name) == alias_in(aliases, e.sender_principal@)
    &&& r.active
    &&& opt_chars(r.answering) == Some(e.kind@)
    &&& opt_chars(r.in_reply_to) == Some(e.message_id@)
}

proof fn lemma_answerable_push(s: Seq<InboxEntry>, e: InboxEntry, local_principal: Seq<char>)
    ensures
        answerable_of(s.push(e), local_principal) == if is_answerable(e, local_principal) {
            answerable_of(s, local_principal).push(e)
        } else {
            answerable_of(s, local_principal)
        },
{
    reveal(Seq::filter);
    assert(s.push(e).drop_last() =~= s);
}

/// The messages of one channel that can be answered, as reply targets. The
/// body is not read: an unapproved body stays sealed.
pub fn answerable(entries: &Vec<InboxEntry>, local_principal: &str, aliases: &Vec<(String, String)>) -> (r:
    Vec<Recipient>)
    ensures
        r.len() == answerable_of(entries@, local_principal@).len(),
        forall|i: int|
            0 <= i < r.len() ==> offers_reply(
                #[trigger] r@[i],
                answerable_of(entries@, local_principal@)[i],
                aliases@,
            ),
{
    let local = chars_of(local_principal);
    let mut out: Vec<Recipient> = Vec::new();
    let mut k: usize = 0;
    proof {
        reveal(Seq::filter);
        assert(entries@.take(0) =~= Seq::<InboxEntry>::empty());
    }
    while k < entries.len()
        invariant
            k <= entries.len(),
            local@ == local_principal@,
            out.len() == answerable_of(entries@.take(k as int), local_principal@).len(),
            forall|i: int|
                0 <= i < out.len() ==> offers_reply(
                    #[trigger] out@[i],
                    answerable_of(entries@.take(k as int), local_principal@)[i],
                    aliases@,
                ),
        decreases entries.len() - k,
    {
        let e = &entries[k];
        proof {
            assert(entries@.take(k + 1) =~= entries@.take(k as int).push(*e));
            lemma_answerable_push(entries@.take(k as int), *e, local_principal@);
        }
        let d = chars_of(e.disposition.as_str());
        if !equals_str(&local, e.sender_principal.as_str()) && (equals_str(&d, "quarantined")
            || equals_str(&d, "approved") || equals_str(&d, "edited")) {
            out.push(
                Recipient {
                    principal_id: e.sender_principal.clone(),
                    display_name: alias_of(aliases, e.sender_principal.as_str()),
                    active: true,
                    answering: Some(e.kind.clone()),
                    in_reply_to: Some(e.message_id.clone()),
                },
            );
        }
        k = k + 1;
    }
    assert(entries@.take(entries.len() as int) =~= entries@);
    out
}

} // verus!
