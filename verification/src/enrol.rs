//! Invites, joining, and admitting a joiner.
//!
//! An invite's secret is kept in the key store under a name built from its
//! identifier; a join request travels as an object named after the invite it
//! answers and the request it is. What is published, listed and reported is
//! computed here.
use vstd::prelude::*;

use crate::error::CliError;
use crate::json::{
    items, items_view, jview, members, members_view, object, array, push_item, push_member,
    optional_text, text, Json, JsonView,
};
use crate::text::{
    chars_of, contains_seq, equals_str, extend_str, first_index, has_prefix, has_suffix,
    lemma_first_index_at, matches_at, occurs_at, slice, string_of, ends_with,
};

verus! {

broadcast use vstd::string::group_string_axioms;

/// Whether `c` may occur in a base64url identifier.
pub open spec fn is_base64url_char(c: char) -> bool {
    ('A' <= c && c <= 'Z') || ('a' <= c && c <= 'z') || ('0' <= c && c <= '9') || c == '-' || c
        == '_'
}

/// Where an invite's secret is kept in the key store.
pub open spec fn store_name(invite_id: Seq<char>) -> Seq<char> {
    "invite-"@ + invite_id
}

/// Where an invite secret is kept in the key store: `invite-` and the
/// invite's identifier.
pub fn invite_store_name(invite_id: &str) -> (r: String)
    ensures
        r@ == store_name(invite_id@),
{
    let mut name: Vec<char> = Vec::new();
    extend_str(&mut name, "invite-");
    extend_str(&mut name, invite_id);
    string_of(name.as_slice())
}

/// A store name built from a base64url identifier addresses nothing outside
/// the store: it starts with `invite-` and holds no path separator and no
/// dot, so no `..` either.
pub proof fn law_invite_store_name_stays_in_the_store(invite_id: Seq<char>)
    requires
        forall|i: int| 0 <= i < invite_id.len() ==> is_base64url_char(#[trigger] invite_id[i]),
    ensures
        has_prefix(store_name(invite_id), "invite-"@),
        forall|k: int|
            0 <= k < store_name(invite_id).len() ==> {
                let c = #[trigger] store_name(invite_id)[k];
                c != '/' && c != '\\' && c != '.'
            },
        !contains_seq(store_name(invite_id), ".."@),
{
    reveal_strlit("invite-");
    reveal_strlit("..");
    let name = store_name(invite_id);
    assert(name.subrange(0, 7) =~= "invite-"@);
    assert forall|k: int| 0 <= k < name.len() implies {
        let c = #[trigger] name[k];
        c != '/' && c != '\\' && c != '.'
    } by {
        if k >= 7 {
            assert(name[k] == invite_id[k - 7]);
        }
    }
    if contains_seq(name, ".."@) {
        let at = choose|at: int| occurs_at(name, ".."@, at);
        assert(name.subrange(at, at + 2)[0] == name[at]);
    }
}

/// An invite as this installation records it.
pub struct InviteRecord {
    /// The invite's identifier.
    pub invite_id: String,
    /// Who it was issued for.
    pub intended_for: String,
    /// When it lapses.
    pub expires_at: String,
    /// `open`, `consumed` or `revoked`.
    pub state: String,
}

/// Whether `invites` holds an open invite named `invite_id`.
pub open spec fn holds_open_invite(invites: Seq<InviteRecord>, invite_id: Seq<char>) -> bool {
    exists|i: int|
        0 <= i < invites.len() && (#[trigger] invites[i]).invite_id@ == invite_id
            && invites[i].state@ == "open"@
}

/// Whether this installation issued `invite_id` and it is still open. Only
/// then can a request naming it be checked, because only then is its secret
/// still held.
pub fn is_open_invite(invites: &Vec<InviteRecord>, invite_id: &str) -> (r: bool)
    ensures
        r == holds_open_invite(invites@, invite_id@),
{
    let id = chars_of(invite_id);
    let open = chars_of("open");
    let mut k: usize = 0;
    while k < invites.len()
        invariant
            k <= invites.len(),
            id@ == invite_id@,
            open@ == "open"@,
            forall|i: int|
                0 <= i < k ==> !((#[trigger] invites@[i]).invite_id@ == invite_id@
                    && invites@[i].state@ == "open"@),
        decreases invites.len() - k,
    {
        let inv = &invites[k];
        if equals_str(&id, inv.invite_id.as_str()) && equals_str(&open, inv.state.as_str()) {
            assert(invites@[k as int] == *inv);
            return true;
        }
        k = k + 1;
    }
    false
}

/// The key-store name to load a request's invite from: `None` unless the
/// invite is one this installation issued and still holds open.
pub fn local_invite(invites: &Vec<InviteRecord>, invite_id: &str) -> (r: Option<String>)
    ensures
        match r {
            Some(name) => holds_open_invite(invites@, invite_id@) && name@ == store_name(
                invite_id@,
            ),
            None => !holds_open_invite(invites@, invite_id@),
        },
{
    if is_open_invite(invites, invite_id) {
        Some(invite_store_name(invite_id))
    } else {
        None
    }
}

/// How one invite is listed.
pub open spec fn invite_json(i: InviteRecord) -> JsonView {
    JsonView::Object(
        seq![
            ("inviteId"@, JsonView::Str(i.invite_id@)),
            ("intendedFor"@, JsonView::Str(i.intended_for@)),
            ("expiresAt"@, JsonView::Str(i.expires_at@)),
            ("state"@, JsonView::Str(i.state@)),
        ],
    )
}

/// The report of `hrc invite list`: every invite, without its secret.
pub open spec fn invite_list_json(invites: Seq<InviteRecord>) -> JsonView {
    JsonView::Object(
        seq![
            ("status"@, JsonView::Str("ok"@)),
            ("invites"@, JsonView::Array(invites.map_values(|i: InviteRecord| invite_json(i)))),
        ],
    )
}

/// What `hrc invite list` reports.
pub fn invite_list_report(invites: &Vec<InviteRecord>) -> (r: Json)
    ensures
        jview(r) == invite_list_json(invites@),
{
    let mut list = items();
    let mut k: usize = 0;
    while k < invites.len()
        invariant
            k <= invites.len(),
            items_view(list@) == invites@.take(k as int).map_values(
                |i: InviteRecord| invite_json(i),
            ),
        decreases invites.len() - k,
    {
        let inv = &invites[k];
        let mut entry = members();
        push_member(&mut entry, "inviteId", text(inv.invite_id.as_str()));
        push_member(&mut entry, "intendedFor", text(inv.intended_for.as_str()));
        push_member(&mut entry, "expiresAt", text(inv.expires_at.as_str()));
        push_member(&mut entry, "state", text(inv.state.as_str()));
        assert(members_view(entry@) =~= match invite_json(*inv) {
            JsonView::Object(p) => p,
            _ => Seq::empty(),
        });
        let ghost before = items_view(list@);
        push_item(&mut list, object(entry));
        assert(invites@.take(k + 1).map_values(|i: InviteRecord| invite_json(i)) =~= before.push(
            invite_json(*inv),
        ));
        k = k + 1;
    }
    assert(invites@.take(invites.len() as int) =~= invites@);
    let mut top = members();
    push_member(&mut top, "status", text("ok"));
    push_member(&mut top, "invites", array(list));
    assert(members_view(top@) =~= match invite_list_json(invites@) {
        JsonView::Object(p) => p,
        _ => Seq::empty(),
    });
    object(top)
}

/// The report of `hrc invite revoke`.
pub open spec fn invite_revoke_json(invite_id: Seq<char>) -> JsonView {
    JsonView::Object(
        seq![
            ("status"@, JsonView::Str("ok"@)),
            ("inviteId"@, JsonView::Str(invite_id)),
            ("state"@, JsonView::Str("revoked"@)),
        ],
    )
}

/// What `hrc invite revoke` reports.
pub fn invite_revoke_report(invite_id: &str) -> (r: Json)
    ensures
        jview(r) == invite_revoke_json(invite_id@),
{
    let mut top = members();
    push_member(&mut top, "status", text("ok"));
    push_member(&mut top, "inviteId", text(invite_id));
    push_member(&mut top, "state", text("revoked"));
    assert(members_view(top@) =~= match invite_revoke_json(invite_id@) {
        JsonView::Object(p) => p,
        _ => Seq::empty(),
    });
    object(top)
}

/// A freshly issued invite.
pub struct IssuedInvite {
    /// The invite's identifier.
    pub invite_id: String,
    /// When it lapses.
    pub expires_at: String,
    /// Who it was issued for.
    pub intended_for: String,
    /// The one-time code to hand over.
    pub invite_code: String,
    /// A link that opens the join step, when the channel has a web locator.
    pub join_link: Option<String>,
}

/// The report of `hrc invite create`.
pub open spec fn invite_create_json(i: IssuedInvite) -> JsonView {
    JsonView::Object(
        seq![
            ("status"@, JsonView::Str("ok"@)),
            ("inviteId"@, JsonView::Str(i.invite_id@)),
            ("expiresAt"@, JsonView::Str(i.expires_at@)),
            ("intendedFor"@, JsonView::Str(i.intended_for@)),
            ("inviteCode"@, JsonView::Str(i.invite_code@)),
            (
                "joinLink"@,
                match i.join_link {
                    Some(l) => JsonView::Str(l@),
                    None => JsonView::Null,
                },
            ),
        ],
    )
}

/// What `hrc invite create` reports. The code appears here and nowhere
/// else; the link carries only the public locator.
pub fn invite_create_report(invite: &IssuedInvite) -> (r: Json)
    ensures
        jview(r) == invite_create_json(*invite),
{
    let mut top = members();
    push_member(&mut top, "status", text("ok"));
    push_member(&mut top, "inviteId", text(invite.invite_id.as_str()));
    push_member(&mut top, "expiresAt", text(invite.expires_at.as_str()));
    push_member(&mut top, "intendedFor", text(invite.intended_for.as_str()));
    push_member(&mut top, "inviteCode", text(invite.invite_code.as_str()));
    let link = match &invite.join_link {
        Some(l) => Some(l.as_str()),
        None => None,
    };
    push_member(&mut top, "joinLink", optional_text(link));
    assert(members_view(top@) =~= match invite_create_json(*invite) {
        JsonView::Object(p) => p,
        _ => Seq::empty(),
    });
    object(top)
}


/// The position of the last `c` in `s`, or `-1` when there is none.
pub open spec fn last_index(s: Seq<char>, c: char) -> int
    decreases s.len(),
{
    if s.len() == 0 {
        -1
    } else if s.last() == c {
        s.len() - 1
    } else {
        last_index(s.drop_last(), c)
    }
}

proof fn lemma_last_index(s: Seq<char>, c: char)
    ensures
        -1 <= last_index(s, c) < s.len(),
        last_index(s, c) >= 0 ==> s[last_index(s, c)] == c,
        forall|k: int| last_index(s, c) < k < s.len() ==> s[k] != c,
    decreases s.len(),
{
    if s.len() > 0 && s.last() != c {
        lemma_last_index(s.drop_last(), c);
        assert forall|k: int| last_index(s, c) < k < s.len() implies s[k] != c by {
            if k < s.len() - 1 {
                assert(s[k] == s.drop_last()[k]);
            }
        }
    }
}

proof fn lemma_last_index_at(s: Seq<char>, c: char, i: int)
    requires
        -1 <= i < s.len(),
        i >= 0 ==> s[i] == c,
        forall|k: int| i < k < s.len() ==> s[k] != c,
    ensures
        last_index(s, c) == i,
    decreases s.len(),
{
    if s.len() > 0 && i < s.len() - 1 {
        assert forall|k: int| i < k < s.drop_last().len() implies s.drop_last()[k] != c by {
            assert(s.drop_last()[k] == s[k]);
        }
        lemma_last_index_at(s.drop_last(), c, i);
    }
}

/// The name a join request is published under.
pub open spec fn join_object(invite_id: Seq<char>, request_id: Seq<char>) -> Seq<char> {
    "joins/"@ + invite_id + "/"@ + request_id + ".age"@
}

/// The invite a join object names: what follows `joins/`, up to the next
/// `/`. `None` for an object outside `joins/`.
pub open spec fn join_invite_of(name: Seq<char>) -> Option<Seq<char>> {
    if has_prefix(name, "joins/"@) {
        let rest = name.subrange(6, name.len() as int);
        Some(rest.take(first_index(rest, '/')))
    } else {
        None
    }
}

/// The request a join object carries: its last path segment without
/// `.age`, or empty when the segment does not end so.
pub open spec fn join_request_of(name: Seq<char>) -> Seq<char> {
    let segment = name.subrange(last_index(name, '/') + 1, name.len() as int);
    if has_suffix(segment, ".age"@) {
        segment.take(segment.len() - 4)
    } else {
        Seq::empty()
    }
}

/// Whether a join object is the one for `request_id`.
pub open spec fn names_request(name: Seq<char>, request_id: Seq<char>) -> bool {
    has_suffix(name, "/"@ + request_id + ".age"@)
}

/// The name a join request is published under: `joins/<invite>/<request>.age`.
pub fn join_object_name(invite_id: &str, request_id: &str) -> (r: String)
    ensures
        r@ == join_object(invite_id@, request_id@),
{
    let mut name: Vec<char> = Vec::new();
    extend_str(&mut name, "joins/");
    extend_str(&mut name, invite_id);
    extend_str(&mut name, "/");
    extend_str(&mut name, request_id);
    extend_str(&mut name, ".age");
    string_of(name.as_slice())
}

/// The invite a published join object answers.
pub fn join_object_invite(name: &str) -> (r: Option<String>)
    ensures
        opt_string_view(r) == join_invite_of(name@),
{
    proof {
        reveal_strlit("joins/");
    }
    let s = chars_of(name);
    let prefix = chars_of("joins/");
    if !matches_at(&s, &prefix, 0) {
        assert(!has_prefix(name@, "joins/"@)) by {
            if has_prefix(name@, "joins/"@) {
                assert(occurs_at(s@, prefix@, 0));
            }
        }
        return None;
    }
    let ghost rest = s@.subrange(6, s.len() as int);
    let mut end: usize = 6;
    while end < s.len() && s[end] != '/'
        invariant
            6 <= end <= s.len(),
            forall|k: int| 6 <= k < end ==> s@[k] != '/',
        decreases s.len() - end,
    {
        end = end + 1;
    }
    proof {
        assert forall|k: int| 0 <= k < end - 6 implies rest[k] != '/' by {
            assert(rest[k] == s@[k + 6]);
        }
        lemma_first_index_at(rest, '/', end - 6);
    }
    let inv = slice(&s, 6, end);
    assert(inv@ =~= rest.take(end - 6));
    Some(string_of(inv.as_slice()))
}

/// The request identifier of a published join object.
pub fn join_object_request(name: &str) -> (r: String)
    ensures
        r@ == join_request_of(name@),
{
    proof {
        reveal_strlit(".age");
    }
    let s = chars_of(name);
    let mut start: usize = s.len();
    while start > 0 && s[start - 1] != '/'
        invariant
            start <= s.len(),
            forall|k: int| start <= k < s.len() ==> s@[k] != '/',
        decreases start,
    {
        start = start - 1;
    }
    proof {
        lemma_last_index_at(s@, '/', start - 1);
    }
    let segment = slice(&s, start, s.len());
    let suffix = chars_of(".age");
    if ends_with(&segment, &suffix) {
        let id = slice(&segment, 0, segment.len() - 4);
        assert(id@ =~= segment@.take(segment.len() - 4));
        string_of(id.as_slice())
    } else {
        let empty: Vec<char> = Vec::new();
        assert(empty@ =~= Seq::<char>::empty());
        string_of(empty.as_slice())
    }
}

/// Whether the published join object `name` is the one for `request_id`.
pub fn is_request_object(name: &str, request_id: &str) -> (r: bool)
    ensures
        r == names_request(name@, request_id@),
{
    let s = chars_of(name);
    let mut tail: Vec<char> = Vec::new();
    extend_str(&mut tail, "/");
    extend_str(&mut tail, request_id);
    extend_str(&mut tail, ".age");
    ends_with(&s, &tail)
}

/// The characters of an optional string.
pub open spec fn opt_string_view(o: Option<String>) -> Option<Seq<char>> {
    match o {
        Some(s) => Some(s@),
        None => None,
    }
}

/// A join request's name reads back as the invite and request it was
/// published for, and is recognised as that request's, whenever neither
/// identifier holds a `/`.
pub proof fn law_join_object_names_read_back(invite_id: Seq<char>, request_id: Seq<char>)
    requires
        !invite_id.contains('/'),
        !request_id.contains('/'),
    ensures
        join_invite_of(join_object(invite_id, request_id)) == Some(invite_id),
        join_request_of(join_object(invite_id, request_id)) == request_id,
        names_request(join_object(invite_id, request_id), request_id),
{
    reveal_strlit("joins/");
    reveal_strlit("/");
    reveal_strlit(".age");
    let name = join_object(invite_id, request_id);
    let a: int = invite_id.len() as int;
    let b: int = request_id.len() as int;
    assert(name.len() == 6 + a + 1 + b + 4);
    assert(name.subrange(0, 6) =~= "joins/"@);
    let rest = name.subrange(6, name.len() as int);
    assert forall|k: int| 0 <= k < a implies rest[k] != '/' by {
        assert(rest[k] == invite_id[k]);
    }
    assert(rest[a] == '/');
    lemma_first_index_at(rest, '/', a);
    assert(rest.take(a) =~= invite_id);
    assert(name[6 + a] == '/');
    assert forall|k: int| 6 + a < k < name.len() implies name[k] != '/' by {
        if k < 6 + a + 1 + b {
            assert(name[k] == request_id[k - 7 - a]);
        } else {
            assert(name[k] == ".age"@[k - 7 - a - b]);
        }
    }
    lemma_last_index_at(name, '/', 6 + a);
    let segment = name.subrange(7 + a, name.len() as int);
    assert(segment =~= request_id + ".age"@);
    assert(segment.subrange(segment.len() - 4, segment.len() as int) =~= ".age"@);
    assert(segment.take(segment.len() - 4) =~= request_id);
    assert(name.subrange(name.len() - (b + 5), name.len() as int) =~= "/"@ + request_id + ".age"@);
}

/// The invite a join answers must be for the channel its repository holds.
pub fn check_invite_channel(invite_channel: &str, repository_channel: &str) -> (r: Result<
    (),
    CliError,
>)
    ensures
        match r {
            Ok(()) => invite_channel@ == repository_channel@,
            Err(e) => {
                &&& invite_channel@ != repository_channel@
                &&& e matches CliError::InviteChannelMismatch { expected, found }
                &&& expected@ == invite_channel@
                &&& found@ == repository_channel@
            },
        },
{
    let a = chars_of(invite_channel);
    if equals_str(&a, repository_channel) {
        Ok(())
    } else {
        Err(
            CliError::InviteChannelMismatch {
                expected: invite_channel.to_owned(),
                found: repository_channel.to_owned(),
            },
        )
    }
}

/// A join request that validated against an invite this installation
/// issued.
pub struct JoinRequest {
    /// The request identifier.
    pub request_id: String,
    /// The invite it answers.
    pub invite_id: String,
    /// The joiner's principal.
    pub principal_id: String,
    /// The joiner's device.
    pub device_id: String,
    /// When it was made.
    pub created_at: String,
    /// The phrase both sides read aloud.
    pub safety_phrase: String,
    /// The word list the phrase is drawn from.
    pub wordlist: String,
}

/// A join request as the approval screen shows it.
pub struct PendingJoin {
    /// The request identifier.
    pub request_id: String,
    /// The joiner's principal.
    pub principal_id: String,
    /// The joiner's device.
    pub device_id: String,
    /// When it was made.
    pub created_at: String,
    /// The phrase both sides read aloud.
    pub safety_phrase: String,
}

/// Whether a screen entry shows exactly the request it was made from.
pub open spec fn shows_request(p: PendingJoin, r: JoinRequest) -> bool {
    &&& p.request_id@ == r.request_id@
    &&& p.principal_id@ == r.principal_id@
    &&& p.device_id@ == r.device_id@
    &&& p.created_at@ == r.created_at@
    &&& p.safety_phrase@ == r.safety_phrase@
}

/// The join requests as the review screen shows them, in the same order.
pub fn pending_joins(listed: Vec<JoinRequest>) -> (r: Vec<PendingJoin>)
    ensures
        r.len() == listed.len(),
        forall|i: int| 0 <= i < listed.len() ==> shows_request(#[trigger] r@[i], listed@[i]),
{
    let mut out: Vec<PendingJoin> = Vec::new();
    let mut k: usize = 0;
    while k < listed.len()
        invariant
            k <= listed.len(),
            out.len() == k,
            forall|i: int| 0 <= i < k ==> shows_request(#[trigger] out@[i], listed@[i]),
        decreases listed.len() - k,
    {
        let request = &listed[k];
        out.push(
            PendingJoin {
                request_id: request.request_id.clone(),
                principal_id: request.principal_id.clone(),
                device_id: request.device_id.clone(),
                created_at: request.created_at.clone(),
                safety_phrase: request.safety_phrase.clone(),
            },
        );
        k = k + 1;
    }
    out
}

/// How a pending join request is listed.
pub open spec fn join_request_json(r: JoinRequest) -> JsonView {
    JsonView::Object(
        seq![
            ("requestId"@, JsonView::Str(r.request_id@)),
            ("inviteId"@, JsonView::Str(r.invite_id@)),
            ("principalId"@, JsonView::Str(r.principal_id@)),
            ("deviceId"@, JsonView::Str(r.device_id@)),
            ("createdAt"@, JsonView::Str(r.created_at@)),
            ("safetyPhrase"@, JsonView::Str(r.safety_phrase@)),
            ("wordlist"@, JsonView::Str(r.wordlist@)),
        ],
    )
}

/// The report of `hrc join pending`.
pub open spec fn join_pending_json(channel_id: Seq<char>, pending: Seq<JoinRequest>) -> JsonView {
    JsonView::Object(
        seq![
            ("status"@, JsonView::Str("ok"@)),
            ("channelId"@, JsonView::Str(channel_id)),
            ("pending"@, JsonView::Array(pending.map_values(|r: JoinRequest| join_request_json(r)))),
        ],
    )
}

/// What `hrc join pending` reports: every request that validated.
pub fn join_pending_report(channel_id: &str, pending: &Vec<JoinRequest>) -> (r: Json)
    ensures
        jview(r) == join_pending_json(channel_id@, pending@),
{
    let mut list = items();
    let mut k: usize = 0;
    while k < pending.len()
        invariant
            k <= pending.len(),
            items_view(list@) == pending@.take(k as int).map_values(
                |r: JoinRequest| join_request_json(r),
            ),
        decreases pending.len() - k,
    {
        let q = &pending[k];
        let mut entry = members();
        push_member(&mut entry, "requestId", text(q.request_id.as_str()));
        push_member(&mut entry, "inviteId", text(q.invite_id.as_str()));
        push_member(&mut entry, "principalId", text(q.principal_id.as_str()));
        push_member(&mut entry, "deviceId", text(q.device_id.as_str()));
        push_member(&mut entry, "createdAt", text(q.created_at.as_str()));
        push_member(&mut entry, "safetyPhrase", text(q.safety_phrase.as_str()));
        push_member(&mut entry, "wordlist", text(q.wordlist.as_str()));
        assert(members_view(entry@) =~= match join_request_json(*q) {
            JsonView::Object(p) => p,
            _ => Seq::empty(),
        });
        let ghost before = items_view(list@);
        push_item(&mut list, object(entry));
        assert(pending@.take(k + 1).map_values(|r: JoinRequest| join_request_json(r)) =~= before.push(
            join_request_json(*q),
        ));
        k = k + 1;
    }
    assert(pending@.take(pending.len() as int) =~= pending@);
    let mut top = members();
    push_member(&mut top, "status", text("ok"));
    push_member(&mut top, "channelId", text(channel_id));
    push_member(&mut top, "pending", array(list));
    assert(members_view(top@) =~= match join_pending_json(channel_id@, pending@) {
        JsonView::Object(p) => p,
        _ => Seq::empty(),
    });
    object(top)
}

/// A join request as sent.
pub struct SentJoin {
    /// The channel asked to join.
    pub channel_id: String,
    /// The request identifier.
    pub request_id: String,
    /// The joiner's principal.
    pub principal_id: String,
    /// The phrase to read aloud to the administrator.
    pub safety_phrase: String,
    /// The word list the phrase is drawn from.
    pub wordlist: String,
}

/// The report of `hrc join`.
pub open spec fn join_json(j: SentJoin) -> JsonView {
    JsonView::Object(
        seq![
            ("status"@, JsonView::Str("ok"@)),
            ("channelId"@, JsonView::Str(j.channel_id@)),
            ("requestId"@, JsonView::Str(j.request_id@)),
            ("principalId"@, JsonView::Str(j.principal_id@)),
            ("safetyPhrase"@, JsonView::Str(j.safety_phrase@)),
            ("wordlist"@, JsonView::Str(j.wordlist@)),
        ],
    )
}

/// What `hrc join` reports once the request is out.
pub fn join_report(j: &SentJoin) -> (r: Json)
    ensures
        jview(r) == join_json(*j),
{
    let mut top = members();
    push_member(&mut top, "status", text("ok"));
    push_member(&mut top, "channelId", text(j.channel_id.as_str()));
    push_member(&mut top, "requestId", text(j.request_id.as_str()));
    push_member(&mut top, "principalId", text(j.principal_id.as_str()));
    push_member(&mut top, "safetyPhrase", text(j.safety_phrase.as_str()));
    push_member(&mut top, "wordlist", text(j.wordlist.as_str()));
    assert(members_view(top@) =~= match join_json(*j) {
        JsonView::Object(p) => p,
        _ => Seq::empty(),
    });
    object(top)
}

} // verus!
