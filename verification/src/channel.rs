//! Channels as this installation records them, and the names of the
//! control log a channel's history is published under.
use vstd::prelude::*;

use crate::decimal::{lemma_padded_ordered, padded, pow10, push_padded_u64};
use crate::error::CliError;
use crate::json::{
    array, items, items_view, jview, members, members_view, object, push_item, push_member, text,
    Json, JsonView,
};
use crate::text::{
    chars_of, extend, extend_str, lemma_str_before_asymmetric, lemma_str_before_extend,
    lemma_str_before_irreflexive, lemma_str_before_prefix, lemma_str_before_transitive, slice,
    str_before, string_of,
};

verus! {

broadcast use vstd::string::group_string_axioms;

/// A channel this installation has local state for.
pub struct ChannelRecord {
    /// The channel identifier.
    pub channel_id: String,
    /// The name a person knows it by.
    pub local_name: String,
    /// The transport kind, such as `git`.
    pub transport_kind: String,
    /// Where the transport lives.
    pub transport_locator: String,
    /// The roster epoch last seen.
    pub roster_epoch: u64,
    /// Why synchronization halted, if it did.
    pub halted_reason: Option<String>,
}

/// The single channel this installation is configured for: the only one
/// there is, or a refusal saying there is none or more than one.
pub fn only_channel(channels: Vec<ChannelRecord>) -> (r: Result<ChannelRecord, CliError>)
    ensures
        channels.len() == 1 ==> r == Ok::<ChannelRecord, CliError>(channels@[0]),
        channels.len() == 0 ==> r matches Err(CliError::NoChannel),
        channels.len() > 1 ==> r matches Err(CliError::AmbiguousChannel),
{
    let mut channels = channels;
    if channels.len() == 1 {
        Ok(channels.remove(0))
    } else if channels.len() == 0 {
        Err(CliError::NoChannel)
    } else {
        Err(CliError::AmbiguousChannel)
    }
}

/// How one channel is listed.
pub open spec fn channel_json(c: ChannelRecord) -> JsonView {
    JsonView::Object(
        seq![
            ("channelId"@, JsonView::Str(c.channel_id@)),
            ("localName"@, JsonView::Str(c.local_name@)),
            ("transport"@, JsonView::Str(c.transport_kind@)),
            ("locator"@, JsonView::Str(c.transport_locator@)),
            ("rosterEpoch"@, JsonView::UInt(c.roster_epoch)),
            ("halted"@, JsonView::Bool(c.halted_reason is Some)),
        ],
    )
}

/// The report of `hrc channels`.
pub open spec fn channels_json(channels: Seq<ChannelRecord>) -> JsonView {
    JsonView::Object(
        seq![
            ("status"@, JsonView::Str("ok"@)),
            ("channels"@, JsonView::Array(channels.map_values(|c: ChannelRecord| channel_json(c)))),
        ],
    )
}

/// What `hrc channels` reports.
pub fn channels_report(channels: &Vec<ChannelRecord>) -> (r: Json)
    ensures
        jview(r) == channels_json(channels@),
{
    let mut list = items();
    let mut k: usize = 0;
    while k < channels.len()
        invariant
            k <= channels.len(),
            items_view(list@) == channels@.take(k as int).map_values(
                |c: ChannelRecord| channel_json(c),
            ),
        decreases channels.len() - k,
    {
        let c = &channels[k];
        let mut entry = members();
        push_member(&mut entry, "channelId", text(c.channel_id.as_str()));
        push_member(&mut entry, "localName", text(c.local_name.as_str()));
        push_member(&mut entry, "transport", text(c.transport_kind.as_str()));
        push_member(&mut entry, "locator", text(c.transport_locator.as_str()));
        push_member(&mut entry, "rosterEpoch", Json::UInt(c.roster_epoch));
        push_member(&mut entry, "halted", Json::Bool(c.halted_reason.is_some()));
        assert(members_view(entry@) =~= match channel_json(*c) {
            JsonView::Object(p) => p,
            _ => Seq::empty(),
        });
        let ghost before = items_view(list@);
        push_item(&mut list, object(entry));
        assert(channels@.take(k + 1).map_values(|x: ChannelRecord| channel_json(x)) =~= before.push(
            channel_json(*c),
        ));
        k = k + 1;
    }
    assert(channels@.take(channels.len() as int) =~= channels@);
    let mut top = members();
    push_member(&mut top, "status", text("ok"));
    push_member(&mut top, "channels", array(list));
    assert(members_view(top@) =~= match channels_json(channels@) {
        JsonView::Object(p) => p,
        _ => Seq::empty(),
    });
    object(top)
}

/// The report of `hrc create`.
pub open spec fn create_json(
    channel_id: Seq<char>,
    repo: Seq<char>,
    principal_id: Seq<char>,
    device_id: Seq<char>,
) -> JsonView {
    JsonView::Object(
        seq![
            ("status"@, JsonView::Str("ok"@)),
            ("channelId"@, JsonView::Str(channel_id)),
            ("repo"@, JsonView::Str(repo)),
            ("principalId"@, JsonView::Str(principal_id)),
            ("deviceId"@, JsonView::Str(device_id)),
        ],
    )
}

/// What `hrc create` reports once the genesis is published.
pub fn create_report(channel_id: &str, repo: &str, principal_id: &str, device_id: &str) -> (r:
    Json)
    ensures
        jview(r) == create_json(channel_id@, repo@, principal_id@, device_id@),
{
    let mut top = members();
    push_member(&mut top, "status", text("ok"));
    push_member(&mut top, "channelId", text(channel_id));
    push_member(&mut top, "repo", text(repo));
    push_member(&mut top, "principalId", text(principal_id));
    push_member(&mut top, "deviceId", text(device_id));
    assert(members_view(top@) =~= match create_json(channel_id@, repo@, principal_id@, device_id@) {
        JsonView::Object(p) => p,
        _ => Seq::empty(),
    });
    object(top)
}

/// Whether the first 16 characters of `s` exist and are ASCII, so that
/// `&s[..16]` cuts on a character boundary.
pub open spec fn has_ascii_head(s: Seq<char>) -> bool {
    s.len() >= 16 && forall|i: int| 0 <= i < 16 ==> (#[trigger] s[i] as u32) < 128
}

/// The name a control entry is published under:
/// `control/log/<sequence, eight digits>-<first 16 of hash>.json`.
pub open spec fn control_name(sequence: int, hash: Seq<char>) -> Seq<char> {
    "control/log/"@ + padded(sequence, 8) + "-"@ + hash.take(16) + ".json"@
}

/// The name of a control entry. The genesis is entry zero, named after the
/// channel identifier; later entries after their hash.
pub fn control_entry_name(sequence: u64, hash: &str) -> (r: String)
    requires
        has_ascii_head(hash@),
    ensures
        r@ == control_name(sequence as int, hash@),
{
    let mut name: Vec<char> = Vec::new();
    extend_str(&mut name, "control/log/");
    push_padded_u64(&mut name, sequence, 8);
    extend_str(&mut name, "-");
    let h = chars_of(hash);
    let head = slice(&h, 0, 16);
    extend(&mut name, &head);
    extend_str(&mut name, ".json");
    string_of(name.as_slice())
}

/// Where the chain stands after one more entry: the sequence always
/// advances, the epoch only when the operation changes who may read.
pub fn next_control_position(epoch: u64, sequence: u64, advances_epoch: bool) -> (r: (u64, u64))
    requires
        sequence < u64::MAX,
        advances_epoch ==> epoch < u64::MAX,
    ensures
        r.0 == if advances_epoch {
            epoch + 1
        } else {
            epoch as int
        },
        r.1 == sequence + 1,
{
    (
        if advances_epoch {
            epoch + 1
        } else {
            epoch
        },
        sequence + 1,
    )
}

/// Sorting control entries by name sorts them by position in the chain:
/// of two entries, the one with the smaller sequence number has the name
/// that sorts first, whatever their hashes, for every sequence number that
/// fits the eight digits of the name.
pub proof fn law_control_names_sort_by_sequence(a: nat, b: nat, hash_a: Seq<char>, hash_b: Seq<char>)
    requires
        a < b < 100_000_000,
    ensures
        str_before(control_name(a as int, hash_a), control_name(b as int, hash_b)),
{
    assert(pow10(8) == 100_000_000) by {
        reveal_with_fuel(pow10, 9);
    }
    lemma_padded_ordered(a, b, 8);
    let pa = padded(a as int, 8);
    let pb = padded(b as int, 8);
    let ra = "-"@ + hash_a.take(16) + ".json"@;
    let rb = "-"@ + hash_b.take(16) + ".json"@;
    lemma_str_before_extend(pa, pb, ra, rb);
    lemma_str_before_prefix("control/log/"@, pa + ra, pb + rb);
    assert(control_name(a as int, hash_a) =~= "control/log/"@ + (pa + ra));
    assert(control_name(b as int, hash_b) =~= "control/log/"@ + (pb + rb));
}

/// Whether name `a` sorts before name `b`.
pub fn name_before(a: &str, b: &str) -> (r: bool)
    ensures
        r == str_before(a@, b@),
{
    let x = chars_of(a);
    let y = chars_of(b);
    let mut i: usize = 0;
    assert(x@.skip(0) =~= x@);
    assert(y@.skip(0) =~= y@);
    while i < x.len() && i < y.len()
        invariant
            i <= x.len(),
            i <= y.len(),
            x@ == a@,
            y@ == b@,
            str_before(a@, b@) == str_before(x@.skip(i as int), y@.skip(i as int)),
        decreases x.len() - i,
    {
        let ghost xs = x@.skip(i as int);
        let ghost ys = y@.skip(i as int);
        assert(xs[0] == x@[i as int]);
        assert(ys[0] == y@[i as int]);
        if x[i] != y[i] {
            return x[i] < y[i];
        }
        assert(xs.drop_first() =~= x@.skip(i + 1));
        assert(ys.drop_first() =~= y@.skip(i + 1));
        i = i + 1;
    }
    assert(x@.skip(i as int).len() == x.len() - i);
    assert(y@.skip(i as int).len() == y.len() - i);
    i == x.len() && i < y.len()
}

/// Whether an entry is named `k`.
pub open spec fn has_name<T>(k: Seq<char>) -> spec_fn((String, T)) -> bool {
    |e: (String, T)| e.0@ == k
}

/// The entries named `k`, in their order.
pub open spec fn named<T>(s: Seq<(String, T)>, k: Seq<char>) -> Seq<(String, T)> {
    s.filter(has_name(k))
}

/// Whether entries are in name order: no entry's name sorts before an
/// earlier entry's.
pub open spec fn in_name_order<T>(s: Seq<(String, T)>) -> bool {
    forall|i: int, j: int| 0 <= i < j < s.len() ==> !str_before(s[j].0@, s[i].0@)
}

proof fn lemma_named_insert<T>(out: Seq<(String, T)>, p: int, e: (String, T), k: Seq<char>)
    requires
        0 <= p <= out.len(),
        forall|j: int| p <= j < out.len() ==> out[j].0@ != e.0@,
    ensures
        named(out.insert(p, e), k) == if e.0@ == k {
            named(out, k).push(e)
        } else {
            named(out, k)
        },
{
    let pred = has_name::<T>(k);
    let l = out.take(p);
    let r = out.skip(p);
    assert(out =~= l + r);
    assert(out.insert(p, e) =~= l + seq![e] + r);
    Seq::filter_distributes_over_add(l + seq![e], r, pred);
    Seq::filter_distributes_over_add(l, seq![e], pred);
    Seq::filter_distributes_over_add(l, r, pred);
    assert(seq![e].filter(pred) =~= if pred(e) { seq![e] } else { Seq::empty() }) by {
        let empty = Seq::<(String, T)>::empty();
        assert(seq![e] =~= empty.push(e));
        empty.lemma_filter_push(e, pred);
        assert(empty.filter(pred) =~= empty) by {
            reveal(Seq::filter);
        }
    }
    if e.0@ == k {
        assert forall|j: int| 0 <= j < r.len() implies !pred(r[j]) by {
            assert(r[j] == out[p + j]);
        }
        r.lemma_all_neg_filter_empty(pred);
        assert(r.filter(pred) =~= Seq::empty());
        assert(named(out, k) == l.filter(pred) + r.filter(pred));
        assert(named(out, k) =~= l.filter(pred));
        assert(named(out.insert(p, e), k) =~= l.filter(pred) + seq![e]);
    } else {
        assert(named(out.insert(p, e), k) =~= l.filter(pred) + r.filter(pred));
    }
}

proof fn lemma_named_push<T>(s: Seq<(String, T)>, e: (String, T), k: Seq<char>)
    ensures
        named(s.push(e), k) == if e.0@ == k {
            named(s, k).push(e)
        } else {
            named(s, k)
        },
{
    s.lemma_filter_push(e, has_name::<T>(k));
}

/// Entries in name order: a stable sort, so entries of one name keep the
/// order they were read in. Control entries are named by their position in
/// the chain, so this replays the chain from its genesis.
pub fn order_by_name<T>(entries: Vec<(String, T)>) -> (r: Vec<(String, T)>)
    ensures
        in_name_order(r@),
        forall|k: Seq<char>| #[trigger] named(r@, k) == named(entries@, k),
        r@.to_multiset() == entries@.to_multiset(),
{
    let ghost original = entries@;
    assert(original.len() == entries.len());
    let mut rest = entries;
    let mut out: Vec<(String, T)> = Vec::new();
    let mut n: usize = 0;
    assert(original.skip(0) =~= original);
    assert(original.take(0) =~= Seq::<(String, T)>::empty());
    while rest.len() > 0
        invariant
            n <= original.len(),
            n + rest.len() == original.len(),
            original.len() <= usize::MAX,
            rest@ == original.skip(n as int),
            in_name_order(out@),
            forall|k: Seq<char>| #[trigger] named(out@, k) == named(original.take(n as int), k),
            out@.to_multiset() == original.take(n as int).to_multiset(),
        decreases rest.len(),
    {
        let e = rest.remove(0);
        assert(e == original[n as int]);
        assert(rest@ =~= original.skip(n + 1));
        let mut p: usize = 0;
        while p < out.len() && !name_before(e.0.as_str(), out[p].0.as_str())
            invariant
                p <= out.len(),
                forall|i: int| 0 <= i < p ==> !str_before(e.0@, #[trigger] out@[i].0@),
            decreases out.len() - p,
        {
            p = p + 1;
        }
        let ghost before = out@;
        proof {
            // Everything from `p` on sorts after `e`, so none of it has its name.
            if p < before.len() {
                assert forall|j: int| p <= j < before.len() implies before[j].0@ != e.0@
                    && !str_before(before[j].0@, e.0@) by {
                    if j > p {
                        if before[j].0@ == e.0@ {
                            assert(!str_before(before[j].0@, before[p as int].0@));
                        }
                        if str_before(before[j].0@, e.0@) {
                            lemma_str_before_transitive(before[j].0@, e.0@, before[p as int].0@);
                        }
                    } else {
                        lemma_str_before_irreflexive(e.0@);
                        if str_before(before[j].0@, e.0@) {
                            lemma_str_before_asymmetric(e.0@, before[j].0@);
                        }
                    }
                }
            }
            assert forall|k: Seq<char>| #[trigger] named(before.insert(p as int, e), k) == named(
                original.take(n + 1),
                k,
            ) by {
                lemma_named_insert(before, p as int, e, k);
                assert(original.take(n + 1) =~= original.take(n as int).push(e));
                lemma_named_push(original.take(n as int), e, k);
            }
            assert(original.take(n + 1) =~= original.take(n as int).push(e));
        }
        out.insert(p, e);
        proof {
            let now = out@;
            assert(now =~= before.insert(p as int, e));
            vstd::seq_lib::to_multiset_insert(before, p as int, e);
            assert(original.take(n + 1) =~= original.take(n as int).push(e));
            vstd::seq_lib::to_multiset_build(original.take(n as int), e);
            assert forall|i: int, j: int| 0 <= i < j < now.len() implies !str_before(
                now[j].0@,
                now[i].0@,
            ) by {
                if j < p {
                    assert(now[i] == before[i] && now[j] == before[j]);
                } else if j == p {
                    assert(now[i] == before[i]);
                } else if i < p {
                    assert(now[i] == before[i] && now[j] == before[j - 1]);
                } else if i == p {
                    assert(now[j] == before[j - 1]);
                } else {
                    assert(now[i] == before[i - 1] && now[j] == before[j - 1]);
                }
            }
        }
        n = n + 1;
    }
    assert(original.take(n as int) =~= original);
    out
}

/// Replaying control entries in name order replays the chain in order:
/// when every entry is named after its position, positions never go back.
pub proof fn law_name_order_is_chain_order<T>(
    entries: Seq<(String, T)>,
    positions: Seq<nat>,
    hashes: Seq<Seq<char>>,
)
    requires
        in_name_order(entries),
        positions.len() == entries.len(),
        hashes.len() == entries.len(),
        forall|i: int|
            0 <= i < entries.len() ==> positions[i] < 100_000_000 && (#[trigger] entries[i]).0@
                == control_name(positions[i] as int, hashes[i]),
    ensures
        forall|i: int, j: int| 0 <= i < j < entries.len() ==> positions[i] <= positions[j],
{
    assert forall|i: int, j: int| 0 <= i < j < entries.len() implies positions[i] <= positions[j] by {
        if positions[j] < positions[i] {
            assert(entries[i].0@ == control_name(positions[i] as int, hashes[i]));
            assert(entries[j].0@ == control_name(positions[j] as int, hashes[j]));
            law_control_names_sort_by_sequence(positions[j], positions[i], hashes[j], hashes[i]);
        }
    }
}

/// The genesis and the entries after it, or `ChannelNotPublished` when the
/// channel has no control objects at all.
pub fn split_genesis<T>(ordered: Vec<(String, T)>, channel_id: &str) -> (r: Result<
    ((String, T), Vec<(String, T)>),
    CliError,
>)
    ensures
        ordered@.len() == 0 ==> (r matches Err(CliError::ChannelNotPublished { channel_id: c })
            && c@ == channel_id@),
        ordered@.len() > 0 ==> (r matches Ok((g, rest)) && g == ordered@[0] && rest@
            == ordered@.drop_first()),
{
    let mut rest = ordered;
    if rest.len() == 0 {
        return Err(CliError::ChannelNotPublished { channel_id: channel_id.to_owned() });
    }
    let genesis = rest.remove(0);
    Ok((genesis, rest))
}

/// Why the visibility of a channel that is not on GitHub cannot be changed
/// from here. The confirmation is recorded before this is said.
pub open spec fn not_on_github_reason(locator: Seq<char>) -> Seq<char> {
    locator
        + " is not a GitHub repository, so HRC cannot change its visibility. Change it with your provider; the confirmation is recorded."@
}

/// Why `gh` could not be run.
pub open spec fn gh_unavailable_reason(error: Seq<char>, slug: Seq<char>) -> Seq<char> {
    "could not run gh ("@ + error + "). Make "@ + slug
        + " public in the GitHub interface; the confirmation is recorded."@
}

/// Why `gh` refused, in its own words without surrounding whitespace.
pub open spec fn gh_refused_reason(slug: Seq<char>, stderr: Seq<char>) -> Seq<char> {
    "gh refused to change the visibility of "@ + slug + ": "@ + crate::text::trim(stderr)
}

/// How making a repository public failed, once the confirmation is
/// recorded.
pub enum PublicationFailure<'a> {
    /// The channel's repository is not on GitHub.
    NotOnGitHub {
        /// Where the channel's repository is.
        locator: &'a str,
    },
    /// `gh` could not be run.
    GhUnavailable {
        /// Why, as the system said.
        error: &'a str,
        /// The repository, as `owner/name`.
        slug: &'a str,
    },
    /// `gh` ran and refused.
    GhRefused {
        /// The repository, as `owner/name`.
        slug: &'a str,
        /// What `gh` wrote to its error stream.
        stderr: &'a str,
    },
}

/// The error a failed change of visibility is reported as.
pub fn publication_unavailable(failure: PublicationFailure) -> (r: CliError)
    ensures
        r matches CliError::PublicationUnavailable { reason } && reason@ == match failure {
            PublicationFailure::NotOnGitHub { locator } => not_on_github_reason(locator@),
            PublicationFailure::GhUnavailable { error, slug } => gh_unavailable_reason(
                error@,
                slug@,
            ),
            PublicationFailure::GhRefused { slug, stderr } => gh_refused_reason(slug@, stderr@),
        },
{
    let mut out: Vec<char> = Vec::new();
    match failure {
        PublicationFailure::NotOnGitHub { locator } => {
            extend_str(&mut out, locator);
            extend_str(
                &mut out,
                " is not a GitHub repository, so HRC cannot change its visibility. Change it with your provider; the confirmation is recorded.",
            );
        },
        PublicationFailure::GhUnavailable { error, slug } => {
            extend_str(&mut out, "could not run gh (");
            extend_str(&mut out, error);
            extend_str(&mut out, "). Make ");
            extend_str(&mut out, slug);
            extend_str(&mut out, " public in the GitHub interface; the confirmation is recorded.");
        },
        PublicationFailure::GhRefused { slug, stderr } => {
            extend_str(&mut out, "gh refused to change the visibility of ");
            extend_str(&mut out, slug);
            extend_str(&mut out, ": ");
            let t = crate::text::trimmed(&chars_of(stderr));
            extend(&mut out, &t);
        },
    }
    CliError::PublicationUnavailable { reason: string_of(out.as_slice()) }
}

/// The `gh` arguments that make a repository public.
pub fn gh_visibility_arguments(slug: &str) -> (r: Vec<String>)
    ensures
        r@.map_values(|a: String| a@) == seq![
            "repo"@,
            "edit"@,
            slug@,
            "--visibility"@,
            "public"@,
            "--accept-visibility-change-consequences"@,
        ],
{
    let mut v: Vec<String> = Vec::new();
    v.push("repo".to_owned());
    v.push("edit".to_owned());
    v.push(slug.to_owned());
    v.push("--visibility".to_owned());
    v.push("public".to_owned());
    v.push("--accept-visibility-change-consequences".to_owned());
    assert(v@.map_values(|a: String| a@) =~= seq![
        "repo"@,
        "edit"@,
        slug@,
        "--visibility"@,
        "public"@,
        "--accept-visibility-change-consequences"@,
    ]);
    v
}

} // verus!
