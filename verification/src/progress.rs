//! How far a message has got, in the vocabulary `hrc wait` accepts.
use vstd::prelude::*;

use crate::decimal::{parse_u64, parse_u64_chars};
use crate::error::CliError;
use crate::text::{chars_of, equals_str, slice, trim, trimmed};
use crate::time::is_ascii_char;
use crate::json::{jview, members, members_view, object, push_member, text, Json, JsonView};

verus! {

/// How advanced a state is; unknown states rank lowest.
pub open spec fn rank_of(s: Seq<char>) -> u8 {
    if s == "accepted"@ || s == "approved"@ || s == "edited"@ {
        9
    } else if s == "read"@ {
        8
    } else if s == "delivered"@ {
        7
    } else if s == "rejected"@ || s == "declined"@ || s == "expired"@ {
        6
    } else if s == "published"@ {
        5
    } else if s == "publishing"@ {
        4
    } else if s == "queued"@ {
        3
    } else if s == "reserved"@ {
        2
    } else if s == "quarantined"@ {
        1
    } else {
        0
    }
}

/// Whether observing state `observed` means state `wanted` has been reached.
pub open spec fn reaches(observed: Seq<char>, wanted: Seq<char>) -> bool {
    if observed == wanted {
        true
    } else if wanted == "reserved"@ {
        observed == "queued"@ || observed == "publishing"@ || observed == "published"@
            || observed == "delivered"@ || observed == "read"@ || observed == "accepted"@
            || observed == "rejected"@
    } else if wanted == "queued"@ {
        observed == "publishing"@ || observed == "published"@ || observed == "delivered"@
            || observed == "read"@ || observed == "accepted"@ || observed == "rejected"@
    } else if wanted == "publishing"@ || wanted == "published"@ {
        observed == "published"@ || observed == "delivered"@ || observed == "read"@ || observed
            == "accepted"@ || observed == "rejected"@
    } else if wanted == "delivered"@ {
        observed == "read"@ || observed == "accepted"@
    } else if wanted == "read"@ {
        observed == "accepted"@
    } else if wanted == "quarantined"@ {
        observed == "approved"@ || observed == "edited"@ || observed == "declined"@ || observed
            == "expired"@
    } else {
        false
    }
}

/// How advanced a state is; unknown states rank lowest.
pub fn state_rank(state: &str) -> (r: u8)
    ensures
        r == rank_of(state@),
{
    let s = chars_of(state);
    if equals_str(&s, "accepted") || equals_str(&s, "approved") || equals_str(&s, "edited") {
        9
    } else if equals_str(&s, "read") {
        8
    } else if equals_str(&s, "delivered") {
        7
    } else if equals_str(&s, "rejected") || equals_str(&s, "declined") || equals_str(
        &s,
        "expired",
    ) {
        6
    } else if equals_str(&s, "published") {
        5
    } else if equals_str(&s, "publishing") {
        4
    } else if equals_str(&s, "queued") {
        3
    } else if equals_str(&s, "reserved") {
        2
    } else if equals_str(&s, "quarantined") {
        1
    } else {
        0
    }
}

/// Whether observing state `observed` means state `wanted` has been reached.
pub fn state_reaches(observed: &str, wanted: &str) -> (r: bool)
    ensures
        r == reaches(observed@, wanted@),
{
    let o = chars_of(observed);
    let w = chars_of(wanted);
    if crate::text::same(&o, &w) {
        return true;
    }
    if equals_str(&w, "reserved") {
        equals_str(&o, "queued") || equals_str(&o, "publishing") || equals_str(&o, "published")
            || equals_str(&o, "delivered") || equals_str(&o, "read") || equals_str(&o, "accepted")
            || equals_str(&o, "rejected")
    } else if equals_str(&w, "queued") {
        equals_str(&o, "publishing") || equals_str(&o, "published") || equals_str(&o, "delivered")
            || equals_str(&o, "read") || equals_str(&o, "accepted") || equals_str(&o, "rejected")
    } else if equals_str(&w, "publishing") || equals_str(&w, "published") {
        equals_str(&o, "published") || equals_str(&o, "delivered") || equals_str(&o, "read")
            || equals_str(&o, "accepted") || equals_str(&o, "rejected")
    } else if equals_str(&w, "delivered") {
        equals_str(&o, "read") || equals_str(&o, "accepted")
    } else if equals_str(&w, "read") {
        equals_str(&o, "accepted")
    } else if equals_str(&w, "quarantined") {
        equals_str(&o, "approved") || equals_str(&o, "edited") || equals_str(&o, "declined")
            || equals_str(&o, "expired")
    } else {
        false
    }
}

/// Reaching a state never goes backwards: a state reached is at least as
/// advanced as the state asked for, and every state reaches itself.
pub proof fn law_reaching_never_goes_backwards(observed: Seq<char>, wanted: Seq<char>)
    ensures
        reaches(wanted, wanted),
        reaches(observed, wanted) ==> rank_of(observed) >= rank_of(wanted),
{
    reveal_strlit("accepted");
    reveal_strlit("approved");
    reveal_strlit("edited");
    reveal_strlit("read");
    reveal_strlit("delivered");
    reveal_strlit("rejected");
    reveal_strlit("declined");
    reveal_strlit("expired");
    reveal_strlit("published");
    reveal_strlit("publishing");
    reveal_strlit("queued");
    reveal_strlit("reserved");
    reveal_strlit("quarantined");
    lemma_words_differ("accepted"@, "approved"@);
    lemma_words_differ("accepted"@, "edited"@);
    lemma_words_differ("accepted"@, "read"@);
    lemma_words_differ("accepted"@, "delivered"@);
    lemma_words_differ("accepted"@, "rejected"@);
    lemma_words_differ("accepted"@, "declined"@);
    lemma_words_differ("accepted"@, "expired"@);
    lemma_words_differ("accepted"@, "published"@);
    lemma_words_differ("accepted"@, "publishing"@);
    lemma_words_differ("accepted"@, "queued"@);
    lemma_words_differ("accepted"@, "reserved"@);
    lemma_words_differ("accepted"@, "quarantined"@);
    lemma_words_differ("approved"@, "edited"@);
    lemma_words_differ("approved"@, "read"@);
    lemma_words_differ("approved"@, "delivered"@);
    lemma_words_differ("approved"@, "rejected"@);
    lemma_words_differ("approved"@, "declined"@);
    lemma_words_differ("approved"@, "expired"@);
    lemma_words_differ("approved"@, "published"@);
    lemma_words_differ("approved"@, "publishing"@);
    lemma_words_differ("approved"@, "queued"@);
    lemma_words_differ("approved"@, "reserved"@);
    lemma_words_differ("approved"@, "quarantined"@);
    lemma_words_differ("edited"@, "read"@);
    lemma_words_differ("edited"@, "delivered"@);
    lemma_words_differ("edited"@, "rejected"@);
    lemma_words_differ("edited"@, "declined"@);
    lemma_words_differ("edited"@, "expired"@);
    lemma_words_differ("edited"@, "published"@);
    lemma_words_differ("edited"@, "publishing"@);
    lemma_words_differ("edited"@, "queued"@);
    lemma_words_differ("edited"@, "reserved"@);
    lemma_words_differ("edited"@, "quarantined"@);
    lemma_words_differ("read"@, "delivered"@);
    lemma_words_differ("read"@, "rejected"@);
    lemma_words_differ("read"@, "declined"@);
    lemma_words_differ("read"@, "expired"@);
    lemma_words_differ("read"@, "published"@);
    lemma_words_differ("read"@, "publishing"@);
    lemma_words_differ("read"@, "queued"@);
    lemma_words_differ("read"@, "reserved"@);
    lemma_words_differ("read"@, "quarantined"@);
    lemma_words_differ("delivered"@, "rejected"@);
    lemma_words_differ("delivered"@, "declined"@);
    lemma_words_differ("delivered"@, "expired"@);
    lemma_words_differ("delivered"@, "published"@);
    lemma_words_differ("delivered"@, "publishing"@);
    lemma_words_differ("delivered"@, "queued"@);
    lemma_words_differ("delivered"@, "reserved"@);
    lemma_words_differ("delivered"@, "quarantined"@);
    lemma_words_differ("rejected"@, "declined"@);
    lemma_words_differ("rejected"@, "expired"@);
    lemma_words_differ("rejected"@, "published"@);
    lemma_words_differ("rejected"@, "publishing"@);
    lemma_words_differ("rejected"@, "queued"@);
    lemma_words_differ("rejected"@, "reserved"@);
    lemma_words_differ("rejected"@, "quarantined"@);
    lemma_words_differ("declined"@, "expired"@);
    lemma_words_differ("declined"@, "published"@);
    lemma_words_differ("declined"@, "publishing"@);
    lemma_words_differ("declined"@, "queued"@);
    lemma_words_differ("declined"@, "reserved"@);
    lemma_words_differ("declined"@, "quarantined"@);
    lemma_words_differ("expired"@, "published"@);
    lemma_words_differ("expired"@, "publishing"@);
    lemma_words_differ("expired"@, "queued"@);
    lemma_words_differ("expired"@, "reserved"@);
    lemma_words_differ("expired"@, "quarantined"@);
    lemma_words_differ("published"@, "publishing"@);
    lemma_words_differ("published"@, "queued"@);
    lemma_words_differ("published"@, "reserved"@);
    lemma_words_differ("published"@, "quarantined"@);
    lemma_words_differ("publishing"@, "queued"@);
    lemma_words_differ("publishing"@, "reserved"@);
    lemma_words_differ("publishing"@, "quarantined"@);
    lemma_words_differ("queued"@, "reserved"@);
    lemma_words_differ("queued"@, "quarantined"@);
    lemma_words_differ("reserved"@, "quarantined"@);
}

proof fn lemma_words_differ(a: Seq<char>, b: Seq<char>)
    requires
        a.len() != b.len() || (a.len() >= 3 && b.len() >= 3 && (a[0] != b[0] || a[1] != b[1]
            || a[2] != b[2])),
    ensures
        a != b,
{
}

/// The index of the most advanced state that reaches `wanted`; on a tie the
/// later one, as `Iterator::max_by_key` chooses.
pub open spec fn is_most_advanced(observed: Seq<Seq<char>>, wanted: Seq<char>, j: int) -> bool {
    &&& 0 <= j < observed.len()
    &&& reaches(observed[j], wanted)
    &&& forall|k: int|
        0 <= k < observed.len() && reaches(#[trigger] observed[k], wanted) ==> rank_of(
            observed[k],
        ) <= rank_of(observed[j]) && (k > j ==> rank_of(observed[k]) < rank_of(observed[j]))
}

/// The views of a list of strings.
pub open spec fn views(v: Seq<String>) -> Seq<Seq<char>> {
    v.map_values(|s: String| s@)
}

/// The most advanced of the observed states that reaches `wanted`.
///
/// A device that has read a message also received it, and reporting
/// `delivered` after `read` would go backwards.
pub fn most_advanced(observed: &Vec<String>, wanted: &str) -> (r: Option<usize>)
    ensures
        match r {
            Some(j) => is_most_advanced(views(observed@), wanted@, j as int),
            None => forall|k: int|
                0 <= k < observed.len() ==> !reaches(#[trigger] views(observed@)[k], wanted@),
        },
{
    let ghost vs = views(observed@);
    let mut best: Option<usize> = None;
    let mut best_rank: u8 = 0;
    let mut k: usize = 0;
    while k < observed.len()
        invariant
            k <= observed.len(),
            vs == views(observed@),
            vs.len() == observed.len(),
            match best {
                Some(j) => j < k && reaches(vs[j as int], wanted@) && best_rank == rank_of(
                    vs[j as int],
                ) && forall|i: int|
                    0 <= i < k && reaches(#[trigger] vs[i], wanted@) ==> rank_of(vs[i])
                        <= best_rank && (i > j ==> rank_of(vs[i]) < best_rank),
                None => forall|i: int| 0 <= i < k ==> !reaches(#[trigger] vs[i], wanted@),
            },
        decreases observed.len() - k,
    {
        let s = observed[k].as_str();
        assert(s@ == vs[k as int]);
        if state_reaches(s, wanted) {
            let rank = state_rank(s);
            match best {
                None => {
                    best = Some(k);
                    best_rank = rank;
                },
                Some(_) => {
                    if rank >= best_rank {
                        best = Some(k);
                        best_rank = rank;
                    }
                },
            }
        }
        k = k + 1;
    }
    best
}

/// Seconds per unit of a wait: `s`, `m` and `h`.
pub open spec fn wait_unit(c: char) -> int {
    if c == 's' {
        1
    } else if c == 'm' {
        60
    } else if c == 'h' {
        3600
    } else {
        0
    }
}

/// The seconds a wait such as `30s`, `5m` or `2h` stands for, when it fits
/// in a `u64`.
pub open spec fn wait_seconds(s: Seq<char>) -> Option<int> {
    let t = trim(s);
    if t.len() == 0 || !is_ascii_char(t.last()) {
        None
    } else {
        match parse_u64(t.drop_last()) {
            Some(a) => if a != 0 && wait_unit(t.last()) > 0 && a * wait_unit(t.last())
                <= u64::MAX {
                Some(a * wait_unit(t.last()))
            } else {
                None
            },
            None => None,
        }
    }
}

/// Parses `30s`, `5m`, or `2h` into seconds.
///
/// Separate from the lifetime of invites and messages, which deliberately
/// has no seconds unit: a wait measured in seconds is entirely reasonable.
pub fn parse_wait_timeout(value: &str) -> (r: Result<u64, CliError>)
    ensures
        match wait_seconds(value@) {
            Some(n) => r == Ok::<u64, CliError>(n as u64),
            None => r matches Err(CliError::InvalidLifetime { value: v }) && v@ == value@,
        },
{
    let v = chars_of(value);
    let t = trimmed(&v);
    if t.len() == 0 || t[t.len() - 1] > '\u{7f}' {
        return Err(CliError::InvalidLifetime { value: value.to_owned() });
    }
    let digits = slice(&t, 0, t.len() - 1);
    assert(digits@ =~= t@.drop_last());
    let unit = t[t.len() - 1];
    let amount = match parse_u64_chars(&digits) {
        Some(a) => a,
        None => return Err(CliError::InvalidLifetime { value: value.to_owned() }),
    };
    if amount == 0 {
        return Err(CliError::InvalidLifetime { value: value.to_owned() });
    }
    if unit == 's' {
        Ok(amount)
    } else if unit == 'm' {
        match amount.checked_mul(60) {
            Some(x) => Ok(x),
            None => Err(CliError::InvalidLifetime { value: value.to_owned() }),
        }
    } else if unit == 'h' {
        match amount.checked_mul(3600) {
            Some(x) => Ok(x),
            None => Err(CliError::InvalidLifetime { value: value.to_owned() }),
        }
    } else {
        Err(CliError::InvalidLifetime { value: value.to_owned() })
    }
}

/// An optional state as a list of zero or one.
pub open spec fn maybe(o: Option<Seq<char>>) -> Seq<Seq<char>> {
    match o {
        Some(s) => seq![s],
        None => seq![],
    }
}

/// The receipt states, most final first.
pub open spec fn state_order() -> Seq<Seq<char>> {
    seq!["rejected"@, "accepted"@, "read"@, "delivered"@]
}

/// The first `upto` receipt states that were reported at least once.
pub open spec fn reported_among(reported: Seq<Seq<char>>, upto: int) -> Seq<Seq<char>> {
    state_order().take(upto).filter(|s: Seq<char>| reported.contains(s))
}

/// The receipt states reported at least once, most final first.
pub open spec fn receipt_states(reported: Seq<Seq<char>>) -> Seq<Seq<char>> {
    reported_among(reported, 4)
}

proof fn lemma_reported_among_step(reported: Seq<Seq<char>>, k: int)
    requires
        0 <= k < 4,
    ensures
        reported_among(reported, k + 1) == if reported.contains(state_order()[k]) {
            reported_among(reported, k).push(state_order()[k])
        } else {
            reported_among(reported, k)
        },
{
    reveal(Seq::filter);
    assert(state_order().take(k + 1).drop_last() =~= state_order().take(k));
    assert(state_order().take(k + 1).last() == state_order()[k]);
}

/// Every state a message is observed in: the local disposition of an
/// inbound message, what receipts reported, and the outbox state.
pub open spec fn observed_of(
    disposition: Option<Seq<char>>,
    reported: Seq<Seq<char>>,
    outbox: Option<Seq<char>>,
) -> Seq<Seq<char>> {
    maybe(disposition) + receipt_states(reported) + maybe(outbox)
}

fn reported_as(reported: &Vec<String>, state: &str) -> (r: bool)
    ensures
        r == views(reported@).contains(state@),
{
    let st = chars_of(state);
    let mut k: usize = 0;
    while k < reported.len()
        invariant
            k <= reported.len(),
            st@ == state@,
            forall|i: int| 0 <= i < k ==> views(reported@)[i] != state@,
        decreases reported.len() - k,
    {
        if equals_str(&st, reported[k].as_str()) {
            assert(views(reported@)[k as int] == state@);
            return true;
        }
        k = k + 1;
    }
    false
}

/// The states a message is observed in, in the order they are weighed.
pub fn observed_states(disposition: Option<&str>, reported: &Vec<String>, outbox: Option<&str>) -> (r:
    Vec<String>)
    ensures
        views(r@) == observed_of(
            match disposition {
                Some(d) => Some(d@),
                None => None,
            },
            views(reported@),
            match outbox {
                Some(o) => Some(o@),
                None => None,
            },
        ),
{
    let mut out: Vec<String> = Vec::new();
    match disposition {
        Some(d) => out.push(d.to_owned()),
        None => {},
    }
    let ghost head = views(out@);
    proof {
        reveal(Seq::filter);
        assert(state_order().take(0) =~= Seq::<Seq<char>>::empty());
    }
    let names: [&str; 4] = ["rejected", "accepted", "read", "delivered"];
    proof {
        reveal_strlit("rejected");
        reveal_strlit("accepted");
        reveal_strlit("read");
        reveal_strlit("delivered");
        assert(names@[0]@ == state_order()[0]);
        assert(names@[1]@ == state_order()[1]);
        assert(names@[2]@ == state_order()[2]);
        assert(names@[3]@ == state_order()[3]);
    }
    let mut k: usize = 0;
    while k < 4
        invariant
            k <= 4,
            names@.len() == 4,
            forall|j: int| 0 <= j < 4 ==> (#[trigger] names@[j])@ == state_order()[j],
            views(out@) == head + reported_among(views(reported@), k as int),
        decreases 4 - k,
    {
        let name = names[k];
        let ghost before = views(out@);
        proof {
            lemma_reported_among_step(views(reported@), k as int);
        }
        if reported_as(reported, name) {
            out.push(name.to_owned());
            assert(views(out@) =~= before.push(name@));
        }
        assert(views(out@) =~= head + reported_among(views(reported@), k + 1));
        k = k + 1;
    }
    match outbox {
        Some(o) => {
            let ghost before = views(out@);
            out.push(o.to_owned());
            assert(views(out@) =~= before.push(o@));
        },
        None => {},
    }
    assert(views(out@) =~= observed_of(
        match disposition {
            Some(d) => Some(d@),
            None => None,
        },
        views(reported@),
        match outbox {
            Some(o) => Some(o@),
            None => None,
        },
    ));
    out
}

/// Whether `r` is what waiting reports of `observed`: the most advanced
/// state that reaches `wanted`, or nothing when none does.
pub open spec fn reports_reached(observed: Seq<Seq<char>>, wanted: Seq<char>, r: Option<Seq<char>>) -> bool {
    match r {
        Some(s) => exists|j: int| is_most_advanced(observed, wanted, j) && #[trigger] observed[j] == s,
        None => forall|k: int| 0 <= k < observed.len() ==> !reaches(#[trigger] observed[k], wanted),
    }
}

/// The state a message is in now, in the vocabulary `hrc wait` accepts: the
/// most advanced observed state that reaches `wanted`.
pub fn reached_state(
    disposition: Option<&str>,
    reported: &Vec<String>,
    outbox: Option<&str>,
    wanted: &str,
) -> (r: Option<String>)
    ensures
        reports_reached(
            observed_of(
                match disposition {
                    Some(d) => Some(d@),
                    None => None,
                },
                views(reported@),
                match outbox {
                    Some(o) => Some(o@),
                    None => None,
                },
            ),
            wanted@,
            match r {
                Some(s) => Some(s@),
                None => None,
            },
        ),
{
    let observed = observed_states(disposition, reported, outbox);
    let ghost ob = views(observed@);
    match most_advanced(&observed, wanted) {
        Some(j) => {
            let s = observed[j].clone();
            assert(ob[j as int] == s@);
            assert(is_most_advanced(ob, wanted@, j as int));
            assert(reports_reached(ob, wanted@, Some(s@)));
            Some(s)
        },
        None => {
            assert(reports_reached(ob, wanted@, None));
            None
        },
    }
}

/// The state `hrc wait` waits for when none is named.
pub const DEFAULT_WAIT_STATE: &'static str = "delivered";

/// How long `hrc wait` waits when no timeout is given, in seconds.
pub const DEFAULT_WAIT_SECONDS: u64 = 300;

/// How long a wait may last: the timeout given, or five minutes.
pub fn wait_limit(timeout: Option<&str>) -> (r: Result<u64, CliError>)
    ensures
        match timeout {
            Some(t) => match wait_seconds(t@) {
                Some(n) => r == Ok::<u64, CliError>(n as u64),
                None => r matches Err(CliError::InvalidLifetime { value: v }) && v@ == t@,
            },
            None => r == Ok::<u64, CliError>(300),
        },
{
    match timeout {
        Some(t) => parse_wait_timeout(t),
        None => Ok(DEFAULT_WAIT_SECONDS),
    }
}

/// What a wait does next.
#[derive(Debug)]
pub enum WaitStep {
    /// The message reached a wanted state: report it.
    Reached(String),
    /// The time is up: report that it has not, yet.
    TimedOut,
    /// Sleep this many milliseconds, then synchronize and look again.
    Sleep(u64),
}

/// One turn of `hrc wait`: report a reached state first, then a timeout,
/// and otherwise sleep for the poll interval or what is left of the limit,
/// whichever is shorter.
pub fn wait_step(reached: Option<String>, elapsed_ms: u64, limit_ms: u64, interval_ms: u64) -> (r:
    WaitStep)
    ensures
        match reached {
            Some(s) => r == WaitStep::Reached(s),
            None => if elapsed_ms >= limit_ms {
                r is TimedOut
            } else {
                r == WaitStep::Sleep(
                    if interval_ms < limit_ms - elapsed_ms {
                        interval_ms
                    } else {
                        (limit_ms - elapsed_ms) as u64
                    },
                )
            },
        },
{
    match reached {
        Some(s) => WaitStep::Reached(s),
        None => {
            if elapsed_ms >= limit_ms {
                WaitStep::TimedOut
            } else {
                let left = limit_ms - elapsed_ms;
                WaitStep::Sleep(
                    if interval_ms < left {
                        interval_ms
                    } else {
                        left
                    },
                )
            }
        },
    }
}

/// The report of `hrc wait`: the state reached, or `timeout`.
pub open spec fn wait_json(message_id: Seq<char>, state: Seq<char>, waited: u64) -> JsonView {
    JsonView::Object(
        seq![
            ("status"@, JsonView::Str("ok"@)),
            ("messageId"@, JsonView::Str(message_id)),
            ("state"@, JsonView::Str(state)),
            ("waitedSeconds"@, JsonView::UInt(waited)),
        ],
    )
}

/// What `hrc wait` reports.
pub fn wait_report(message_id: &str, state: &str, waited_seconds: u64) -> (r: Json)
    ensures
        jview(r) == wait_json(message_id@, state@, waited_seconds),
{
    let mut top = members();
    push_member(&mut top, "status", text("ok"));
    push_member(&mut top, "messageId", text(message_id));
    push_member(&mut top, "state", text(state));
    push_member(&mut top, "waitedSeconds", Json::UInt(waited_seconds));
    assert(members_view(top@) =~= match wait_json(message_id@, state@, waited_seconds) {
        JsonView::Object(p) => p,
        _ => Seq::empty(),
    });
    object(top)
}

/// The lifecycle of a message sent from here, in order.
pub open spec fn outbound_lifecycle() -> Seq<Seq<char>> {
    seq!["reserved"@, "queued"@, "publishing"@, "published"@, "delivered"@, "read"@, "accepted"@]
}

/// Reaching is upward-closed along the lifecycle of a sent message: a
/// message that got to a later state has reached every earlier one, so
/// waiting for `read` ends once the message was `accepted`.
pub proof fn law_a_later_state_reaches_every_earlier_one(i: int, j: int)
    requires
        0 <= i <= j < 7,
    ensures
        reaches(outbound_lifecycle()[j], outbound_lifecycle()[i]),
{
    reveal_strlit("reserved");
    reveal_strlit("queued");
    reveal_strlit("publishing");
    reveal_strlit("published");
    reveal_strlit("delivered");
    reveal_strlit("read");
    reveal_strlit("accepted");
    reveal_strlit("quarantined");
    let l = outbound_lifecycle();
    if i == j {
    } else if i == 0 {
        assert(l[0] == "reserved"@);
    } else if i == 1 {
        assert(l[1] == "queued"@);
    } else if i == 2 {
        assert(l[2] == "publishing"@);
    } else if i == 3 {
        assert(l[3] == "published"@);
    } else if i == 4 {
        assert(l[4] == "delivered"@);
    } else {
        assert(l[5] == "read"@ && l[6] == "accepted"@);
    }
}

/// An inbound message that a person decided, or that lapsed, has left
/// quarantine: waiting for `quarantined` to be passed ends on any of them.
pub proof fn law_a_decided_message_left_quarantine()
    ensures
        reaches("approved"@, "quarantined"@),
        reaches("edited"@, "quarantined"@),
        reaches("declined"@, "quarantined"@),
        reaches("expired"@, "quarantined"@),
{
    reveal_strlit("reserved");
    reveal_strlit("queued");
    reveal_strlit("publishing");
    reveal_strlit("published");
    reveal_strlit("delivered");
    reveal_strlit("read");
    reveal_strlit("quarantined");
    reveal_strlit("approved");
    reveal_strlit("edited");
    reveal_strlit("declined");
    reveal_strlit("expired");
    let q = "quarantined"@;
    lemma_words_differ(q, "reserved"@);
    lemma_words_differ(q, "queued"@);
    lemma_words_differ(q, "publishing"@);
    lemma_words_differ(q, "published"@);
    lemma_words_differ(q, "delivered"@);
    lemma_words_differ(q, "read"@);
    lemma_words_differ("approved"@, q);
    lemma_words_differ("edited"@, q);
    lemma_words_differ("declined"@, q);
    lemma_words_differ("expired"@, q);
}

} // verus!
