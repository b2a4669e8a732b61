//! Reading and writing a channel's history: what the receive walk does with
//! each published object, what it records of a message it opened, and the
//! name a message is published under.
//!
//! The walk replays control and message objects together, in publication
//! order, so a message is opened against the roster as it stood when the
//! message was introduced, not as it stands now.
use vstd::prelude::*;

use crate::source::{byte_len, char_width, lemma_byte_len_monotone, lemma_byte_len_push};
use crate::text::{chars_of, extend, extend_str, slice, string_of};

verus! {

broadcast use vstd::string::group_string_axioms;

/// The class of a published object.
#[derive(Debug, Clone, Copy, PartialEq, Eq, Structural)]
pub enum ObjectClass {
    /// A roster control object: the genesis, then entries.
    Control,
    /// An encrypted message.
    Message,
    /// Anything else, which the walk passes over.
    Other,
}

/// What the walk does with one object.
#[derive(Debug, Clone, Copy, PartialEq, Eq, Structural)]
pub enum WalkStep {
    /// Build the roster from this genesis object.
    ReadGenesis,
    /// Apply this control entry to the roster.
    ApplyEntry,
    /// Open this message against the roster as it stands now.
    OpenMessage,
    /// Pass over it.
    Skip,
}

/// What the walk does with an object: the first control object is the
/// genesis and every later one an entry; a message is opened only once a
/// roster exists and this installation has a device identity to open it
/// with.
pub open spec fn step_for(class: ObjectClass, has_roster: bool, has_identity: bool) -> WalkStep {
    match class {
        ObjectClass::Control => if has_roster {
            WalkStep::ApplyEntry
        } else {
            WalkStep::ReadGenesis
        },
        ObjectClass::Message => if has_roster && has_identity {
            WalkStep::OpenMessage
        } else {
            WalkStep::Skip
        },
        ObjectClass::Other => WalkStep::Skip,
    }
}

/// The walk's next step.
pub fn walk_step(class: ObjectClass, has_roster: bool, has_identity: bool) -> (r: WalkStep)
    ensures
        r == step_for(class, has_roster, has_identity),
{
    match class {
        ObjectClass::Control => if has_roster {
            WalkStep::ApplyEntry
        } else {
            WalkStep::ReadGenesis
        },
        ObjectClass::Message => if has_roster && has_identity {
            WalkStep::OpenMessage
        } else {
            WalkStep::Skip
        },
        ObjectClass::Other => WalkStep::Skip,
    }
}

/// Whether a message's stored body is its whole canonical body rather than
/// its text: for anything carrying a context package (well-formed or not),
/// and for every kind other than a note, a question or an answer.
pub open spec fn keeps_whole_body(has_context: bool, malformed_context: bool, kind: Seq<char>) -> bool {
    has_context || malformed_context || !(kind == "note"@ || kind == "question"@ || kind
        == "answer"@)
}

/// Whether the stored body is the whole canonical body.
pub fn stores_whole_body(has_context: bool, malformed_context: bool, kind: &str) -> (r: bool)
    ensures
        r == keeps_whole_body(has_context, malformed_context, kind@),
{
    let k = chars_of(kind);
    has_context || malformed_context || !(crate::text::equals_str(&k, "note")
        || crate::text::equals_str(&k, "question") || crate::text::equals_str(&k, "answer"))
}

/// A sum that stops at the largest value rather than wrapping.
pub open spec fn capped_sum(sizes: Seq<u64>) -> int
    decreases sizes.len(),
{
    if sizes.len() == 0 {
        0
    } else {
        let t = capped_sum(sizes.drop_last()) + sizes.last();
        if t > u64::MAX {
            u64::MAX as int
        } else {
            t
        }
    }
}

proof fn lemma_capped_sum_range(sizes: Seq<u64>)
    ensures
        0 <= capped_sum(sizes) <= u64::MAX,
    decreases sizes.len(),
{
    if sizes.len() > 0 {
        lemma_capped_sum_range(sizes.drop_last());
    }
}

/// How many attachments a message carries and their bytes in all, each
/// held at its largest value rather than wrapped.
pub fn attachment_totals(sizes: &Vec<u64>) -> (r: (u32, u64))
    ensures
        r.0 == if sizes.len() > u32::MAX {
            u32::MAX as int
        } else {
            sizes.len() as int
        },
        r.1 == capped_sum(sizes@),
{
    let count: u32 = if sizes.len() > 4294967295 {
        4294967295
    } else {
        sizes.len() as u32
    };
    let mut total: u64 = 0;
    let mut k: usize = 0;
    while k < sizes.len()
        invariant
            k <= sizes.len(),
            total == capped_sum(sizes@.take(k as int)),
        decreases sizes.len() - k,
    {
        assert(sizes@.take(k + 1).drop_last() =~= sizes@.take(k as int));
        assert(sizes@.take(k + 1).last() == sizes@[k as int]);
        total = total.saturating_add(sizes[k]);
        k = k + 1;
    }
    assert(sizes@.take(k as int) =~= sizes@);
    (count, total)
}

/// What recording an opened message came to.
pub enum Recorded {
    /// A message accepted into the inbox, with any messages its arrival
    /// released from waiting on it.
    Accepted(Vec<String>),
    /// A receipt accepted, with the messages it released.
    ReceiptAccepted(Vec<String>),
    /// A message that had lapsed, recorded as such, with the messages it
    /// released.
    ExpiredAccepted(Vec<String>),
    /// A message recorded before, or refused.
    Unchanged,
}

/// The messages a walk reports as received after one more was recorded: a
/// message accepted into the inbox counts itself, and every accepted
/// arrival counts what it released.
pub open spec fn received_after(received: Seq<Seq<char>>, message_id: Seq<char>, r: Recorded) -> Seq<
    Seq<char>,
> {
    match r {
        Recorded::Accepted(released) => received.push(message_id) + released@.map_values(
            |s: String| s@,
        ),
        Recorded::ReceiptAccepted(released) => received + released@.map_values(|s: String| s@),
        Recorded::ExpiredAccepted(released) => received + released@.map_values(|s: String| s@),
        Recorded::Unchanged => received,
    }
}

fn push_all(received: &mut Vec<String>, released: &Vec<String>)
    ensures
        final(received)@.map_values(|s: String| s@) == old(received)@.map_values(|s: String| s@)
            + released@.map_values(|s: String| s@),
{
    let ghost start = received@.map_values(|s: String| s@);
    let mut k: usize = 0;
    while k < released.len()
        invariant
            k <= released.len(),
            received@.map_values(|s: String| s@) == start + released@.take(k as int).map_values(
                |s: String| s@,
            ),
        decreases released.len() - k,
    {
        let ghost before = received@.map_values(|s: String| s@);
        received.push(released[k].clone());
        assert(received@.map_values(|s: String| s@) =~= before.push(released@[k as int]@));
        assert(released@.take(k + 1).map_values(|s: String| s@) =~= released@.take(
            k as int,
        ).map_values(|s: String| s@).push(released@[k as int]@));
        k = k + 1;
    }
    assert(released@.take(k as int) =~= released@);
}

/// Adds what recording one message came to to the walk's list of received
/// messages.
pub fn note_received(received: &mut Vec<String>, message_id: &str, recorded: &Recorded)
    ensures
        final(received)@.map_values(|s: String| s@) == received_after(
            old(received)@.map_values(|s: String| s@),
            message_id@,
            *recorded,
        ),
{
    match recorded {
        Recorded::Accepted(released) => {
            let ghost before = received@.map_values(|s: String| s@);
            received.push(message_id.to_owned());
            assert(received@.map_values(|s: String| s@) =~= before.push(message_id@));
            push_all(received, released);
        },
        Recorded::ReceiptAccepted(released) => push_all(received, released),
        Recorded::ExpiredAccepted(released) => push_all(received, released),
        Recorded::Unchanged => {},
    }
}

/// The character position at which the first `b` bytes of `s` end, when a
/// character ends there.
pub open spec fn boundary(s: Seq<char>, b: int) -> Option<int> {
    if exists|k: int| 0 <= k <= s.len() && byte_len(#[trigger] s.take(k)) == b {
        Some(choose|k: int| 0 <= k <= s.len() && byte_len(#[trigger] s.take(k)) == b)
    } else {
        None
    }
}

/// The characters between bytes `from` and `to` (`str::get(from..to)`):
/// `None` unless both fall on character boundaries in order.
pub open spec fn byte_slice(s: Seq<char>, from: int, to: int) -> Option<Seq<char>> {
    match (boundary(s, from), boundary(s, to)) {
        (Some(a), Some(b)) => if a <= b {
            Some(s.subrange(a, b))
        } else {
            None
        },
        _ => None,
    }
}

proof fn lemma_byte_len_strict(s: Seq<char>, i: int, j: int)
    requires
        0 <= i < j <= s.len(),
    ensures
        byte_len(s.take(i)) < byte_len(s.take(j)),
{
    assert(s.take(i + 1) =~= s.take(i).push(s[i]));
    lemma_byte_len_push(s.take(i), s[i]);
    lemma_byte_len_monotone(s, i + 1, j);
}

/// Where the first `b` bytes of `s` end, if a character ends there.
fn find_boundary(s: &Vec<char>, b: usize) -> (r: Option<usize>)
    requires
        b <= 1024,
    ensures
        match r {
            Some(k) => boundary(s@, b as int) == Some(k as int),
            None => boundary(s@, b as int) is None,
        },
{
    let mut k: usize = 0;
    let mut acc: usize = 0;
    assert(s@.take(0) =~= Seq::<char>::empty());
    assert(byte_len(Seq::<char>::empty()) == 0) by {
        assert(vstd::utf8::encode_utf8(Seq::<char>::empty()) =~= Seq::<u8>::empty());
    }
    while k < s.len() && acc < b
        invariant
            k <= s.len(),
            acc == byte_len(s@.take(k as int)),
            b <= 1024,
            acc < b + 4,
            forall|j: int| 0 <= j < k ==> byte_len(#[trigger] s@.take(j)) < b,
        decreases s.len() - k,
    {
        proof {
            assert(s@.take(k + 1) =~= s@.take(k as int).push(s@[k as int]));
            lemma_byte_len_push(s@.take(k as int), s@[k as int]);
        }
        let c = s[k];
        let w: usize = if c <= '\u{7f}' {
            1
        } else if c <= '\u{7ff}' {
            2
        } else if c <= '\u{ffff}' {
            3
        } else {
            4
        };
        assert(w == char_width(c));
        acc = acc + w;
        k = k + 1;
    }
    if acc == b {
        proof {
            assert(byte_len(s@.take(k as int)) == b);
            let c = choose|c: int| 0 <= c <= s@.len() && byte_len(#[trigger] s@.take(c)) == b;
            if c < k {
                lemma_byte_len_strict(s@, c, k as int);
            } else if c > k {
                lemma_byte_len_strict(s@, k as int, c);
            }
        }
        Some(k)
    } else {
        proof {
            assert forall|c: int| 0 <= c <= s@.len() implies byte_len(#[trigger] s@.take(c)) != b by {
                if c < k {
                } else if c > k {
                    lemma_byte_len_strict(s@, k as int, c);
                    if k == s.len() {
                    }
                }
            }
        }
        None
    }
}

/// `str::get(from..to)` over the characters of a string, for small offsets.
fn get_bytes(s: &Vec<char>, from: usize, to: usize) -> (r: Option<Vec<char>>)
    requires
        from <= 1024,
        to <= 1024,
    ensures
        match r {
            Some(t) => byte_slice(s@, from as int, to as int) == Some(t@),
            None => byte_slice(s@, from as int, to as int) is None,
        },
{
    match (find_boundary(s, from), find_boundary(s, to)) {
        (Some(a), Some(b)) => if a <= b {
            Some(slice(s, a, b))
        } else {
            None
        },
        _ => None,
    }
}

/// The name a message is published under: `messages/YYYY/MM/<id>.age`,
/// the year and month read from the bytes of its creation time, with
/// zeros where those bytes are not there.
pub open spec fn message_object_name(message_id: Seq<char>, created_at: Seq<char>) -> Seq<char> {
    let year = match byte_slice(created_at, 0, 4) {
        Some(y) => y,
        None => "0000"@,
    };
    let month = match byte_slice(created_at, 5, 7) {
        Some(m) => m,
        None => "00"@,
    };
    "messages/"@ + year + "/"@ + month + "/"@ + message_id + ".age"@
}

/// The name a message is published under.
pub fn outgoing_message_object_name(message_id: &str, created_at: &str) -> (r: String)
    ensures
        r@ == message_object_name(message_id@, created_at@),
{
    let created = chars_of(created_at);
    let mut out = chars_of("messages/");
    match get_bytes(&created, 0, 4) {
        Some(y) => extend(&mut out, &y),
        None => extend_str(&mut out, "0000"),
    }
    extend_str(&mut out, "/");
    match get_bytes(&created, 5, 7) {
        Some(m) => extend(&mut out, &m),
        None => extend_str(&mut out, "00"),
    }
    extend_str(&mut out, "/");
    extend_str(&mut out, message_id);
    extend_str(&mut out, ".age");
    string_of(out.as_slice())
}

} // verus!
