//! The parts of a review decision that happen after the screen closes.
//!
//! Editing before delivery and declining with a reason both run on the
//! ordinary terminal the review screen hands back, and both can still be
//! abandoned: an edit that is empty or unchanged delivers nothing, and an
//! empty reason is no reason.
use vstd::prelude::*;

use crate::decimal::{decimal, digits_chars, digits_of};
use crate::text::{
    chars_of, equals_str, extend, extend_str, lines, lines_of, same, slice, string_of, trim,
    trimmed,
};

verus! {

/// `s` without the `'\n'` and `'\r'` characters at its end.
pub open spec fn trim_line_ends(s: Seq<char>) -> Seq<char>
    decreases s.len(),
{
    if s.len() > 0 && (s.last() == '\n' || s.last() == '\r') {
        trim_line_ends(s.drop_last())
    } else {
        s
    }
}

/// What an edit delivers: the edited text without its final line endings,
/// unless that is blank or the same as the original.
///
/// An unchanged edit is not delivered as an edit, because recording
/// "edited" for content nobody changed would make the audit say something
/// that did not happen.
pub open spec fn delivered_edit(original: Seq<char>, edited: Seq<char>) -> Option<Seq<char>> {
    let t = trim_line_ends(edited);
    if trim(t).len() == 0 || t == trim_line_ends(original) {
        None
    } else {
        Some(t)
    }
}

fn trim_line_ends_chars(s: &Vec<char>) -> (t: Vec<char>)
    ensures
        t@ == trim_line_ends(s@),
{
    let mut j: usize = s.len();
    assert(s@.take(s.len() as int) =~= s@);
    while j > 0 && (s[j - 1] == '\n' || s[j - 1] == '\r')
        invariant
            j <= s.len(),
            trim_line_ends(s@) == trim_line_ends(s@.take(j as int)),
        decreases j,
    {
        proof {
            assert(s@.take(j as int).drop_last() =~= s@.take(j - 1));
        }
        j = j - 1;
    }
    proof {
        assert(s@.take(s.len() as int) =~= s@);
        if j > 0 {
            assert(s@.take(j as int).last() == s@[j - 1]);
        }
    }
    slice(s, 0, j)
}

/// What an edit should deliver, if anything.
pub fn worth_delivering(original: &str, edited: &str) -> (r: Option<String>)
    ensures
        match delivered_edit(original@, edited@) {
            Some(t) => r matches Some(x) && x@ == t,
            None => r is None,
        },
{
    let e = chars_of(edited);
    let o = chars_of(original);
    let t = trim_line_ends_chars(&e);
    let body = trimmed(&t);
    if body.len() == 0 {
        return None;
    }
    let base = trim_line_ends_chars(&o);
    if same(&t, &base) {
        return None;
    }
    Some(string_of(t.as_slice()))
}

proof fn lemma_trim_line_ends_ends(s: Seq<char>)
    ensures
        trim_line_ends(s).len() > 0 ==> trim_line_ends(s).last() != '\n' && trim_line_ends(
            s,
        ).last() != '\r',
    decreases s.len(),
{
    if s.len() > 0 && (s.last() == '\n' || s.last() == '\r') {
        lemma_trim_line_ends_ends(s.drop_last());
    }
}

/// An unchanged edit is never delivered, however its line endings differ,
/// and what is delivered never ends in a line ending.
pub proof fn law_only_a_real_change_is_delivered(original: Seq<char>, edited: Seq<char>)
    ensures
        trim_line_ends(edited) == trim_line_ends(original) ==> delivered_edit(original, edited)
            is None,
        delivered_edit(original, edited) matches Some(t) ==> t.len() > 0 && t.last() != '\n'
            && t.last() != '\r',
{
    lemma_trim_line_ends_ends(edited);
}

/// The question asked before an edit is delivered.
pub open spec fn edit_question(original: Seq<char>, edited: Seq<char>, destination: Seq<char>) -> Seq<
    char,
> {
    "Deliver your edit ("@ + digits_of(lines(edited).len()) + " lines, from "@ + digits_of(
        lines(original).len(),
    ) + ") to "@ + destination + "? [y/N] "@
}

/// The question asked before an edit is delivered.
pub fn edit_prompt(original: &str, edited: &str, destination: &str) -> (r: String)
    ensures
        r@ == edit_question(original@, edited@, destination@),
{
    let before = lines_of(&chars_of(original)).len();
    let after = lines_of(&chars_of(edited)).len();
    let mut out: Vec<char> = Vec::new();
    extend_str(&mut out, "Deliver your edit (");
    extend(&mut out, &digits_chars(after as u64));
    extend_str(&mut out, " lines, from ");
    extend(&mut out, &digits_chars(before as u64));
    extend_str(&mut out, ") to ");
    extend_str(&mut out, destination);
    extend_str(&mut out, "? [y/N] ");
    proof {
        let lo = lines(original@);
        let le = lines(edited@);
        assert(le.len() == after);
        assert(lo.len() == before);
    }
    string_of(out.as_slice())
}

/// Whether an answer to a yes/no question is a yes: `y` or `Y`, with
/// surrounding whitespace ignored. No answer is a no.
pub open spec fn is_yes(answer: Option<Seq<char>>) -> bool {
    match answer {
        Some(a) => trim(a) == "y"@ || trim(a) == "Y"@,
        None => false,
    }
}

/// Whether an answer to a yes/no question is a yes.
pub fn confirmed(answer: Option<&str>) -> (r: bool)
    ensures
        r == is_yes(
            match answer {
                Some(a) => Some(a@),
                None => None,
            },
        ),
{
    match answer {
        Some(a) => {
            let t = trimmed(&chars_of(a));
            equals_str(&t, "y") || equals_str(&t, "Y")
        },
        None => false,
    }
}

/// The reason sent back with a decline: the answer without surrounding
/// whitespace, or none when that is empty.
pub open spec fn reason_of(answer: Option<Seq<char>>) -> Option<Seq<char>> {
    match answer {
        Some(a) => if trim(a).len() > 0 {
            Some(trim(a))
        } else {
            None
        },
        None => None,
    }
}

/// The reason to send back, from what was typed.
pub fn decline_reason(answer: Option<&str>) -> (r: Option<String>)
    ensures
        match reason_of(
            match answer {
                Some(a) => Some(a@),
                None => None,
            },
        ) {
            Some(t) => r matches Some(x) && x@ == t,
            None => r is None,
        },
{
    match answer {
        Some(a) => {
            let t = trimmed(&chars_of(a));
            if t.len() > 0 {
                Some(string_of(t.as_slice()))
            } else {
                None
            }
        },
        None => None,
    }
}

} // verus!
