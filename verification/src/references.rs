//! Checkable references on a delegation result.
//!
//! A result says what an assignee did, and most of the time that is only
//! their word for it. A reference makes one part of the claim checkable: the
//! result names a commit, and the requester's own checkout says whether that
//! commit exists. What the trusted review shows beside a result is written
//! here; the checkout is asked only about a well-formed commit name.
use vstd::prelude::*;

use crate::text::{chars_of, equals_str, extend, extend_str, slice, string_of};

verus! {

broadcast use vstd::string::group_string_axioms;

/// What a checkout knows about a commit a result names.
#[derive(Debug, Clone, Copy, PartialEq, Eq, Structural)]
pub enum CommitCheck {
    /// The commit exists here and the checked-out `HEAD` contains it.
    InHistory,
    /// The commit exists here but is not in `HEAD`'s history.
    Present,
    /// This checkout has no such commit.
    Missing,
    /// The review is not running inside a Git checkout.
    NoCheckout,
}

/// One reference a result names.
pub struct ReferenceClaim {
    /// What kind of thing it names, such as `commit`.
    pub kind: String,
    /// The object it names.
    pub id: String,
    /// Whether it passed validation.
    pub well_formed: bool,
}

/// Whether a reference is one the checkout may be asked about: well formed,
/// and a commit.
pub open spec fn is_checkable(r: ReferenceClaim) -> bool {
    r.well_formed && r.id@.len() >= 12 && r.kind@ == "commit"@
}

/// Whether the checkout may be asked about this reference.
pub fn needs_check(r: &ReferenceClaim) -> (b: bool)
    ensures
        b == is_checkable(*r),
{
    let kind = chars_of(r.kind.as_str());
    let id = chars_of(r.id.as_str());
    r.well_formed && id.len() >= 12 && equals_str(&kind, "commit")
}

/// What the review says of one reference that was not checked.
pub open spec fn unchecked_line(r: ReferenceClaim) -> Seq<char> {
    if !r.well_formed || r.id@.len() < 12 {
        "A reference in this result is malformed and was not checked."@
    } else {
        "A reference of a kind this version does not know was not checked."@
    }
}

/// What the review says of a commit, by what the checkout answered.
pub open spec fn commit_line(id: Seq<char>, c: CommitCheck) -> Seq<char> {
    "commit "@ + id.take(12) + match c {
        CommitCheck::InHistory => ": found here, and your HEAD contains it"@,
        CommitCheck::Present => ": found here, but not in your HEAD's history"@,
        CommitCheck::Missing => ": CLAIMED BUT NOT FOUND in this checkout (fetching may bring it)"@,
        CommitCheck::NoCheckout => ": not checked, this is not running in a Git checkout"@,
    }
}

/// The line a result that could not be read gets.
pub open spec fn unreadable_line() -> Seq<char> {
    "This result could not be read, so nothing in it was checked."@
}

/// The line a result that names no commit gets.
pub open spec fn nothing_named_line() -> Seq<char> {
    "This result names no commit. What it says was done is the sender's word."@
}

/// Whether `line` is what the review says of reference `claim`, the `j`th,
/// when `check` answers for the checkout.
pub open spec fn reports<F: Fn(usize) -> CommitCheck>(
    check: F,
    claim: ReferenceClaim,
    j: usize,
    line: Seq<char>,
) -> bool {
    if is_checkable(claim) {
        exists|c: CommitCheck| call_ensures(check, (j,), c) && line == commit_line(claim.id@, c)
    } else {
        line == unchecked_line(claim)
    }
}

fn commit_text(id: &str, c: CommitCheck) -> (s: String)
    requires
        id@.len() >= 12,
    ensures
        s@ == commit_line(id@, c),
{
    let chars = chars_of(id);
    let short = slice(&chars, 0, 12);
    let mut out: Vec<char> = Vec::new();
    extend_str(&mut out, "commit ");
    extend(&mut out, &short);
    match c {
        CommitCheck::InHistory => extend_str(&mut out, ": found here, and your HEAD contains it"),
        CommitCheck::Present => extend_str(&mut out, ": found here, but not in your HEAD's history"),
        CommitCheck::Missing => extend_str(
            &mut out,
            ": CLAIMED BUT NOT FOUND in this checkout (fetching may bring it)",
        ),
        CommitCheck::NoCheckout => extend_str(
            &mut out,
            ": not checked, this is not running in a Git checkout",
        ),
    }
    assert(out@ =~= commit_line(id@, c));
    string_of(out.as_slice())
}

/// The lines the trusted review shows beside a message: nothing for any
/// kind but a result; for a result, one line per reference up to
/// `max_references`, saying what the checkout answered about each commit.
/// `check(i)` asks the checkout about reference `i`, and it is asked only
/// about a well-formed commit; `references` is `None` for a result body
/// that could not be read.
pub fn local_checks_with<F: Fn(usize) -> CommitCheck>(
    kind: &str,
    references: Option<&Vec<ReferenceClaim>>,
    max_references: usize,
    check: F,
) -> (r: Vec<String>)
    requires
        match references {
            Some(v) => forall|i: usize|
                i < v.len() && is_checkable(#[trigger] v@[i as int]) ==> check.requires((i,)),
            None => true,
        },
    ensures
        kind@ != "result"@ ==> r.len() == 0,
        kind@ == "result"@ ==> match references {
            None => r.len() == 1 && r@[0]@ == unreadable_line(),
            Some(v) => if v.len() == 0 {
                r.len() == 1 && r@[0]@ == nothing_named_line()
            } else {
                &&& r.len() == if v.len() < max_references {
                    v.len() as int
                } else {
                    max_references as int
                }
                &&& forall|i: int|
                    0 <= i < r.len() ==> reports(check, v@[i], i as usize, (#[trigger] r@[i])@)
            },
        },
{
    let k = chars_of(kind);
    let mut out: Vec<String> = Vec::new();
    if !equals_str(&k, "result") {
        return out;
    }
    let v = match references {
        None => {
            out.push(
                string_of(
                    chars_of(
                        "This result could not be read, so nothing in it was checked.",
                    ).as_slice(),
                ),
            );
            return out;
        },
        Some(v) => v,
    };
    if v.len() == 0 {
        out.push(
            string_of(
                chars_of(
                    "This result names no commit. What it says was done is the sender's word.",
                ).as_slice(),
            ),
        );
        return out;
    }
    let n: usize = if v.len() < max_references { v.len() } else { max_references };
    let mut i: usize = 0;
    while i < n
        invariant
            i <= n <= v.len(),
            out.len() == i,
            forall|j: usize|
                j < v.len() && is_checkable(#[trigger] v@[j as int]) ==> check.requires((j,)),
            forall|j: int|
                0 <= j < i ==> reports(check, v@[j], j as usize, (#[trigger] out@[j])@),
        decreases n - i,
    {
        let claim = &v[i];
        let ghost before = out@;
        if needs_check(claim) {
            let c = check(i);
            let line = commit_text(claim.id.as_str(), c);
            out.push(line);
            assert(call_ensures(check, (i,), c) && out@[i as int]@ == commit_line(
                v@[i as int].id@,
                c,
            ));
            assert(exists|c2: CommitCheck|
                call_ensures(check, (i,), c2) && out@[i as int]@ == commit_line(
                    v@[i as int].id@,
                    c2,
                ));
        } else {
            let id = chars_of(claim.id.as_str());
            if !claim.well_formed || id.len() < 12 {
                out.push(
                    string_of(
                        chars_of(
                            "A reference in this result is malformed and was not checked.",
                        ).as_slice(),
                    ),
                );
            } else {
                out.push(
                    string_of(
                        chars_of(
                            "A reference of a kind this version does not know was not checked.",
                        ).as_slice(),
                    ),
                );
            }
        }
        assert forall|j: int| 0 <= j < i implies out@[j] == before[j] by {}
        assert(reports(check, v@[i as int], i, out@[i as int]@));
        i = i + 1;
    }
    out
}

} // verus!
