//! Where a channel's repository is.
//!
//! The documented `owner/name` shorthand is expanded into a URL Git can use.
//! Anything already carrying a scheme, an SCP-style `host:path`, or a
//! filesystem path is left exactly as given: a local bare repository is a
//! legitimate transport and must not be rewritten into a GitHub URL. Only the
//! unambiguous two-segment shorthand is expanded.
use vstd::prelude::*;

use crate::text::{
    count_char, first_index, chars_of, contains, contains_char, contains_seq, extend, extend_str, has_suffix, is_whitespace,
    occurs_at, slice, string_of, trim, trim_end, trim_start, trimmed,
};

verus! {

/// Whether a locator reads as a filesystem path: absolute, relative, home
/// relative, a Windows share, or a Windows drive (a single-byte first
/// character followed by `:`).
pub open spec fn looks_like_a_path(t: Seq<char>) -> bool {
    t.len() > 0 && (t[0] == '/' || t[0] == '.' || t[0] == '~' || t[0] == '\\') || (t.len() >= 2
        && t[0] <= '\u{7f}' && t[1] == ':')
}

/// Whether a locator already says where it points.
pub open spec fn is_addressable(t: Seq<char>) -> bool {
    contains_seq(t, "://"@) || t.contains('@') || looks_like_a_path(t)
}

/// The canonical locator for what a person typed.
pub open spec fn canonical_locator(repo: Seq<char>) -> Seq<char> {
    let t = trim(repo);
    if is_addressable(t) || count_char(t, '/') != 1 {
        t
    } else {
        let i = first_index(t, '/');
        let owner = t.take(i);
        let name = t.skip(i + 1);
        if owner.len() == 0 || name.len() == 0 {
            t
        } else {
            let bare = if has_suffix(name, ".git"@) {
                name.take(name.len() - 4)
            } else {
                name
            };
            "https://github.com/"@ + owner + "/"@ + bare + ".git"@
        }
    }
}

/// The number of times `c` occurs, and where it first does.
fn count_and_first(s: &Vec<char>, c: char) -> (r: (usize, usize))
    ensures
        r.0 == count_char(s@, c),
        r.1 == first_index(s@, c),
{
    let mut count: usize = 0;
    let mut first: usize = s.len();
    let mut k: usize = 0;
    proof {
        crate::text::lemma_count_and_first(s@, c);
    }
    while k < s.len()
        invariant
            k <= s.len(),
            count == count_char(s@.take(k as int), c),
            count <= k,
            first_index(s@, c) < k ==> first == first_index(s@, c),
            first_index(s@, c) >= k ==> first == s.len(),
            0 <= first_index(s@, c) <= s.len(),
            first_index(s@, c) < s.len() ==> s@[first_index(s@, c)] == c,
            forall|j: int| 0 <= j < first_index(s@, c) ==> s@[j] != c,
        decreases s.len() - k,
    {
        assert(s@.take(k + 1).drop_last() =~= s@.take(k as int));
        assert(s@.take(k + 1).last() == s@[k as int]);
        if s[k] == c {
            count = count + 1;
            if first == s.len() {
                first = k;
            }
        }
        k = k + 1;
    }
    assert(s@.take(k as int) =~= s@);
    (count, first)
}

/// Expands the documented `owner/name` shorthand into a URL Git can use.
pub fn canonical_repository(repo: &str) -> (r: String)
    ensures
        r@ == canonical_locator(repo@),
{
    let all = chars_of(repo);
    let t = trimmed(&all);
    let scheme = chars_of("://");
    let looks_like_a_path = (t.len() > 0 && (t[0] == '/' || t[0] == '.' || t[0] == '~' || t[0]
        == '\\')) || (t.len() >= 2 && t[0] <= '\u{7f}' && t[1] == ':');
    if contains(&t, &scheme) || contains_char(&t, '@') || looks_like_a_path {
        return string_of(t.as_slice());
    }
    let (slashes, i) = count_and_first(&t, '/');
    if slashes != 1 {
        return string_of(t.as_slice());
    }
    proof {
        crate::text::lemma_count_and_first(t@, '/');
    }
    let owner = slice(&t, 0, i);
    let name = slice(&t, i + 1, t.len());
    assert(owner@ =~= t@.take(i as int));
    assert(name@ =~= t@.skip(i + 1));
    if owner.len() == 0 || name.len() == 0 {
        return string_of(t.as_slice());
    }
    let suffix = chars_of(".git");
    proof {
        reveal_strlit(".git");
    }
    let bare = if crate::text::ends_with(&name, &suffix) {
        slice(&name, 0, name.len() - 4)
    } else {
        name
    };
    let mut out: Vec<char> = Vec::new();
    extend_str(&mut out, "https://github.com/");
    extend(&mut out, &owner);
    extend_str(&mut out, "/");
    extend(&mut out, &bare);
    extend_str(&mut out, ".git");
    proof {
        reveal_strlit(".git");
        let nm = t@.skip(i + 1);
        if has_suffix(nm, ".git"@) {
            assert(bare@ =~= nm.take(nm.len() - 4));
        }
    }
    string_of(out.as_slice())
}

proof fn lemma_trim_idempotent(s: Seq<char>)
    ensures
        trim(trim(s)) == trim(s),
{
    crate::text::lemma_trim_start_suffix(s);
    let a = trim_start(s);
    crate::text::lemma_trim_end_prefix(a);
    let t = trim_end(a);
    // t has no whitespace at either end
    if t.len() > 0 {
        assert(t[0] == a[0]);
    }
    assert(trim_start(t) == t);
    crate::text::lemma_trim_end_prefix(t);
    assert(trim_end(t) == t);
}

/// Canonicalizing is idempotent: a canonical locator is left as it is.
pub proof fn law_canonical_locator_is_stable(repo: Seq<char>)
    ensures
        canonical_locator(canonical_locator(repo)) == canonical_locator(repo),
{
    reveal_strlit("://");
    reveal_strlit("https://github.com/");
    reveal_strlit("/");
    reveal_strlit(".git");
    let t = trim(repo);
    lemma_trim_idempotent(repo);
    let c = canonical_locator(repo);
    if c == t {
        // a locator left alone is classified the same way the second time
        assert(trim(c) == t);
    } else {
        assert(c[0] == 'h');
        assert(c[c.len() - 1] == 't');
        assert(trim_start(c) == c);
        assert(trim_end(c) == c);
        assert(trim(c) == c);
        assert(c.subrange(5, 8) =~= "://"@);
        assert(occurs_at(c, "://"@, 5));
        assert(is_addressable(c));
    }
}

} // verus!
