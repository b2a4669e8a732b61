//! What may be read from a repository into a context package.
//!
//! Nothing a sender or a manifest wrote reaches `git` or the filesystem
//! unchecked: a revision range must be a range and nothing else, an excerpt
//! path must stay inside its repository, and a capture is bounded.
use vstd::prelude::*;

use crate::error::CliError;
use crate::text::{chars_of, extend, extend_str, lines, lines_of, string_of, trim, trimmed};
use vstd::utf8::{encode_scalar, encode_utf8};

verus! {

broadcast use vstd::utf8::char_is_scalar;

/// Whether a character may appear in a plain revision range.
pub open spec fn is_range_char(c: char) -> bool {
    ('a' <= c && c <= 'z') || ('A' <= c && c <= 'Z') || ('0' <= c && c <= '9') || c == '.' || c
        == '_' || c == '-' || c == '/' || c == '~' || c == '^' || c == '@'
}

/// Whether a string is a revision range and nothing else: not empty, not
/// an option, at most 200 bytes, and made only of the characters a range
/// uses, once surrounding whitespace is removed.
pub open spec fn is_plain_range(s: Seq<char>) -> bool {
    let t = trim(s);
    t.len() > 0 && t[0] != '-' && t.len() <= 200 && forall|i: int|
        0 <= i < t.len() ==> is_range_char(#[trigger] t[i])
}

/// Whether a string is a revision range and nothing else.
///
/// Deliberately narrow. Anything starting with `-` is an option, and
/// whitespace makes it more than one argument.
pub fn is_plain_revision_range(range: &str) -> (r: bool)
    ensures
        r == is_plain_range(range@),
{
    let all = chars_of(range);
    let t = trimmed(&all);
    if t.len() == 0 || t[0] == '-' || t.len() > 200 {
        return false;
    }
    let mut k: usize = 0;
    while k < t.len()
        invariant
            k <= t.len(),
            t@ == trim(range@),
            forall|i: int| 0 <= i < k ==> is_range_char(#[trigger] t@[i]),
        decreases t.len() - k,
    {
        let c = t[k];
        if !(('a' <= c && c <= 'z') || ('A' <= c && c <= 'Z') || ('0' <= c && c <= '9') || c
            == '.' || c == '_' || c == '-' || c == '/' || c == '~' || c == '^' || c == '@') {
            assert(!is_range_char(t@[k as int]));
            return false;
        }
        k = k + 1;
    }
    true
}

/// A path with `\` read as `/`.
pub open spec fn with_forward_slashes(p: Seq<char>) -> Seq<char> {
    p.map_values(|c: char|
        if c == '\\' {
            '/'
        } else {
            c
        })
}

/// Whether position `i` of `n` starts a `..` path component.
pub open spec fn parent_component_at(n: Seq<char>, i: int) -> bool {
    0 <= i && i + 2 <= n.len() && (i == 0 || n[i - 1] == '/') && n[i] == '.' && n[i + 1] == '.'
        && (i + 2 == n.len() || n[i + 2] == '/')
}

/// Whether an excerpt path is relative to its repository and stays inside
/// it: not empty, not rooted, and with no `..` component, once `\` is read
/// as a separator (POSIX path rules).
pub open spec fn is_relative_inside(p: Seq<char>) -> bool {
    let n = with_forward_slashes(p);
    n.len() > 0 && n[0] != '/' && !exists|i: int| parent_component_at(n, i)
}

/// Whether an excerpt path is repository-relative.
///
/// Context manifests move between Windows and Unix, so both separators are
/// treated as separators, or a Windows traversal could become an ordinary
/// filename on Unix.
pub fn is_repository_relative_path(path: &str) -> (r: bool)
    ensures
        r == is_relative_inside(path@),
{
    let raw = chars_of(path);
    let mut n: Vec<char> = Vec::new();
    let mut k: usize = 0;
    while k < raw.len()
        invariant
            k <= raw.len(),
            n@ == with_forward_slashes(raw@.take(k as int)),
        decreases raw.len() - k,
    {
        let c = raw[k];
        n.push(
            if c == '\\' {
                '/'
            } else {
                c
            },
        );
        k = k + 1;
        assert(n@ =~= with_forward_slashes(raw@.take(k as int)));
    }
    assert(raw@.take(raw.len() as int) =~= raw@);
    if n.len() == 0 || n[0] == '/' {
        return false;
    }
    let mut i: usize = 0;
    while i < n.len()
        invariant
            i <= n.len(),
            n@ == with_forward_slashes(path@),
            forall|j: int| 0 <= j < i ==> !parent_component_at(n@, j),
        decreases n.len() - i,
    {
        if (i == 0 || n[i - 1] == '/') && n.len() >= 2 && i <= n.len() - 2 && n[i] == '.' && n[i + 1] == '.' && (i
            + 2 == n.len() || n[i + 2] == '/') {
            assert(parent_component_at(n@, i as int));
            return false;
        }
        i = i + 1;
    }
    assert forall|j: int| !parent_component_at(n@, j) by {
        if 0 <= j < i {
        }
    }
    true
}

/// How many bytes UTF-8 uses for a character.
pub open spec fn char_width(c: char) -> nat {
    if c <= '\u{7f}' {
        1
    } else if c <= '\u{7ff}' {
        2
    } else if c <= '\u{ffff}' {
        3
    } else {
        4
    }
}

/// The UTF-8 length of a string.
pub open spec fn byte_len(s: Seq<char>) -> nat {
    encode_utf8(s).len()
}

proof fn lemma_char_width(c: char)
    ensures
        encode_scalar(c as u32).len() == char_width(c),
{
}

pub proof fn lemma_byte_len_push(s: Seq<char>, c: char)
    ensures
        byte_len(s.push(c)) == byte_len(s) + char_width(c),
    decreases s.len(),
{
    if s.len() == 0 {
        assert(s.push(c).drop_first() =~= Seq::<char>::empty());
        lemma_char_width(c);
        assert(encode_utf8(Seq::<char>::empty()).len() == 0);
        assert(encode_utf8(s.push(c)) == encode_scalar(s.push(c)[0] as u32) + encode_utf8(
            s.push(c).drop_first(),
        ));
        assert(s.push(c)[0] == c);
    } else {
        lemma_byte_len_push(s.drop_first(), c);
        assert(s.push(c).drop_first() =~= s.drop_first().push(c));
        assert(s.push(c)[0] == s[0]);
    }
}

/// The most bytes a capture keeps.
pub const MAX_CAPTURE_BYTES: usize = 65536;

/// How many characters of `s` fit in `MAX_CAPTURE_BYTES` bytes.
pub open spec fn fitting_chars(s: Seq<char>, k: nat) -> bool {
    k <= s.len() && byte_len(s.take(k as int)) <= MAX_CAPTURE_BYTES && (k == s.len() || byte_len(
        s.take(k as int + 1),
    ) > MAX_CAPTURE_BYTES)
}

/// The position of the last `'\n'` in `s`, if any.
pub open spec fn last_newline(s: Seq<char>) -> Option<int>
    decreases s.len(),
{
    if s.len() == 0 {
        None
    } else if s.last() == '\n' {
        Some(s.len() - 1)
    } else {
        last_newline(s.drop_last())
    }
}

/// A capture as it is kept: unchanged when it fits, otherwise cut at the
/// last whole line within the byte bound and marked as cut.
pub open spec fn bounded_capture(s: Seq<char>) -> Seq<char> {
    if byte_len(s) <= MAX_CAPTURE_BYTES {
        s
    } else {
        let k = choose|k: nat| fitting_chars(s, k);
        let head = s.take(k as int);
        let line = match last_newline(head) {
            Some(i) => head.take(i),
            None => head,
        };
        line + "\n[truncated by HRC at 65536 bytes]\n"@
    }
}

proof fn lemma_fitting_unique(s: Seq<char>, a: nat, b: nat)
    requires
        fitting_chars(s, a),
        fitting_chars(s, b),
    ensures
        a == b,
{
    if a < b {
        lemma_byte_len_monotone(s, a as int + 1, b as int);
    } else if b < a {
        lemma_byte_len_monotone(s, b as int + 1, a as int);
    }
}

pub proof fn lemma_byte_len_monotone(s: Seq<char>, i: int, j: int)
    requires
        0 <= i <= j <= s.len(),
    ensures
        byte_len(s.take(i)) <= byte_len(s.take(j)),
    decreases j - i,
{
    if i < j {
        lemma_byte_len_monotone(s, i, j - 1);
        assert(s.take(j) =~= s.take(j - 1).push(s[j - 1]));
        lemma_byte_len_push(s.take(j - 1), s[j - 1]);
    }
}

/// Bounds a capture, saying so in the text when it was cut.
///
/// The cut falls on a character boundary, then on a line, so the result is
/// neither invalid UTF-8 nor a half-written path.
pub fn truncate_capture(captured: String) -> (r: String)
    ensures
        r@ == bounded_capture(captured@),
{
    let s = chars_of(captured.as_str());
    let mut k: usize = 0;
    let mut used: usize = 0;
    assert(s@.take(0) =~= Seq::<char>::empty());
    loop
        invariant
            k <= s.len(),
            s@ == captured@,
            used == byte_len(s@.take(k as int)),
            used <= MAX_CAPTURE_BYTES,
        ensures
            fitting_chars(s@, k as nat),
        decreases s.len() - k,
    {
        if k == s.len() {
            assert(s@.take(k as int) =~= s@);
            break;
        }
        let c = s[k];
        let w: usize = if c <= '\u{7f}' {
            1
        } else if c <= '\u{7ff}' {
            2
        } else if c <= '\u{ffff}' {
            3
        } else {
            4
        };
        proof {
            assert(s@.take(k + 1) =~= s@.take(k as int).push(c));
            lemma_byte_len_push(s@.take(k as int), c);
        }
        if used + w > MAX_CAPTURE_BYTES {
            break;
        }
        used = used + w;
        k = k + 1;
    }
    if k == s.len() {
        proof {
            assert(s@.take(k as int) =~= s@);
        }
        return captured;
    }
    proof {
        lemma_byte_len_monotone(s@, k + 1, s.len() as int);
        assert(s@.take(s.len() as int) =~= s@);
    }
    // the last line break within the kept characters
    let mut cut: usize = k;
    let mut j: usize = k;
    let ghost head = s@.take(k as int);
    assert(head.take(k as int) =~= head);
    while j > 0 && s[j - 1] != '\n'
        invariant
            j <= k <= s.len(),
            head == s@.take(k as int),
            last_newline(head) == last_newline(head.take(j as int)),
        decreases j,
    {
        proof {
            assert(head.take(j as int).drop_last() =~= head.take(j - 1));
        }
        j = j - 1;
    }
    let mut out: Vec<char> = Vec::new();
    if j > 0 {
        proof {
            assert(head.take(j as int).last() == s@[j - 1]);
        }
        cut = j - 1;
    } else {
        proof {
            assert(head.take(0) =~= Seq::<char>::empty());
        }
    }
    let kept = crate::text::slice(&s, 0, cut);
    extend(&mut out, &kept);
    extend_str(&mut out, "\n[truncated by HRC at 65536 bytes]\n");
    proof {
        let k0 = choose|k0: nat| fitting_chars(s@, k0);
        assert(fitting_chars(s@, k as nat));
        lemma_fitting_unique(s@, k0, k as nat);
        assert(kept@ =~= (match last_newline(head) {
            Some(i) => head.take(i),
            None => head,
        }));
    }
    string_of(out.as_slice())
}

proof fn lemma_fitting_exists(s: Seq<char>, k: nat)
    requires
        k <= s.len(),
        byte_len(s.take(k as int)) <= MAX_CAPTURE_BYTES,
    ensures
        exists|j: nat| fitting_chars(s, j),
    decreases s.len() - k,
{
    if k < s.len() && byte_len(s.take(k as int + 1)) <= MAX_CAPTURE_BYTES {
        lemma_fitting_exists(s, k + 1);
    } else {
        assert(fitting_chars(s, k));
    }
}

proof fn lemma_byte_len_concat(a: Seq<char>, b: Seq<char>)
    ensures
        byte_len(a + b) == byte_len(a) + byte_len(b),
    decreases b.len(),
{
    if b.len() == 0 {
        assert(a + b =~= a);
        assert(encode_utf8(b) =~= Seq::<u8>::empty());
    } else {
        lemma_byte_len_concat(a, b.drop_last());
        assert(a + b =~= (a + b.drop_last()).push(b.last()));
        assert(b =~= b.drop_last().push(b.last()));
        lemma_byte_len_push(a + b.drop_last(), b.last());
        lemma_byte_len_push(b.drop_last(), b.last());
    }
}

proof fn lemma_ascii_byte_len(s: Seq<char>)
    requires
        forall|i: int| 0 <= i < s.len() ==> s[i] <= '\u{7f}',
    ensures
        byte_len(s) == s.len(),
    decreases s.len(),
{
    if s.len() == 0 {
        assert(encode_utf8(s) =~= Seq::<u8>::empty());
    } else {
        lemma_ascii_byte_len(s.drop_last());
        assert(s =~= s.drop_last().push(s.last()));
        lemma_byte_len_push(s.drop_last(), s.last());
    }
}

/// What a cut capture keeps of its first `k` characters: everything before
/// their last line break, or all of them when there is none.
pub open spec fn kept_head(s: Seq<char>, k: nat) -> Seq<char> {
    match last_newline(s.take(k as int)) {
        Some(i) => s.take(i),
        None => s.take(k as int),
    }
}

/// A capture that fits is kept whole. One that does not is cut to its
/// longest whole-character prefix within `MAX_CAPTURE_BYTES` bytes, which
/// always exists, then before the last line break in that prefix (if it has
/// one), and marked as cut: what is kept is a prefix of the capture that
/// fits the bound, and the result is at most 35 bytes over it.
pub proof fn law_capture_is_bounded(s: Seq<char>)
    ensures
        byte_len(s) <= MAX_CAPTURE_BYTES ==> bounded_capture(s) == s,
        byte_len(s) > MAX_CAPTURE_BYTES ==> exists|k: nat| #[trigger] fitting_chars(s, k),
        byte_len(s) > MAX_CAPTURE_BYTES ==> forall|k: nat|
            #[trigger] fitting_chars(s, k) ==> {
                &&& k < s.len()
                &&& kept_head(s, k) == s.take(kept_head(s, k).len() as int)
                &&& byte_len(kept_head(s, k)) <= MAX_CAPTURE_BYTES
                &&& bounded_capture(s) == kept_head(s, k) + "\n[truncated by HRC at 65536 bytes]\n"@
            },
        byte_len(bounded_capture(s)) <= MAX_CAPTURE_BYTES + 35,
{
    if byte_len(s) > MAX_CAPTURE_BYTES {
        assert(s.take(0) =~= Seq::<char>::empty());
        assert(encode_utf8(Seq::<char>::empty()) =~= Seq::<u8>::empty());
        lemma_fitting_exists(s, 0);
        let marker = "\n[truncated by HRC at 65536 bytes]\n"@;
        reveal_strlit("\n[truncated by HRC at 65536 bytes]\n");
        lemma_ascii_byte_len(marker);
        assert forall|k: nat| #[trigger] fitting_chars(s, k) implies {
            &&& k < s.len()
            &&& kept_head(s, k) == s.take(kept_head(s, k).len() as int)
            &&& byte_len(kept_head(s, k)) <= MAX_CAPTURE_BYTES
            &&& bounded_capture(s) == kept_head(s, k) + marker
        } by {
            if k == s.len() {
                assert(s.take(k as int) =~= s);
            }
            let k0 = choose|k0: nat| fitting_chars(s, k0);
            lemma_fitting_unique(s, k0, k);
            let head = s.take(k as int);
            lemma_last_newline_range(head);
            let cut: int = match last_newline(head) {
                Some(i) => i,
                None => k as int,
            };
            assert(kept_head(s, k) =~= s.take(cut));
            assert(head.take(cut) =~= s.take(cut));
            lemma_byte_len_monotone(s, cut, k as int);
        }
        let k = choose|k: nat| fitting_chars(s, k);
        lemma_byte_len_concat(kept_head(s, k), marker);
    }
}

proof fn lemma_last_newline_range(s: Seq<char>)
    ensures
        last_newline(s) matches Some(i) ==> 0 <= i < s.len(),
    decreases s.len(),
{
    if s.len() > 0 && s.last() != '\n' {
        lemma_last_newline_range(s.drop_last());
    }
}

/// Whether `c` is an ASCII hexadecimal digit.
pub open spec fn is_hex_digit(c: char) -> bool {
    ('0' <= c && c <= '9') || ('a' <= c && c <= 'f') || ('A' <= c && c <= 'F')
}

/// Whether `s` is a full SHA-1 or SHA-256 object name: 40 or 64 hex digits.
pub open spec fn is_full_object_id(s: Seq<char>) -> bool {
    (s.len() == 40 || s.len() == 64) && forall|i: int| 0 <= i < s.len() ==> is_hex_digit(#[trigger] s[i])
}

/// Whether `sha` is a full object name.
pub fn full_object_id(sha: &str) -> (r: bool)
    ensures
        r == is_full_object_id(sha@),
{
    let c = chars_of(sha);
    if c.len() != 40 && c.len() != 64 {
        return false;
    }
    let mut k: usize = 0;
    while k < c.len()
        invariant
            k <= c.len(),
            c@ == sha@,
            forall|i: int| 0 <= i < k ==> is_hex_digit(#[trigger] c@[i]),
        decreases c.len() - k,
    {
        let d = c[k];
        if !(('0' <= d && d <= '9') || ('a' <= d && d <= 'f') || ('A' <= d && d <= 'F')) {
            return false;
        }
        k = k + 1;
    }
    true
}

/// Why an excerpt request is refused before anything is read, if it is.
pub open spec fn excerpt_refusal(path: Seq<char>, first_line: u32, last_line: u32, commit: Option<Seq<char>>) -> Option<Seq<char>> {
    if !is_relative_inside(path) {
        Some("excerpt paths must be repository-relative"@)
    } else if first_line == 0 || last_line < first_line {
        Some("excerpt line range is invalid"@)
    } else if commit is Some && !is_full_object_id(commit->0) {
        Some("excerpt commit must be a full SHA-1 or SHA-256 object ID"@)
    } else {
        None
    }
}

/// A refusal of a context source, for `reason`.
pub open spec fn refuses(e: CliError, reason: Seq<char>) -> bool {
    e matches CliError::InvalidContextSource { reason: r } && r@ == reason
}

fn invalid_source(reason: &str) -> (e: CliError)
    ensures
        refuses(e, reason@),
{
    CliError::InvalidContextSource { reason: reason.to_owned() }
}

/// Checks an excerpt request before any source is read: the path stays
/// inside the repository, the line range is a range starting at line one or
/// later, and a commit, when given, is a full object name.
pub fn check_excerpt_request(path: &str, first_line: u32, last_line: u32, commit: Option<&str>) -> (r:
    Result<(), CliError>)
    ensures
        match excerpt_refusal(
            path@,
            first_line,
            last_line,
            match commit {
                Some(c) => Some(c@),
                None => None,
            },
        ) {
            None => r is Ok,
            Some(reason) => r matches Err(e) && refuses(e, reason),
        },
{
    if !is_repository_relative_path(path) {
        return Err(invalid_source("excerpt paths must be repository-relative"));
    }
    if first_line == 0 || last_line < first_line {
        return Err(invalid_source("excerpt line range is invalid"));
    }
    match commit {
        Some(c) => {
            if !full_object_id(c) {
                return Err(invalid_source("excerpt commit must be a full SHA-1 or SHA-256 object ID"));
            }
        },
        None => {},
    }
    Ok(())
}

/// The revision `git rev-parse --verify` is asked about: the commit itself.
pub fn commit_expression(sha: &str) -> (r: String)
    ensures
        r@ == sha@ + "^{commit}"@,
{
    let mut out: Vec<char> = Vec::new();
    extend_str(&mut out, sha);
    extend_str(&mut out, "^{commit}");
    string_of(out.as_slice())
}

/// The object `git show` reads for a committed excerpt: `<sha>:<path>`,
/// with `\` read as `/`.
pub fn committed_path(sha: &str, path: &str) -> (r: String)
    ensures
        r@ == sha@ + ":"@ + with_forward_slashes(path@),
{
    let mut out: Vec<char> = Vec::new();
    extend_str(&mut out, sha);
    extend_str(&mut out, ":");
    let p = chars_of(path);
    let ghost start = out@;
    let mut k: usize = 0;
    while k < p.len()
        invariant
            k <= p.len(),
            out@ == start + with_forward_slashes(p@.take(k as int)),
        decreases p.len() - k,
    {
        let c = p[k];
        out.push(if c == '\\' { '/' } else { c });
        k = k + 1;
        assert(out@ =~= start + with_forward_slashes(p@.take(k as int)));
    }
    assert(p@.take(p.len() as int) =~= p@);
    string_of(out.as_slice())
}

/// Lines joined with `"\n"` between them (`[&str]::join`).
pub open spec fn join_lines(ls: Seq<Seq<char>>) -> Seq<char>
    decreases ls.len(),
{
    if ls.len() == 0 {
        seq![]
    } else if ls.len() == 1 {
        ls[0]
    } else {
        join_lines(ls.drop_last()) + seq!['\n'] + ls.last()
    }
}

/// The lines `first_line..=last_line` of `source` as the excerpt reads
/// them, joined with `"\n"`; `None` unless the result has exactly that many
/// lines.
pub open spec fn excerpt_of(source: Seq<char>, first_line: int, last_line: int) -> Option<Seq<char>> {
    let ls = lines(source);
    let n = last_line - first_line + 1;
    let a = if first_line - 1 < ls.len() { first_line - 1 } else { ls.len() as int };
    let b = if first_line - 1 + n < ls.len() { first_line - 1 + n } else { ls.len() as int };
    let selected = join_lines(ls.subrange(a, b));
    if lines(selected).len() == n {
        Some(selected)
    } else {
        None
    }
}

/// Selects the lines `first_line..=last_line` of an excerpt's source,
/// refusing a range the source does not hold.
pub fn select_excerpt(source: &str, first_line: u32, last_line: u32) -> (r: Result<String, CliError>)
    requires
        1 <= first_line <= last_line,
    ensures
        match excerpt_of(source@, first_line as int, last_line as int) {
            Some(text) => r matches Ok(t) && t@ == text,
            None => r matches Err(e) && refuses(e, "excerpt line range is outside the source file"@),
        },
{
    let chars = chars_of(source);
    let ls = lines_of(&chars);
    let ghost lv = ls@.map_values(|l: Vec<char>| l@);
    assert(lv == lines(source@));
    let n: usize = (last_line - first_line) as usize + 1;
    let skip: usize = (first_line - 1) as usize;
    let a: usize = if skip < ls.len() { skip } else { ls.len() };
    let b: usize = if n < ls.len() - a { a + n } else { ls.len() };
    let mut out: Vec<char> = Vec::new();
    let mut k: usize = a;
    assert(lv.subrange(a as int, a as int) =~= Seq::<Seq<char>>::empty());
    while k < b
        invariant
            a <= k <= b <= ls.len(),
            lv == ls@.map_values(|l: Vec<char>| l@),
            out@ == join_lines(lv.subrange(a as int, k as int)),
        decreases b - k,
    {
        let ghost before = lv.subrange(a as int, k as int);
        assert(lv.subrange(a as int, k + 1).drop_last() =~= before);
        assert(lv.subrange(a as int, k + 1).last() == ls@[k as int]@);
        if k > a {
            out.push('\n');
        }
        extend(&mut out, &ls[k]);
        k = k + 1;
        proof {
            if k - 1 > a {
                assert(out@ =~= join_lines(before) + seq!['\n'] + ls@[k - 1]@);
            } else {
                assert(lv.subrange(a as int, k as int).len() == 1);
                assert(out@ =~= lv.subrange(a as int, k as int)[0]);
            }
        }
    }
    let got = lines_of(&out);
    assert(got@.map_values(|l: Vec<char>| l@).len() == got.len());
    if got.len() == n {
        Ok(string_of(out.as_slice()))
    } else {
        Err(invalid_source("excerpt line range is outside the source file"))
    }
}

} // verus!
