//! Decimal numbers in text: what `str::parse` accepts for the integer types
//! this crate reads, and the zero-padded form `format!("{:0w}")` writes.
use vstd::prelude::*;

use crate::text::{lemma_str_before_extend, lemma_str_before_last, str_before};

verus! {

/// An ASCII decimal digit.
pub open spec fn is_digit(c: char) -> bool {
    '0' <= c && c <= '9'
}

/// The value of an ASCII decimal digit.
pub open spec fn digit_value(c: char) -> int {
    c as int - '0' as int
}

/// Whether every character is an ASCII decimal digit.
pub open spec fn all_digits(s: Seq<char>) -> bool {
    forall|i: int| 0 <= i < s.len() ==> is_digit(#[trigger] s[i])
}

/// The value of a string of decimal digits, most significant first.
pub open spec fn decimal_value(s: Seq<char>) -> nat
    decreases s.len(),
{
    if s.len() == 0 {
        0
    } else {
        (decimal_value(s.drop_last()) * 10 + digit_value(s.last())) as nat
    }
}

/// What `str::parse` gives for an integer type whose values are `lo..=hi`;
/// `signed` says whether the type accepts a leading `-`.
///
/// An optional sign, then at least one ASCII digit, and a value in range.
pub open spec fn parse_integer(s: Seq<char>, signed: bool, lo: int, hi: int) -> Option<int> {
    if s.len() == 0 {
        None
    } else {
        let negative = signed && s[0] == '-';
        let has_sign = s[0] == '+' || negative;
        let digits = if has_sign {
            s.drop_first()
        } else {
            s
        };
        if digits.len() == 0 || !all_digits(digits) {
            None
        } else {
            let v = if negative {
                -decimal_value(digits)
            } else {
                decimal_value(digits) as int
            };
            if lo <= v && v <= hi {
                Some(v)
            } else {
                None
            }
        }
    }
}

/// `str::parse::<i64>`.
pub open spec fn parse_i64(s: Seq<char>) -> Option<int> {
    parse_integer(s, true, i64::MIN as int, i64::MAX as int)
}

/// `str::parse::<u64>`.
pub open spec fn parse_u64(s: Seq<char>) -> Option<int> {
    parse_integer(s, false, 0, u64::MAX as int)
}

proof fn lemma_decimal_value_push(s: Seq<char>, c: char)
    requires
        is_digit(c),
    ensures
        decimal_value(s.push(c)) == decimal_value(s) * 10 + digit_value(c),
{
    assert(s.push(c).drop_last() =~= s);
}

proof fn lemma_decimal_value_grows(s: Seq<char>, k: int)
    requires
        0 <= k <= s.len(),
        all_digits(s),
    ensures
        decimal_value(s.take(k)) <= decimal_value(s),
    decreases s.len() - k,
{
    if k < s.len() {
        lemma_decimal_value_grows(s, k + 1);
        assert(s.take(k + 1) =~= s.take(k).push(s[k]));
        lemma_decimal_value_push(s.take(k), s[k]);
        assert(is_digit(s[k]));
    } else {
        assert(s.take(k) =~= s);
    }
}

/// Magnitude of a digit string, or `None` once it exceeds `u64::MAX`.
fn digits_magnitude(s: &Vec<char>, from: usize) -> (r: Option<u64>)
    requires
        from <= s.len(),
    ensures
        all_digits(s@.subrange(from as int, s.len() as int)) ==> match r {
            Some(v) => v == decimal_value(s@.subrange(from as int, s.len() as int)),
            None => decimal_value(s@.subrange(from as int, s.len() as int)) > u64::MAX,
        },
        !all_digits(s@.subrange(from as int, s.len() as int)) ==> r is None,
{
    let ghost d = s@.subrange(from as int, s.len() as int);
    let mut acc: u64 = 0;
    let mut overflow = false;
    let mut k: usize = from;
    while k < s.len()
        invariant
            from <= k <= s.len(),
            d == s@.subrange(from as int, s.len() as int),
            all_digits(d.take(k - from)),
            !overflow ==> acc == decimal_value(d.take(k - from)),
            overflow ==> decimal_value(d.take(k - from)) > u64::MAX,
        decreases s.len() - k,
    {
        let c = s[k];
        if !('0' <= c && c <= '9') {
            proof {
                assert(d[k - from] == c);
            }
            return None;
        }
        let digit = (c as u32 - '0' as u32) as u64;
        proof {
            assert(d.take(k - from + 1) =~= d.take(k - from).push(c));
            lemma_decimal_value_push(d.take(k - from), c);
            assert forall|i: int| 0 <= i < d.take(k - from + 1).len() implies is_digit(
                #[trigger] d.take(k - from + 1)[i],
            ) by {
                if i < k - from {
                    assert(d.take(k - from + 1)[i] == d.take(k - from)[i]);
                }
            }
        }
        if !overflow {
            match acc.checked_mul(10) {
                Some(m) => match m.checked_add(digit) {
                    Some(a) => {
                        acc = a;
                    },
                    None => {
                        overflow = true;
                    },
                },
                None => {
                    overflow = true;
                },
            }
        }
        k = k + 1;
    }
    assert(d.take(d.len() as int) =~= d);
    if overflow {
        None
    } else {
        Some(acc)
    }
}

/// `str::parse::<i64>` over characters.
pub fn parse_i64_chars(s: &Vec<char>) -> (r: Option<i64>)
    ensures
        match r {
            Some(v) => parse_i64(s@) == Some(v as int),
            None => parse_i64(s@) is None,
        },
{
    if s.len() == 0 {
        return None;
    }
    let negative = s[0] == '-';
    let has_sign = s[0] == '+' || negative;
    let from: usize = if has_sign {
        1
    } else {
        0
    };
    assert(s@.subrange(from as int, s.len() as int) =~= (if has_sign {
        s@.drop_first()
    } else {
        s@
    }));
    if from == s.len() {
        return None;
    }
    match digits_magnitude(s, from) {
        None => {
            proof {
                let d = s@.subrange(from as int, s.len() as int);
                if all_digits(d) {
                    assert(decimal_value(d) > u64::MAX);
                }
            }
            None
        },
        Some(m) => {
            if negative {
                if m <= 9223372036854775808u64 {
                    if m == 9223372036854775808u64 {
                        Some(i64::MIN)
                    } else {
                        Some(-(m as i64))
                    }
                } else {
                    None
                }
            } else {
                if m <= 9223372036854775807u64 {
                    Some(m as i64)
                } else {
                    None
                }
            }
        },
    }
}

/// `str::parse::<u64>` over characters.
pub fn parse_u64_chars(s: &Vec<char>) -> (r: Option<u64>)
    ensures
        match r {
            Some(v) => parse_u64(s@) == Some(v as int),
            None => parse_u64(s@) is None,
        },
{
    if s.len() == 0 {
        return None;
    }
    let has_sign = s[0] == '+';
    let from: usize = if has_sign {
        1
    } else {
        0
    };
    assert(s@.subrange(from as int, s.len() as int) =~= (if has_sign {
        s@.drop_first()
    } else {
        s@
    }));
    if from == s.len() {
        return None;
    }
    match digits_magnitude(s, from) {
        None => {
            proof {
                let d = s@.subrange(from as int, s.len() as int);
                if all_digits(d) {
                    assert(decimal_value(d) > u64::MAX);
                }
            }
            None
        },
        Some(m) => Some(m),
    }
}

/// The character of a decimal digit value.
pub open spec fn digit_char(n: int) -> char {
    (n + '0' as int) as char
}

/// The shortest decimal digits of `n` (`"0"` for zero).
pub open spec fn digits_of(n: nat) -> Seq<char>
    decreases n,
{
    if n < 10 {
        seq![digit_char(n as int)]
    } else {
        digits_of(n / 10).push(digit_char((n % 10) as int))
    }
}

/// `count` copies of `'0'`.
pub open spec fn zeros(count: int) -> Seq<char> {
    Seq::new(if count > 0 {
        count as nat
    } else {
        0
    }, |_i: int| '0')
}

/// `n` written as `format!("{:0width$}")` writes it: zero-padded to `width`
/// characters, the sign counting toward the width.
pub open spec fn padded(n: int, width: int) -> Seq<char> {
    if n >= 0 {
        let d = digits_of(n as nat);
        zeros(width - d.len()) + d
    } else {
        let d = digits_of((-n) as nat);
        seq!['-'] + zeros(width - 1 - d.len()) + d
    }
}

/// `n` written as `format!("{}")` writes it.
pub open spec fn decimal(n: int) -> Seq<char> {
    padded(n, 0)
}

pub proof fn lemma_digits_of(n: nat)
    ensures
        all_digits(digits_of(n)),
        decimal_value(digits_of(n)) == n,
        digits_of(n).len() >= 1,
        n < 10 ==> digits_of(n).len() == 1,
        10 <= n < 100 ==> digits_of(n).len() == 2,
        100 <= n < 1000 ==> digits_of(n).len() == 3,
        1000 <= n < 10000 ==> digits_of(n).len() == 4,
        n >= 10 ==> digits_of(n).len() == digits_of(n / 10).len() + 1,
    decreases n,
{
    if n >= 10 {
        lemma_digits_of(n / 10);
        lemma_decimal_value_push(digits_of(n / 10), digit_char((n % 10) as int));
        let d = digits_of(n);
        assert forall|i: int| 0 <= i < d.len() implies is_digit(#[trigger] d[i]) by {
            if i < d.len() - 1 {
                assert(d[i] == digits_of(n / 10)[i]);
            }
        }
    } else {
        lemma_decimal_value_push(Seq::empty(), digit_char(n as int));
        assert(seq![digit_char(n as int)] =~= Seq::<char>::empty().push(digit_char(n as int)));
    }
}

pub proof fn lemma_zeros_prefix(k: int, s: Seq<char>)
    ensures
        decimal_value(zeros(k) + s) == decimal_value(s),
        all_digits(s) ==> all_digits(zeros(k) + s),
    decreases s.len(),
{
    if s.len() > 0 {
        lemma_zeros_prefix(k, s.drop_last());
        assert((zeros(k) + s).drop_last() =~= zeros(k) + s.drop_last());
        assert((zeros(k) + s).last() == s.last());
    } else {
        assert(zeros(k) + s =~= zeros(k));
        lemma_zeros_value(k);
    }
    if all_digits(s) {
        assert forall|i: int| 0 <= i < (zeros(k) + s).len() implies is_digit(
            #[trigger] (zeros(k) + s)[i],
        ) by {
            if i >= zeros(k).len() {
                assert((zeros(k) + s)[i] == s[i - zeros(k).len()]);
            }
        }
    }
}

proof fn lemma_zeros_value(k: int)
    ensures
        decimal_value(zeros(k)) == 0,
    decreases k,
{
    if k > 0 {
        lemma_zeros_value(k - 1);
        assert(zeros(k).drop_last() =~= zeros(k - 1));
    } else {
        assert(zeros(k) =~= Seq::<char>::empty());
    }
}

/// Two digit strings of one length with one value are the same string.
pub proof fn lemma_digit_strings_equal(a: Seq<char>, b: Seq<char>)
    requires
        a.len() == b.len(),
        all_digits(a),
        all_digits(b),
        decimal_value(a) == decimal_value(b),
    ensures
        a == b,
    decreases a.len(),
{
    if a.len() > 0 {
        let (a1, b1) = (a.drop_last(), b.drop_last());
        assert(is_digit(a.last()) && is_digit(b.last()));
        assert(all_digits(a1)) by {
            assert forall|i: int| 0 <= i < a1.len() implies is_digit(#[trigger] a1[i]) by {
                assert(a1[i] == a[i]);
            }
        }
        assert(all_digits(b1)) by {
            assert forall|i: int| 0 <= i < b1.len() implies is_digit(#[trigger] b1[i]) by {
                assert(b1[i] == b[i]);
            }
        }
        assert(digit_value(a.last()) == digit_value(b.last()));
        lemma_digit_strings_equal(a1, b1);
        assert(a =~= a1.push(a.last()));
        assert(b =~= b1.push(b.last()));
    } else {
        assert(a =~= b);
    }
}

/// For a non-negative value that fits, the padded form is `width` digits of
/// that value.
pub proof fn lemma_padded(n: nat, width: int)
    requires
        digits_of(n).len() <= width,
    ensures
        padded(n as int, width).len() == width,
        all_digits(padded(n as int, width)),
        decimal_value(padded(n as int, width)) == n,
{
    lemma_digits_of(n);
    lemma_zeros_prefix(width - digits_of(n).len(), digits_of(n));
}

/// Ten to the power `k`.
pub open spec fn pow10(k: nat) -> nat
    decreases k,
{
    if k == 0 {
        1
    } else {
        10 * pow10((k - 1) as nat)
    }
}

pub proof fn lemma_decimal_value_bound(s: Seq<char>)
    requires
        all_digits(s),
    ensures
        decimal_value(s) < pow10(s.len()),
    decreases s.len(),
{
    if s.len() > 0 {
        let a = s.drop_last();
        assert(all_digits(a)) by {
            assert forall|i: int| 0 <= i < a.len() implies is_digit(#[trigger] a[i]) by {
                assert(a[i] == s[i]);
            }
        }
        lemma_decimal_value_bound(a);
        assert(is_digit(s.last()));
    }
}

/// A string of at most four digits is the padded form of its value at its
/// own width.
pub proof fn lemma_padded_of_digits(s: Seq<char>)
    requires
        all_digits(s),
        1 <= s.len() <= 4,
    ensures
        padded(decimal_value(s) as int, s.len() as int) == s,
{
    let v = decimal_value(s);
    lemma_decimal_value_bound(s);
    lemma_digits_of(v);
    if v >= 10 {
        lemma_digits_of(v / 10);
        if v / 10 >= 10 {
            lemma_digits_of(v / 100);
        }
    }
    assert(pow10(1) == 10 && pow10(2) == 100 && pow10(3) == 1000 && pow10(4) == 10000) by {
        reveal_with_fuel(pow10, 5);
    }
    lemma_padded(v, s.len() as int);
    lemma_digit_strings_equal(padded(v as int, s.len() as int), s);
}

/// The shortest decimal digits of `m`.
pub fn digits_chars(m: u64) -> (d: Vec<char>)
    ensures
        d@ == digits_of(m as nat),
    decreases m,
{
    if m < 10 {
        let c = char_of_digit(m);
        let v = vec![c];
        assert(v@ =~= seq![digit_char(m as int)]);
        v
    } else {
        let mut v = digits_chars(m / 10);
        v.push(char_of_digit(m % 10));
        v
    }
}

fn char_of_digit(m: u64) -> (c: char)
    requires
        m < 10,
    ensures
        c == digit_char(m as int),
{
    if m == 0 { '0' } else if m == 1 { '1' } else if m == 2 { '2' } else if m == 3 { '3' }
    else if m == 4 { '4' } else if m == 5 { '5' } else if m == 6 { '6' } else if m == 7 { '7' }
    else if m == 8 { '8' } else { '9' }
}

/// Appends `format!("{:0width$}", n)` to `out`.
pub fn push_padded(out: &mut Vec<char>, n: i64, width: usize)
    ensures
        final(out)@ == old(out)@ + padded(n as int, width as int),
{
    let negative = n < 0;
    let m: u64 = if negative {
        if n == i64::MIN {
            9223372036854775808u64
        } else {
            (-n) as u64
        }
    } else {
        n as u64
    };
    let d = digits_chars(m);
    let ghost before = out@;
    let mut room: usize = width;
    if negative {
        out.push('-');
        room = if room > 0 { room - 1 } else { 0 };
    }
    let fill: usize = if room > d.len() { room - d.len() } else { 0 };
    let mut k: usize = 0;
    let ghost start = out@;
    while k < fill
        invariant
            k <= fill,
            out@ == start + zeros(k as int),
        decreases fill - k,
    {
        out.push('0');
        k = k + 1;
        assert(out@ =~= start + zeros(k as int));
    }
    crate::text::extend(out, &d);
    proof {
        if negative {
            assert(start =~= before + seq!['-']);
            assert(zeros(fill as int) =~= zeros(width - 1 - d.len()));
            assert(out@ =~= before + padded(n as int, width as int));
        } else {
            assert(start == before);
            assert(zeros(fill as int) =~= zeros(width - d.len()));
            assert(out@ =~= before + padded(n as int, width as int));
        }
    }
}

/// Appends `format!("{:0width$}", n)` for an unsigned `n`.
pub fn push_padded_u64(out: &mut Vec<char>, n: u64, width: usize)
    ensures
        final(out)@ == old(out)@ + padded(n as int, width as int),
{
    let d = digits_chars(n);
    let fill: usize = if width > d.len() { width - d.len() } else { 0 };
    let mut k: usize = 0;
    let ghost start = out@;
    while k < fill
        invariant
            k <= fill,
            out@ == start + zeros(k as int),
        decreases fill - k,
    {
        out.push('0');
        k = k + 1;
        assert(out@ =~= start + zeros(k as int));
    }
    crate::text::extend(out, &d);
    assert(zeros(fill as int) =~= zeros(width - d.len()));
    assert(out@ =~= start + padded(n as int, width as int));
}

/// Appends `format!("{}", n)` for an unsigned `n`.
pub fn push_decimal_u64(out: &mut Vec<char>, n: u64)
    ensures
        final(out)@ == old(out)@ + decimal(n as int),
{
    push_padded_u64(out, n, 0);
}

/// A number below `10^k` has at most `k` digits.
pub proof fn lemma_digits_within(n: nat, k: nat)
    requires
        k >= 1,
        n < pow10(k),
    ensures
        digits_of(n).len() <= k,
    decreases n,
{
    lemma_digits_of(n);
    if n >= 10 {
        assert(k >= 2) by {
            if k == 1 {
                assert(pow10(1) == 10) by {
                    reveal_with_fuel(pow10, 2);
                }
            }
        }
        let k1 = (k - 1) as nat;
        assert(pow10(k) == 10 * pow10(k1));
        assert(n / 10 < pow10(k1));
        lemma_digits_within(n / 10, k1);
    }
}

/// Digit strings of one length sort by their values.
pub proof fn lemma_digit_strings_ordered(a: Seq<char>, b: Seq<char>)
    requires
        a.len() == b.len(),
        all_digits(a),
        all_digits(b),
        decimal_value(a) < decimal_value(b),
    ensures
        str_before(a, b),
    decreases a.len(),
{
    let (a1, b1) = (a.drop_last(), b.drop_last());
    assert(is_digit(a.last()) && is_digit(b.last()));
    assert(all_digits(a1)) by {
        assert forall|i: int| 0 <= i < a1.len() implies is_digit(#[trigger] a1[i]) by {
            assert(a1[i] == a[i]);
        }
    }
    assert(all_digits(b1)) by {
        assert forall|i: int| 0 <= i < b1.len() implies is_digit(#[trigger] b1[i]) by {
            assert(b1[i] == b[i]);
        }
    }
    assert(a =~= a1.push(a.last()));
    assert(b =~= b1.push(b.last()));
    if decimal_value(a1) < decimal_value(b1) {
        lemma_digit_strings_ordered(a1, b1);
        assert(a1 + seq![a.last()] =~= a);
        assert(b1 + seq![b.last()] =~= b);
        lemma_str_before_extend(a1, b1, seq![a.last()], seq![b.last()]);
    } else if decimal_value(a1) == decimal_value(b1) {
        lemma_digit_strings_equal(a1, b1);
        lemma_str_before_last(a1, a.last(), b.last());
    } else {
        assert(false);
    }
}

/// Zero-padded numbers of one width sort by value, as long as each fits
/// the width.
pub proof fn lemma_padded_ordered(m: nat, n: nat, width: nat)
    requires
        width >= 1,
        m < n < pow10(width),
    ensures
        padded(m as int, width as int).len() == width,
        padded(n as int, width as int).len() == width,
        str_before(padded(m as int, width as int), padded(n as int, width as int)),
{
    lemma_digits_within(m, width);
    lemma_digits_within(n, width);
    lemma_padded(m, width as int);
    lemma_padded(n, width as int);
    lemma_digit_strings_ordered(padded(m as int, width as int), padded(n as int, width as int));
}

} // verus!
