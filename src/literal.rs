//! Recognition of floating-point literals, following the grammar that std
//! documents for parsing an `f64` from a string:
//!
//! ```text
//! Float    ::= Sign? ( 'inf' | 'infinity' | 'nan' | Number )
//! Number   ::= ( Digit+ | Digit+ '.' Digit* | Digit* '.' Digit+ ) Exp?
//! Exp      ::= 'e' Sign? Digit+
//! Sign     ::= [+-]
//! Digit    ::= [0-9]
//! ```
//!
//! Letters are matched without regard to ASCII case.
use vstd::prelude::*;

verus! {

pub open spec fn is_digit(c: char) -> bool {
    '0' <= c && c <= '9'
}

pub open spec fn is_sign(c: char) -> bool {
    c == '+' || c == '-'
}

pub open spec fn is_exp_marker(c: char) -> bool {
    c == 'e' || c == 'E'
}

pub open spec fn all_digits(s: Seq<char>) -> bool {
    forall|i: int| 0 <= i < s.len() ==> is_digit(#[trigger] s[i])
}

/// `Digit+`
pub open spec fn is_digits(s: Seq<char>) -> bool {
    s.len() > 0 && all_digits(s)
}

/// `Digit+ | Digit+ '.' Digit* | Digit* '.' Digit+`
pub open spec fn is_mantissa(s: Seq<char>) -> bool {
    ||| is_digits(s)
    ||| exists|p: int|
        #![trigger s[p]]
        0 <= p < s.len() && s[p] == '.' && s.len() >= 2 && all_digits(s.take(p)) && all_digits(
            s.skip(p + 1),
        )
}

/// `Sign? Digit+`
pub open spec fn is_exponent(s: Seq<char>) -> bool {
    is_digits(s) || (s.len() > 0 && is_sign(s[0]) && is_digits(s.skip(1)))
}

/// `Number`: a mantissa, optionally followed by an exponent marker and an exponent.
pub open spec fn is_decimal(s: Seq<char>) -> bool {
    ||| is_mantissa(s)
    ||| exists|k: int|
        #![trigger s[k]]
        0 <= k < s.len() && is_exp_marker(s[k]) && is_mantissa(s.take(k)) && is_exponent(
            s.skip(k + 1),
        )
}

/// `c` is the lowercase ASCII letter `lower`, in either case.
pub open spec fn letter_matches(c: char, lower: char) -> bool {
    c == lower || (c as u32) + 32 == (lower as u32)
}

/// `s` spells the lowercase word `w`, ignoring ASCII case.
pub open spec fn spells(s: Seq<char>, w: Seq<char>) -> bool {
    s.len() == w.len() && forall|i: int| 0 <= i < s.len() ==> letter_matches(#[trigger] s[i], w[i])
}

/// `'inf' | 'infinity' | 'nan'`
pub open spec fn is_special(s: Seq<char>) -> bool {
    ||| spells(s, seq!['i', 'n', 'f'])
    ||| spells(s, seq!['i', 'n', 'f', 'i', 'n', 'i', 't', 'y'])
    ||| spells(s, seq!['n', 'a', 'n'])
}

pub open spec fn is_unsigned_float(s: Seq<char>) -> bool {
    is_special(s) || is_decimal(s)
}

/// `Float`: the text is a floating-point literal.
pub open spec fn is_float_literal(s: Seq<char>) -> bool {
    ||| is_unsigned_float(s)
    ||| s.len() > 0 && is_sign(s[0]) && is_unsigned_float(s.skip(1))
}


/// Every character of a mantissa is a digit or the decimal point, and there is at least one.
pub proof fn lemma_mantissa_chars(t: Seq<char>)
    requires
        is_mantissa(t),
    ensures
        t.len() > 0,
        forall|i: int| 0 <= i < t.len() ==> is_digit(#[trigger] t[i]) || t[i] == '.',
{
    if !is_digits(t) {
        let p = choose|p: int|
            #![trigger t[p]]
            0 <= p < t.len() && t[p] == '.' && t.len() >= 2 && all_digits(t.take(p)) && all_digits(
                t.skip(p + 1),
            );
        assert forall|i: int| 0 <= i < t.len() implies is_digit(#[trigger] t[i]) || t[i] == '.' by {
            if i < p {
                assert(t.take(p)[i] == t[i]);
            } else if i > p {
                assert(t.skip(p + 1)[i - p - 1] == t[i]);
            }
        }
    }
}

/// A decimal number starts with a digit or the decimal point.
pub proof fn lemma_decimal_first(t: Seq<char>)
    requires
        is_decimal(t),
    ensures
        t.len() > 0,
        is_digit(t[0]) || t[0] == '.',
{
    if is_mantissa(t) {
        lemma_mantissa_chars(t);
    } else {
        let k = choose|k: int|
            #![trigger t[k]]
            0 <= k < t.len() && is_exp_marker(t[k]) && is_mantissa(t.take(k)) && is_exponent(
                t.skip(k + 1),
            );
        lemma_mantissa_chars(t.take(k));
        assert(t.take(k)[0] == t[0]);
    }
}

/// The end of the run of digits that starts at `from`, looking no further than `to`.
fn digits_end(s: &Vec<char>, from: usize, to: usize) -> (end: usize)
    requires
        from <= to <= s.len(),
    ensures
        from <= end <= to,
        all_digits(s@.subrange(from as int, end as int)),
        end < to ==> !is_digit(s@[end as int]),
{
    let mut i: usize = from;
    while i < to && '0' <= s[i] && s[i] <= '9'
        invariant
            from <= i <= to <= s.len(),
            all_digits(s@.subrange(from as int, i as int)),
        decreases to - i,
    {
        assert(s@.subrange(from as int, i + 1) =~= s@.subrange(from as int, i as int).push(s@[i as int]));
        i = i + 1;
    }
    i
}

/// Whether `s[a..b]` is a mantissa.
fn mantissa_in(s: &Vec<char>, a: usize, b: usize) -> (r: bool)
    requires
        a <= b <= s.len(),
    ensures
        r == is_mantissa(s@.subrange(a as int, b as int)),
{
    let ghost t = s@.subrange(a as int, b as int);
    let d = digits_end(s, a, b);
    if d == b {
        assert(s@.subrange(a as int, d as int) == t);
        return d > a;
    }
    if s[d] != '.' {
        proof {
            if is_mantissa(t) {
                lemma_mantissa_chars(t);
                assert(t[d - a] == s@[d as int]);
            }
        }
        return false;
    }
    let e = digits_end(s, d + 1, b);
    let r = e == b && b - a >= 2;
    proof {
        let p = d - a;
        assert(t[p] == '.');
        assert(t.take(p) =~= s@.subrange(a as int, d as int));
        if r {
            assert(t.skip(p + 1) =~= s@.subrange(d + 1, b as int));
        } else if is_mantissa(t) {
            assert(!all_digits(t));
            let q = choose|q: int|
                #![trigger t[q]]
                0 <= q < t.len() && t[q] == '.' && t.len() >= 2 && all_digits(t.take(q))
                    && all_digits(t.skip(q + 1));
            if q < p {
                assert(s@.subrange(a as int, d as int)[q] == t[q]);
            } else if q > p {
                assert(t.take(q)[p] == t[p]);
            } else {
                assert(t.skip(q + 1)[e - d - 1] == s@[e as int]);
            }
        }
    }
    r
}

/// Whether `s[a..b]` is an exponent (what follows the marker).
fn exponent_in(s: &Vec<char>, a: usize, b: usize) -> (r: bool)
    requires
        a <= b <= s.len(),
    ensures
        r == is_exponent(s@.subrange(a as int, b as int)),
{
    let ghost t = s@.subrange(a as int, b as int);
    let start = if a < b && (s[a] == '+' || s[a] == '-') {
        a + 1
    } else {
        a
    };
    let d = digits_end(s, start, b);
    proof {
        let u = s@.subrange(start as int, b as int);
        if start > a {
            assert(t.skip(1) =~= u);
            assert(!is_digit(t[0]));
        }
        if d < b {
            assert(u[d - start] == s@[d as int]);
        } else {
            assert(s@.subrange(start as int, d as int) =~= u);
        }
        assert(u =~= t || start > a);
    }
    d == b && d > start
}

/// The first exponent marker in `s[a..b]`, or `b` if there is none.
fn marker_index(s: &Vec<char>, a: usize, b: usize) -> (k: usize)
    requires
        a <= b <= s.len(),
    ensures
        a <= k <= b,
        forall|i: int| a <= i < k ==> !is_exp_marker(#[trigger] s@[i]),
        k < b ==> is_exp_marker(s@[k as int]),
{
    let mut k: usize = a;
    while k < b && s[k] != 'e' && s[k] != 'E'
        invariant
            a <= k <= b <= s.len(),
            forall|i: int| a <= i < k ==> !is_exp_marker(#[trigger] s@[i]),
        decreases b - k,
    {
        k = k + 1;
    }
    k
}

/// Whether `s[a..b]` is a decimal number.
fn decimal_in(s: &Vec<char>, a: usize, b: usize) -> (r: bool)
    requires
        a <= b <= s.len(),
    ensures
        r == is_decimal(s@.subrange(a as int, b as int)),
{
    let ghost t = s@.subrange(a as int, b as int);
    let k = marker_index(s, a, b);
    if k == b {
        let r = mantissa_in(s, a, b);
        proof {
            if !r && is_decimal(t) {
                let j = choose|j: int|
                    #![trigger t[j]]
                    0 <= j < t.len() && is_exp_marker(t[j]) && is_mantissa(t.take(j))
                        && is_exponent(t.skip(j + 1));
                assert(t[j] == s@[a + j]);
            }
        }
        return r;
    }
    let r = mantissa_in(s, a, k) && exponent_in(s, k + 1, b);
    proof {
        let p = k - a;
        assert(t[p] == s@[k as int]);
        assert(t.take(p) =~= s@.subrange(a as int, k as int));
        assert(t.skip(p + 1) =~= s@.subrange(k + 1, b as int));
        if is_mantissa(t) {
            lemma_mantissa_chars(t);
        }
        if !r && is_decimal(t) {
            let j = choose|j: int|
                #![trigger t[j]]
                0 <= j < t.len() && is_exp_marker(t[j]) && is_mantissa(t.take(j))
                    && is_exponent(t.skip(j + 1));
            if j < p {
                assert(t[j] == s@[a + j]);
            } else if j > p {
                lemma_mantissa_chars(t.take(j));
                assert(t.take(j)[p] == t[p]);
            }
        }
    }
    r
}

/// Whether `s[a..b]` spells the lowercase word `w`, ignoring ASCII case.
fn spells_in(s: &Vec<char>, a: usize, b: usize, w: &Vec<char>) -> (r: bool)
    requires
        a <= b <= s.len(),
    ensures
        r == spells(s@.subrange(a as int, b as int), w@),
{
    let ghost t = s@.subrange(a as int, b as int);
    if b - a != w.len() {
        return false;
    }
    let mut i: usize = 0;
    while i < w.len()
        invariant
            b - a == w.len(),
            a <= b <= s.len(),
            0 <= i <= w.len(),
            t == s@.subrange(a as int, b as int),
            forall|j: int| 0 <= j < i ==> letter_matches(#[trigger] t[j], w@[j]),
        decreases w.len() - i,
    {
        let c = s[a + i];
        let lower = w[i];
        if !(c == lower || (lower as u32 >= 32 && c as u32 == lower as u32 - 32)) {
            assert(t[i as int] == c);
            return false;
        }
        i = i + 1;
    }
    true
}

/// Whether `s[a..b]` is `inf`, `infinity` or `nan`, in any ASCII case.
fn special_in(s: &Vec<char>, a: usize, b: usize) -> (r: bool)
    requires
        a <= b <= s.len(),
    ensures
        r == is_special(s@.subrange(a as int, b as int)),
{
    let inf = vec!['i', 'n', 'f'];
    let infinity = vec!['i', 'n', 'f', 'i', 'n', 'i', 't', 'y'];
    let nan = vec!['n', 'a', 'n'];
    assert(inf@ == seq!['i', 'n', 'f']);
    assert(infinity@ == seq!['i', 'n', 'f', 'i', 'n', 'i', 't', 'y']);
    assert(nan@ == seq!['n', 'a', 'n']);
    spells_in(s, a, b, &inf) || spells_in(s, a, b, &infinity) || spells_in(s, a, b, &nan)
}

/// Whether `s` is a floating-point literal.
pub fn float_literal(s: &Vec<char>) -> (r: bool)
    ensures
        r == is_float_literal(s@),
{
    let n = s.len();
    assert(s@.subrange(0, n as int) =~= s@);
    if n > 0 && (s[0] == '+' || s[0] == '-') {
        let r = special_in(s, 1, n) || decimal_in(s, 1, n);
        proof {
            assert(s@.skip(1) =~= s@.subrange(1, n as int));
            if is_decimal(s@) {
                lemma_decimal_first(s@);
            }
        }
        r
    } else {
        special_in(s, 0, n) || decimal_in(s, 0, n)
    }
}

} // verus!
