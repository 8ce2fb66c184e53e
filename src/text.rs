//! Characters of a line of text, and its division into words.
use vstd::prelude::*;

verus! {

/// The characters of `s`, in order.
pub fn chars_of(s: &str) -> (r: Vec<char>)
    ensures
        r@ == s@,
{
    let mut r: Vec<char> = Vec::new();
    for c in it: s.chars()
        invariant
            it.seq() == s@,
            r@ == s@.take(it.index()),
    {
        r.push(c);
    }
    assert(r@ =~= s@);
    r
}


/// The characters with the Unicode `White_Space` property.
pub open spec fn is_white(c: char) -> bool {
    ||| '\t' <= c <= '\r'
    ||| c == ' '
    ||| c == '\u{85}'
    ||| c == '\u{a0}'
    ||| c == '\u{1680}'
    ||| '\u{2000}' <= c <= '\u{200a}'
    ||| c == '\u{2028}'
    ||| c == '\u{2029}'
    ||| c == '\u{202f}'
    ||| c == '\u{205f}'
    ||| c == '\u{3000}'
}

/// Whether `c` is whitespace.
pub fn white(c: char) -> (r: bool)
    ensures
        r == is_white(c),
{
    ('\t' <= c && c <= '\r') || c == ' ' || c == '\u{85}' || c == '\u{a0}' || c == '\u{1680}' || (
    '\u{2000}' <= c && c <= '\u{200a}') || c == '\u{2028}' || c == '\u{2029}' || c == '\u{202f}'
        || c == '\u{205f}' || c == '\u{3000}'
}

/// The word `pending` if it is not empty, as a sequence of at most one word.
pub open spec fn flush(pending: Seq<char>) -> Seq<Seq<char>> {
    if pending.len() == 0 {
        Seq::empty()
    } else {
        seq![pending]
    }
}

/// The words of `s`, after a word `pending` whose characters were already read.
pub open spec fn words_after(pending: Seq<char>, s: Seq<char>) -> Seq<Seq<char>>
    decreases s.len(),
{
    if s.len() == 0 {
        flush(pending)
    } else if is_white(s[0]) {
        flush(pending) + words_after(Seq::empty(), s.skip(1))
    } else {
        words_after(pending.push(s[0]), s.skip(1))
    }
}

/// The maximal runs of non-whitespace characters of `s`, from left to right.
pub open spec fn split_words(s: Seq<char>) -> Seq<Seq<char>> {
    words_after(Seq::empty(), s)
}

/// The words of `line`, split on runs of whitespace.
pub fn words_of(line: &str) -> (r: Vec<String>)
    ensures
        r@.map_values(|w: String| w@) == split_words(line@),
{
    let chars = chars_of(line);
    let n = chars.len();
    let mut words: Vec<String> = Vec::new();
    let mut start: usize = 0;
    let mut i: usize = 0;
    assert(line@.skip(0) =~= line@);
    assert(line@.subrange(0, 0) =~= Seq::<char>::empty());
    assert(words@.map_values(|w: String| w@) =~= Seq::<Seq<char>>::empty());
    while i < n
        invariant
            n == chars@.len(),
            chars@ == line@,
            start <= i <= n,
            split_words(line@) == words@.map_values(|w: String| w@) + words_after(
                line@.subrange(start as int, i as int),
                line@.skip(i as int),
            ),
        decreases n - i,
    {
        let ghost rest = line@.skip(i as int);
        assert(rest[0] == line@[i as int]);
        assert(rest.skip(1) =~= line@.skip(i + 1));
        if white(chars[i]) {
            let ghost before = words@.map_values(|w: String| w@);
            if start < i {
                let w = String::from_str(line.substring_char(start, i));
                words.push(w);
                assert(words@.map_values(|w: String| w@) =~= before + flush(
                    line@.subrange(start as int, i as int),
                ));
            } else {
                assert(words@.map_values(|w: String| w@) =~= before + flush(
                    line@.subrange(start as int, i as int),
                ));
            }
            assert(line@.subrange(i + 1, i + 1) =~= Seq::<char>::empty());
            i = i + 1;
            start = i;
        } else {
            assert(line@.subrange(start as int, i + 1) =~= line@.subrange(start as int, i as int).push(
                line@[i as int],
            ));
            i = i + 1;
        }
    }
    let ghost before = words@.map_values(|w: String| w@);
    assert(line@.skip(n as int).len() == 0);
    if start < n {
        let w = String::from_str(line.substring_char(start, n));
        words.push(w);
    }
    assert(words@.map_values(|w: String| w@) =~= before + flush(
        line@.subrange(start as int, n as int),
    ));
    words
}

} // verus!
