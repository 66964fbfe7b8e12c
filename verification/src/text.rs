//! Character-level text: the definitions the parsers of this crate are
//! stated over, and the executable pieces that compute them.

use vstd::prelude::*;

verus! {

/// `c` is one of the ASCII digits `0` to `9`.
pub open spec fn is_ascii_digit(c: char) -> bool {
    '0' <= c && c <= '9'
}

/// The value of an ASCII digit.
pub open spec fn digit_value(c: char) -> int {
    c as int - '0' as int
}

/// `c` is an ASCII hexadecimal digit, in either case.
pub open spec fn is_hex_digit(c: char) -> bool {
    ||| is_ascii_digit(c)
    ||| ('a' <= c && c <= 'f')
    ||| ('A' <= c && c <= 'F')
}

/// The value of a string of ASCII digits, read in base ten.
pub open spec fn decimal_value(s: Seq<char>) -> int
    decreases s.len(),
{
    if s.len() == 0 {
        0
    } else {
        decimal_value(s.drop_last()) * 10 + digit_value(s.last())
    }
}

/// Every character of `s` is an ASCII digit.
pub open spec fn all_digits(s: Seq<char>) -> bool {
    forall|i: int| 0 <= i < s.len() ==> is_ascii_digit(#[trigger] s[i])
}

/// Every character of `s` is an ASCII hexadecimal digit.
pub open spec fn all_hex_digits(s: Seq<char>) -> bool {
    forall|i: int| 0 <= i < s.len() ==> is_hex_digit(#[trigger] s[i])
}

/// The pieces of `s` between occurrences of `sep`, in order: one more piece
/// than `s` has separators, with an empty piece wherever two separators touch
/// or a separator stands at either end.
pub open spec fn split_on(s: Seq<char>, sep: char) -> Seq<Seq<char>>
    decreases s.len(),
{
    if s.len() == 0 {
        seq![Seq::<char>::empty()]
    } else {
        let before = split_on(s.drop_last(), sep);
        if s.last() == sep {
            before.push(Seq::<char>::empty())
        } else {
            before.update(before.len() - 1, before.last().push(s.last()))
        }
    }
}

/// `split_on` always yields at least one piece.
pub proof fn lemma_split_on_nonempty(s: Seq<char>, sep: char)
    ensures
        split_on(s, sep).len() >= 1,
    decreases s.len(),
{
    if s.len() > 0 {
        lemma_split_on_nonempty(s.drop_last(), sep);
    }
}

/// The pieces and separators of a split fit in the string: there is one
/// separator between each two pieces, and the last piece is part of it too.
pub proof fn lemma_split_on_len(s: Seq<char>, sep: char)
    ensures
        split_on(s, sep).len() >= 1,
        split_on(s, sep).len() - 1 + split_on(s, sep).last().len() <= s.len(),
    decreases s.len(),
{
    lemma_split_on_nonempty(s, sep);
    if s.len() > 0 {
        lemma_split_on_len(s.drop_last(), sep);
    }
}

/// Splitting a string that ends with the separator leaves an empty last piece.
pub proof fn lemma_split_on_trailing_sep(s: Seq<char>, sep: char)
    requires
        s.len() > 0,
        s.last() == sep,
    ensures
        split_on(s, sep).last().len() == 0,
        split_on(s, sep).len() >= 2,
{
    lemma_split_on_nonempty(s.drop_last(), sep);
}

/// Two adjacent separators leave an empty piece that is not the last one.
pub proof fn lemma_split_on_double_sep(s: Seq<char>, sep: char, k: int)
    requires
        0 <= k,
        k + 1 < s.len(),
        s[k] == sep,
        s[k + 1] == sep,
    ensures
        exists|m: int|
            0 <= m < split_on(s, sep).len() - 1 && (#[trigger] split_on(s, sep)[m]).len() == 0,
    decreases s.len(),
{
    lemma_split_on_nonempty(s.drop_last(), sep);
    if k + 2 == s.len() {
        let d = s.drop_last();
        lemma_split_on_nonempty(d.drop_last(), sep);
        let parts = split_on(s, sep);
        assert(parts[parts.len() - 2].len() == 0);
    } else {
        let d = s.drop_last();
        lemma_split_on_double_sep(d, sep, k);
        let m = choose|m: int|
            0 <= m < split_on(d, sep).len() - 1 && (#[trigger] split_on(d, sep)[m]).len() == 0;
        assert(split_on(s, sep)[m].len() == 0);
    }
}

/// The characters of `s`, in order.
pub fn chars_of(s: &str) -> (v: Vec<char>)
    ensures
        v@ == s@,
{
    let n = s.unicode_len();
    let mut v: Vec<char> = Vec::new();
    let mut i: usize = 0;
    while i < n
        invariant
            n == s@.len(),
            i <= n,
            v@ == s@.take(i as int),
        decreases n - i,
    {
        v.push(s.get_char(i));
        i += 1;
        assert(v@ =~= s@.take(i as int));
    }
    assert(v@ =~= s@);
    v
}

/// The spans `(start, end)` of `c[lo..hi]` that `split_on` yields for `sep`.
pub fn split_spans(c: &Vec<char>, lo: usize, hi: usize, sep: char) -> (r: Vec<(usize, usize)>)
    requires
        lo <= hi <= c.len(),
    ensures
        r.len() == split_on(c@.subrange(lo as int, hi as int), sep).len(),
        forall|i: int|
            #![trigger r[i]]
            0 <= i < r.len() ==> {
                &&& lo <= r[i].0 <= r[i].1 <= hi
                &&& c@.subrange(r[i].0 as int, r[i].1 as int) == split_on(
                    c@.subrange(lo as int, hi as int),
                    sep,
                )[i]
            },
{
    let mut done: Vec<(usize, usize)> = Vec::new();
    let mut start: usize = lo;
    let mut j: usize = lo;
    while j < hi
        invariant
            lo <= start <= j <= hi <= c.len(),
            split_on(c@.subrange(lo as int, j as int), sep).len() == done.len() + 1,
            split_on(c@.subrange(lo as int, j as int), sep).last() == c@.subrange(
                start as int,
                j as int,
            ),
            forall|i: int|
                #![trigger done[i]]
                0 <= i < done.len() ==> {
                    &&& lo <= done[i].0 <= done[i].1 <= start
                    &&& c@.subrange(done[i].0 as int, done[i].1 as int) == split_on(
                        c@.subrange(lo as int, j as int),
                        sep,
                    )[i]
                },
        decreases hi - j,
    {
        let ghost prev = split_on(c@.subrange(lo as int, j as int), sep);
        assert(c@.subrange(lo as int, j + 1).drop_last() =~= c@.subrange(lo as int, j as int));
        if c[j] == sep {
            done.push((start, j));
            start = j + 1;
            j = j + 1;
            assert(c@.subrange(start as int, j as int) =~= Seq::<char>::empty());
        } else {
            j = j + 1;
            assert(c@.subrange(start as int, j as int) =~= prev.last().push(c@[j - 1]));
        }
    }
    done.push((start, hi));
    done
}

} // verus!

verus! {

/// Whether two strings hold the same characters.
pub fn str_eq(a: &str, b: &str) -> (r: bool)
    ensures
        r == (a@ == b@),
{
    let x = chars_of(a);
    let y = chars_of(b);
    if x.len() != y.len() {
        return false;
    }
    let mut i: usize = 0;
    while i < x.len()
        invariant
            x@ == a@,
            y@ == b@,
            x.len() == y.len(),
            i <= x.len(),
            forall|k: int| 0 <= k < i ==> x@[k] == y@[k],
        decreases x.len() - i,
    {
        if x[i] != y[i] {
            return false;
        }
        i = i + 1;
    }
    assert(x@ =~= y@);
    true
}

} // verus!

verus! {

/// `c` has the Unicode `White_Space` property, the set that Rust's
/// `char::is_whitespace` and `str::trim` go by.
pub open spec fn is_whitespace(c: char) -> bool {
    ||| ('\t' <= c && c <= '\r')
    ||| c == ' '
    ||| c == '\u{85}'
    ||| c == '\u{A0}'
    ||| c == '\u{1680}'
    ||| ('\u{2000}' <= c && c <= '\u{200A}')
    ||| c == '\u{2028}'
    ||| c == '\u{2029}'
    ||| c == '\u{202F}'
    ||| c == '\u{205F}'
    ||| c == '\u{3000}'
}

/// `s` without its leading whitespace.
pub open spec fn trim_start(s: Seq<char>) -> Seq<char>
    decreases s.len(),
{
    if s.len() > 0 && is_whitespace(s[0]) {
        trim_start(s.drop_first())
    } else {
        s
    }
}

/// `s` without its trailing whitespace.
pub open spec fn trim_end(s: Seq<char>) -> Seq<char>
    decreases s.len(),
{
    if s.len() > 0 && is_whitespace(s.last()) {
        trim_end(s.drop_last())
    } else {
        s
    }
}

/// `s` without leading and trailing whitespace.
pub open spec fn trim(s: Seq<char>) -> Seq<char> {
    trim_end(trim_start(s))
}

/// `s` begins with `p`.
pub open spec fn starts_with(s: Seq<char>, p: Seq<char>) -> bool {
    p.len() <= s.len() && s.take(p.len() as int) == p
}

/// `p` occurs in `s` at index `i`.
pub open spec fn occurs_at(s: Seq<char>, p: Seq<char>, i: int) -> bool {
    0 <= i && i + p.len() <= s.len() && s.subrange(i, i + p.len()) == p
}

/// `p` occurs somewhere in `s`.
pub open spec fn contains(s: Seq<char>, p: Seq<char>) -> bool {
    exists|i: int| occurs_at(s, p, i)
}

/// ASCII upper-case letters made lower case; every other character kept.
pub open spec fn ascii_lower(c: char) -> char {
    if 'A' <= c && c <= 'Z' {
        ((c as int) + 32) as char
    } else {
        c
    }
}

/// `s` with `ascii_lower` applied to each character.
pub open spec fn to_ascii_lowercase(s: Seq<char>) -> Seq<char> {
    Seq::new(s.len(), |i: int| ascii_lower(s[i]))
}

/// A line piece without the carriage return that ended it, if any.
pub open spec fn strip_cr(p: Seq<char>) -> Seq<char> {
    if p.len() > 0 && p.last() == '\r' {
        p.drop_last()
    } else {
        p
    }
}

/// The lines of `s`: split at `\n` or `\r\n`; a final line ending is
/// optional and adds no empty line; a `\r` ends a line only before `\n`.
pub open spec fn lines(s: Seq<char>) -> Seq<Seq<char>> {
    if s.len() == 0 {
        seq![]
    } else {
        let pieces = split_on(s, '\n');
        let n = if s.last() == '\n' { pieces.len() - 1 } else { pieces.len() as int };
        Seq::new(
            n as nat,
            |i: int|
                if i < pieces.len() - 1 {
                    strip_cr(pieces[i])
                } else {
                    pieces[i]
                },
        )
    }
}

/// The maximal runs of non-whitespace characters of `s`, in order.
pub open spec fn words(s: Seq<char>) -> Seq<Seq<char>>
    decreases s.len(),
{
    if s.len() == 0 {
        seq![]
    } else {
        let before = words(s.drop_last());
        let c = s.last();
        if is_whitespace(c) {
            before
        } else if s.len() >= 2 && !is_whitespace(s[s.len() - 2]) {
            before.update(before.len() - 1, before.last().push(c))
        } else {
            before.push(seq![c])
        }
    }
}

/// The value of `s` read as a `u32` in decimal, with an optional leading
/// `+`; `None` when `s` has no digits, holds anything else, or overflows.
pub open spec fn parse_u32(s: Seq<char>) -> Option<u32> {
    let digits = if s.len() > 0 && s[0] == '+' { s.drop_first() } else { s };
    if digits.len() > 0 && all_digits(digits) && decimal_value(digits) <= u32::MAX {
        Some(decimal_value(digits) as u32)
    } else {
        None
    }
}

proof fn lemma_trim_start_skip(s: Seq<char>, a: int)
    requires
        0 <= a <= s.len(),
        forall|j: int| 0 <= j < a ==> is_whitespace(#[trigger] s[j]),
        a == s.len() || !is_whitespace(s[a]),
    ensures
        trim_start(s) == s.skip(a),
    decreases a,
{
    if a == 0 {
        assert(s.skip(0) =~= s);
    } else {
        assert forall|j: int| 0 <= j < a - 1 implies is_whitespace(#[trigger] s.drop_first()[j]) by {
            assert(s.drop_first()[j] == s[j + 1]);
        }
        lemma_trim_start_skip(s.drop_first(), a - 1);
        assert(s.drop_first().skip(a - 1) =~= s.skip(a));
    }
}

proof fn lemma_trim_end_take(s: Seq<char>, b: int)
    requires
        0 <= b <= s.len(),
        forall|j: int| b <= j < s.len() ==> is_whitespace(#[trigger] s[j]),
        b == 0 || !is_whitespace(s[b - 1]),
    ensures
        trim_end(s) == s.take(b),
    decreases s.len() - b,
{
    if b == s.len() {
        assert(s.take(b) =~= s);
    } else {
        assert forall|j: int| b <= j < s.len() - 1 implies is_whitespace(#[trigger] s.drop_last()[j]) by {
            assert(s.drop_last()[j] == s[j]);
        }
        lemma_trim_end_take(s.drop_last(), b);
        assert(s.drop_last().take(b) =~= s.take(b));
    }
}

/// Computes whether `c` is whitespace in the sense of `is_whitespace`.
pub fn char_is_whitespace(c: char) -> (r: bool)
    ensures
        r == is_whitespace(c),
{
    ('\t' <= c && c <= '\r') || c == ' ' || c == '\u{85}' || c == '\u{A0}' || c == '\u{1680}'
        || ('\u{2000}' <= c && c <= '\u{200A}') || c == '\u{2028}' || c == '\u{2029}'
        || c == '\u{202F}' || c == '\u{205F}' || c == '\u{3000}'
}

/// The span of `trim(c[lo..hi])` within `c`.
pub fn trim_span(c: &Vec<char>, lo: usize, hi: usize) -> (r: (usize, usize))
    requires
        lo <= hi <= c.len(),
    ensures
        lo <= r.0 <= r.1 <= hi,
        c@.subrange(r.0 as int, r.1 as int) == trim(c@.subrange(lo as int, hi as int)),
{
    let ghost s = c@.subrange(lo as int, hi as int);
    let mut a: usize = lo;
    while a < hi && char_is_whitespace(c[a])
        invariant
            lo <= a <= hi <= c.len(),
            forall|j: int| lo <= j < a ==> is_whitespace(#[trigger] c@[j]),
        decreases hi - a,
    {
        a = a + 1;
    }
    proof {
        assert forall|j: int| 0 <= j < a - lo implies is_whitespace(#[trigger] s[j]) by {
            assert(s[j] == c@[lo + j]);
        }
        lemma_trim_start_skip(s, a - lo);
    }
    let ghost t = s.skip(a - lo);
    assert(t =~= c@.subrange(a as int, hi as int));
    let mut b: usize = hi;
    while b > a && char_is_whitespace(c[b - 1])
        invariant
            lo <= a <= b <= hi <= c.len(),
            forall|j: int| b <= j < hi ==> is_whitespace(#[trigger] c@[j]),
        decreases b - a,
    {
        b = b - 1;
    }
    proof {
        assert forall|j: int| b - a <= j < t.len() implies is_whitespace(#[trigger] t[j]) by {
            assert(t[j] == c@[a + j]);
        }
        lemma_trim_end_take(t, b - a);
        assert(t.take(b - a) =~= c@.subrange(a as int, b as int));
    }
    (a, b)
}

/// The string of the characters `c[a..b]`, where `c` holds the characters of `s`.
pub fn string_of_span(s: &str, c: &Vec<char>, a: usize, b: usize) -> (r: String)
    requires
        c@ == s@,
        a <= b <= c.len(),
    ensures
        r@ == c@.subrange(a as int, b as int),
{
    s.substring_char(a, b).to_string()
}

/// `s` without leading and trailing whitespace.
pub fn trim_string(s: &str) -> (r: String)
    ensures
        r@ == trim(s@),
{
    let c = chars_of(s);
    let (a, b) = trim_span(&c, 0, c.len());
    assert(c@.subrange(0, c.len() as int) =~= c@);
    string_of_span(s, &c, a, b)
}

/// Whether `c[a..b]` holds exactly the characters of `p`.
pub fn span_eq(c: &Vec<char>, a: usize, b: usize, p: &Vec<char>) -> (r: bool)
    requires
        a <= b <= c.len(),
    ensures
        r == (c@.subrange(a as int, b as int) == p@),
{
    if b - a != p.len() {
        return false;
    }
    let mut i: usize = 0;
    while i < p.len()
        invariant
            a <= b <= c.len(),
            b - a == p.len(),
            i <= p.len(),
            forall|k: int| 0 <= k < i ==> c@[a + k] == p@[k],
        decreases p.len() - i,
    {
        if c[a + i] != p[i] {
            assert(c@.subrange(a as int, b as int)[i as int] != p@[i as int]);
            return false;
        }
        i = i + 1;
    }
    assert(c@.subrange(a as int, b as int) =~= p@);
    true
}

/// Whether `c[a..b]` begins with `p`.
pub fn span_starts_with(c: &Vec<char>, a: usize, b: usize, p: &Vec<char>) -> (r: bool)
    requires
        a <= b <= c.len(),
    ensures
        r == starts_with(c@.subrange(a as int, b as int), p@),
{
    if p.len() > b - a {
        return false;
    }
    let r = span_eq(c, a, a + p.len(), p);
    assert(c@.subrange(a as int, b as int).take(p.len() as int) =~= c@.subrange(
        a as int,
        a + p.len(),
    ));
    r
}

/// Whether `p` occurs in `c[a..b]`.
pub fn span_contains(c: &Vec<char>, a: usize, b: usize, p: &Vec<char>) -> (r: bool)
    requires
        a <= b <= c.len(),
    ensures
        r == contains(c@.subrange(a as int, b as int), p@),
{
    let ghost s = c@.subrange(a as int, b as int);
    if p.len() > b - a {
        assert forall|i: int| !occurs_at(s, p@, i) by {}
        return false;
    }
    if p.len() == 0 {
        assert(s.subrange(0, 0) =~= p@);
        assert(occurs_at(s, p@, 0));
        return true;
    }
    let last = b - p.len();
    let mut i: usize = a;
    while i <= last
        invariant
            a <= b <= c.len(),
            1 <= p.len() <= b - a,
            last == b - p.len(),
            a <= i <= last + 1,
            s == c@.subrange(a as int, b as int),
            forall|k: int| 0 <= k < i - a ==> !#[trigger] occurs_at(s, p@, k),
        decreases last + 1 - i,
    {
        if span_eq(c, i, i + p.len(), p) {
            assert(s.subrange(i - a, i - a + p.len()) =~= c@.subrange(i as int, i + p.len()));
            assert(occurs_at(s, p@, i - a));
            return true;
        }
        assert(s.subrange(i - a, i - a + p.len()) =~= c@.subrange(i as int, i + p.len()));
        i = i + 1;
    }
    assert forall|k: int| !occurs_at(s, p@, k) by {
        if 0 <= k < i - a {
        }
    }
    false
}

} // verus!

verus! {

/// The spans within `c` of the lines of `c[lo..hi]`.
pub fn line_spans(c: &Vec<char>, lo: usize, hi: usize) -> (r: Vec<(usize, usize)>)
    requires
        lo <= hi <= c.len(),
    ensures
        r.len() == lines(c@.subrange(lo as int, hi as int)).len(),
        forall|i: int|
            #![trigger r[i]]
            0 <= i < r.len() ==> {
                &&& lo <= r[i].0 <= r[i].1 <= hi
                &&& c@.subrange(r[i].0 as int, r[i].1 as int) == lines(
                    c@.subrange(lo as int, hi as int),
                )[i]
            },
{
    let ghost s = c@.subrange(lo as int, hi as int);
    let mut out: Vec<(usize, usize)> = Vec::new();
    if lo == hi {
        return out;
    }
    let pieces = split_spans(c, lo, hi, '\n');
    let ghost ps = split_on(s, '\n');
    let count = if c[hi - 1] == '\n' { pieces.len() - 1 } else { pieces.len() };
    proof {
        lemma_split_on_nonempty(s, '\n');
        assert(s.last() == c@[hi - 1]);
    }
    let mut i: usize = 0;
    while i < count
        invariant
            lo < hi <= c.len(),
            s == c@.subrange(lo as int, hi as int),
            ps == split_on(s, '\n'),
            pieces.len() == ps.len(),
            ps.len() >= 1,
            count == lines(s).len(),
            count <= pieces.len(),
            i <= count,
            out.len() == i,
            forall|k: int|
                #![trigger pieces[k]]
                0 <= k < pieces.len() ==> {
                    &&& lo <= pieces[k].0 <= pieces[k].1 <= hi
                    &&& c@.subrange(pieces[k].0 as int, pieces[k].1 as int) == ps[k]
                },
            forall|k: int|
                #![trigger out[k]]
                0 <= k < i ==> {
                    &&& lo <= out[k].0 <= out[k].1 <= hi
                    &&& c@.subrange(out[k].0 as int, out[k].1 as int) == lines(s)[k]
                },
        decreases count - i,
    {
        let (a, b) = pieces[i];
        if i + 1 < pieces.len() && b > a && c[b - 1] == '\r' {
            assert(c@.subrange(a as int, b - 1) =~= ps[i as int].drop_last());
            out.push((a, b - 1));
        } else {
            out.push((a, b));
        }
        i = i + 1;
    }
    out
}

/// The lines of `s`, each as a string.
pub fn split_lines(s: &str) -> (r: Vec<String>)
    ensures
        r.deep_view() == lines(s@),
{
    let c = chars_of(s);
    let spans = line_spans(&c, 0, c.len());
    assert(c@.subrange(0, c.len() as int) =~= c@);
    let mut out: Vec<String> = Vec::new();
    let mut i: usize = 0;
    while i < spans.len()
        invariant
            c@ == s@,
            spans.len() == lines(s@).len(),
            forall|k: int|
                #![trigger spans[k]]
                0 <= k < spans.len() ==> {
                    &&& spans[k].0 <= spans[k].1 <= c.len()
                    &&& c@.subrange(spans[k].0 as int, spans[k].1 as int) == lines(s@)[k]
                },
            i <= spans.len(),
            out.len() == i,
            forall|k: int| 0 <= k < i ==> (#[trigger] out[k])@ == lines(s@)[k],
        decreases spans.len() - i,
    {
        let (a, b) = spans[i];
        out.push(string_of_span(s, &c, a, b));
        i = i + 1;
    }
    assert(out.deep_view() =~= lines(s@));
    out
}

/// The spans within `c` of the words of `c[lo..hi]`.
pub fn word_spans(c: &Vec<char>, lo: usize, hi: usize) -> (r: Vec<(usize, usize)>)
    requires
        lo <= hi <= c.len(),
    ensures
        r.len() == words(c@.subrange(lo as int, hi as int)).len(),
        forall|i: int|
            #![trigger r[i]]
            0 <= i < r.len() ==> {
                &&& lo <= r[i].0 <= r[i].1 <= hi
                &&& c@.subrange(r[i].0 as int, r[i].1 as int) == words(
                    c@.subrange(lo as int, hi as int),
                )[i]
            },
{
    let mut out: Vec<(usize, usize)> = Vec::new();
    let mut j: usize = lo;
    assert(words(c@.subrange(lo as int, lo as int)) =~= Seq::<Seq<char>>::empty());
    while j < hi
        invariant
            lo <= j <= hi <= c.len(),
            out.len() == words(c@.subrange(lo as int, j as int)).len(),
            out.len() > 0 && j > lo && !is_whitespace(c@[j - 1]) ==> out[out.len() - 1].1 == j,
            forall|i: int|
                #![trigger out[i]]
                0 <= i < out.len() ==> {
                    &&& lo <= out[i].0 <= out[i].1 <= j
                    &&& c@.subrange(out[i].0 as int, out[i].1 as int) == words(
                        c@.subrange(lo as int, j as int),
                    )[i]
                },
            j > lo && !is_whitespace(c@[j - 1]) ==> out.len() > 0,
        decreases hi - j,
    {
        let ghost prev = words(c@.subrange(lo as int, j as int));
        let ghost s1 = c@.subrange(lo as int, j + 1);
        assert(s1.drop_last() =~= c@.subrange(lo as int, j as int));
        assert(s1.last() == c@[j as int]);
        let ch = c[j];
        if char_is_whitespace(ch) {
        } else if j > lo && !char_is_whitespace(c[j - 1]) {
            assert(s1[s1.len() - 2] == c@[j - 1]);
            let k = out.len() - 1;
            let (a, _) = out[k];
            out.set(k, (a, j + 1));
            assert(c@.subrange(a as int, j + 1) =~= prev.last().push(ch));
        } else {
            if j > lo {
                assert(s1[s1.len() - 2] == c@[j - 1]);
            }
            out.push((j, j + 1));
            assert(c@.subrange(j as int, j + 1) =~= seq![ch]);
        }
        j = j + 1;
    }
    out
}

/// Splits `s` at every `sep`, each piece as a string.
pub fn split_string(s: &str, sep: char) -> (r: Vec<String>)
    ensures
        r.deep_view() == split_on(s@, sep),
{
    let c = chars_of(s);
    let spans = split_spans(&c, 0, c.len(), sep);
    assert(c@.subrange(0, c.len() as int) =~= c@);
    let mut out: Vec<String> = Vec::new();
    let mut i: usize = 0;
    while i < spans.len()
        invariant
            c@ == s@,
            spans.len() == split_on(s@, sep).len(),
            forall|k: int|
                #![trigger spans[k]]
                0 <= k < spans.len() ==> {
                    &&& spans[k].0 <= spans[k].1 <= c.len()
                    &&& c@.subrange(spans[k].0 as int, spans[k].1 as int) == split_on(s@, sep)[k]
                },
            i <= spans.len(),
            out.len() == i,
            forall|k: int| 0 <= k < i ==> (#[trigger] out[k])@ == split_on(s@, sep)[k],
        decreases spans.len() - i,
    {
        let (a, b) = spans[i];
        out.push(string_of_span(s, &c, a, b));
        i = i + 1;
    }
    assert(out.deep_view() =~= split_on(s@, sep));
    out
}

/// The words of `s`, each as a string.
pub fn split_words(s: &str) -> (r: Vec<String>)
    ensures
        r.deep_view() == words(s@),
{
    let c = chars_of(s);
    let spans = word_spans(&c, 0, c.len());
    assert(c@.subrange(0, c.len() as int) =~= c@);
    let mut out: Vec<String> = Vec::new();
    let mut i: usize = 0;
    while i < spans.len()
        invariant
            c@ == s@,
            spans.len() == words(s@).len(),
            forall|k: int|
                #![trigger spans[k]]
                0 <= k < spans.len() ==> {
                    &&& spans[k].0 <= spans[k].1 <= c.len()
                    &&& c@.subrange(spans[k].0 as int, spans[k].1 as int) == words(s@)[k]
                },
            i <= spans.len(),
            out.len() == i,
            forall|k: int| 0 <= k < i ==> (#[trigger] out[k])@ == words(s@)[k],
        decreases spans.len() - i,
    {
        let (a, b) = spans[i];
        out.push(string_of_span(s, &c, a, b));
        i = i + 1;
    }
    assert(out.deep_view() =~= words(s@));
    out
}

} // verus!

verus! {

proof fn lemma_decimal_monotone(d: Seq<char>, k: int)
    requires
        all_digits(d),
        0 <= k <= d.len(),
    ensures
        0 <= decimal_value(d.take(k)) <= decimal_value(d),
    decreases d.len(),
{
    if k == d.len() {
        assert(d.take(k) =~= d);
        if d.len() > 0 {
            lemma_decimal_monotone(d.drop_last(), 0);
        } else {
            assert(decimal_value(d) == 0);
        }
    } else {
        assert(d.drop_last().take(k) =~= d.take(k));
        lemma_decimal_monotone(d.drop_last(), k);
        assert(is_ascii_digit(d[d.len() - 1]));
    }
}

/// Computes `parse_u32` on `c[a..b]`.
pub fn parse_u32_span(c: &Vec<char>, a: usize, b: usize) -> (r: Option<u32>)
    requires
        a <= b <= c.len(),
    ensures
        r == parse_u32(c@.subrange(a as int, b as int)),
{
    let ghost s = c@.subrange(a as int, b as int);
    let mut start = a;
    if a < b && c[a] == '+' {
        start = a + 1;
        assert(s.drop_first() =~= c@.subrange(start as int, b as int));
    }
    let ghost d = c@.subrange(start as int, b as int);
    assert(d == (if s.len() > 0 && s[0] == '+' { s.drop_first() } else { s }));
    if start == b {
        return None;
    }
    let mut value: u64 = 0;
    let mut k: usize = start;
    while k < b
        invariant
            start <= k <= b <= c.len(),
            start < b,
            d == c@.subrange(start as int, b as int),
            s == c@.subrange(a as int, b as int),
            d == (if s.len() > 0 && s[0] == '+' { s.drop_first() } else { s }),
            all_digits(d.take(k - start)),
            value == decimal_value(d.take(k - start)),
            value <= u32::MAX,
        decreases b - k,
    {
        let ch = c[k];
        if !('0' <= ch && ch <= '9') {
            assert(!is_ascii_digit(d[k - start]));
            return None;
        }
        let digit = (ch as u64) - ('0' as u64);
        assert(d.take(k - start + 1).drop_last() =~= d.take(k - start));
        value = value * 10 + digit;
        k = k + 1;
        assert(all_digits(d.take(k - start)));
        if value > 4294967295 {
            proof {
                if all_digits(d) {
                    lemma_decimal_monotone(d, k - start);
                }
            }
            return None;
        }
    }
    assert(d.take(b - start) =~= d);
    Some(value as u32)
}

/// Reads `s` as a `u32` in decimal, as `parse_u32` says.
pub fn parse_u32_str(s: &str) -> (r: Option<u32>)
    ensures
        r == parse_u32(s@),
{
    let c = chars_of(s);
    assert(c@.subrange(0, c.len() as int) =~= c@);
    parse_u32_span(&c, 0, c.len())
}

/// `s` begins with `p`.
pub fn str_starts_with(s: &str, p: &str) -> (r: bool)
    ensures
        r == starts_with(s@, p@),
{
    let c = chars_of(s);
    let q = chars_of(p);
    assert(c@.subrange(0, c.len() as int) =~= c@);
    span_starts_with(&c, 0, c.len(), &q)
}

/// `p` occurs in `s`.
pub fn str_contains(s: &str, p: &str) -> (r: bool)
    ensures
        r == contains(s@, p@),
{
    let c = chars_of(s);
    let q = chars_of(p);
    assert(c@.subrange(0, c.len() as int) =~= c@);
    span_contains(&c, 0, c.len(), &q)
}

/// The characters of `s` with ASCII upper-case letters made lower case.
pub fn lowercase_chars(s: &str) -> (r: Vec<char>)
    ensures
        r@ == to_ascii_lowercase(s@),
{
    let c = chars_of(s);
    let mut out: Vec<char> = Vec::new();
    let mut i: usize = 0;
    while i < c.len()
        invariant
            c@ == s@,
            i <= c.len(),
            out@ == to_ascii_lowercase(s@).take(i as int),
        decreases c.len() - i,
    {
        let ch = c[i];
        let low = if 'A' <= ch && ch <= 'Z' {
            ((ch as u8) + 32) as char
        } else {
            ch
        };
        out.push(low);
        i = i + 1;
        assert(out@ =~= to_ascii_lowercase(s@).take(i as int));
    }
    assert(out@ =~= to_ascii_lowercase(s@));
    out
}

/// `p` occurs in `s` once ASCII letters of `s` are made lower case.
pub fn lowercase_contains(s: &str, p: &str) -> (r: bool)
    ensures
        r == contains(to_ascii_lowercase(s@), p@),
{
    let c = lowercase_chars(s);
    let q = chars_of(p);
    assert(c@.subrange(0, c.len() as int) =~= c@);
    span_contains(&c, 0, c.len(), &q)
}

} // verus!

verus! {

/// The index of the first `c` in `s`, if it holds one.
pub open spec fn find_char(s: Seq<char>, c: char) -> Option<int>
    decreases s.len(),
{
    if s.len() == 0 {
        None
    } else if s[0] == c {
        Some(0)
    } else {
        match find_char(s.drop_first(), c) {
            Some(k) => Some(k + 1),
            None => None,
        }
    }
}

proof fn lemma_find_char(s: Seq<char>, c: char, k: int)
    requires
        0 <= k <= s.len(),
        forall|j: int| 0 <= j < k ==> #[trigger] s[j] != c,
    ensures
        k < s.len() && s[k] == c ==> find_char(s, c) == Some(k),
        k == s.len() ==> find_char(s, c) is None,
    decreases k,
{
    if k > 0 {
        assert forall|j: int| 0 <= j < k - 1 implies #[trigger] s.drop_first()[j] != c by {
            assert(s.drop_first()[j] == s[j + 1]);
        }
        lemma_find_char(s.drop_first(), c, k - 1);
        assert(s[0] != c);
    }
}

/// Where the first `c` in `s` stands.
pub fn str_find_char(s: &str, c: char) -> (r: Option<usize>)
    ensures
        match r {
            Some(k) => k < s@.len() && find_char(s@, c) == Some(k as int),
            None => find_char(s@, c) is None,
        },
{
    let v = chars_of(s);
    let mut i: usize = 0;
    while i < v.len()
        invariant
            v@ == s@,
            i <= v.len(),
            forall|j: int| 0 <= j < i ==> #[trigger] v@[j] != c,
        decreases v.len() - i,
    {
        if v[i] == c {
            proof {
                lemma_find_char(s@, c, i as int);
            }
            return Some(i);
        }
        i = i + 1;
    }
    proof {
        lemma_find_char(s@, c, i as int);
    }
    None
}

/// The entries of `o`, as a sequence of at most one item.
pub open spec fn opt_seq<A>(o: Option<A>) -> Seq<A> {
    match o {
        Some(a) => seq![a],
        None => seq![],
    }
}

/// `s` neither begins nor ends with whitespace.
pub open spec fn is_trimmed(s: Seq<char>) -> bool {
    s.len() > 0 ==> !is_whitespace(s[0]) && !is_whitespace(s.last())
}

proof fn lemma_trim_start_shape(s: Seq<char>)
    ensures
        trim_start(s).len() == 0 || !is_whitespace(trim_start(s)[0]),
    decreases s.len(),
{
    if s.len() > 0 && is_whitespace(s[0]) {
        lemma_trim_start_shape(s.drop_first());
    }
}

proof fn lemma_trim_end_shape(s: Seq<char>)
    ensures
        trim_end(s).len() <= s.len(),
        trim_end(s) == s.take(trim_end(s).len() as int),
        trim_end(s).len() == 0 || !is_whitespace(trim_end(s).last()),
    decreases s.len(),
{
    if s.len() > 0 && is_whitespace(s.last()) {
        lemma_trim_end_shape(s.drop_last());
        assert(s.drop_last().take(trim_end(s).len() as int) =~= s.take(trim_end(s).len() as int));
    } else {
        assert(s.take(s.len() as int) =~= s);
    }
}

/// Trimming leaves no whitespace at either end, so trimming again changes nothing.
pub proof fn lemma_trim_idempotent(s: Seq<char>)
    ensures
        is_trimmed(trim(s)),
        trim(trim(s)) == trim(s),
{
    let t = trim_start(s);
    let u = trim_end(t);
    lemma_trim_start_shape(s);
    lemma_trim_end_shape(t);
    if u.len() > 0 {
        assert(u[0] == t[0]);
    }
}

/// Everything `trimmed_nonempty` keeps is non-empty and trimmed.
pub proof fn lemma_trimmed_nonempty_clean(ls: Seq<Seq<char>>)
    ensures
        forall|i: int|
            0 <= i < trimmed_nonempty(ls).len() ==> (#[trigger] trimmed_nonempty(ls)[i]).len() > 0
                && is_trimmed(trimmed_nonempty(ls)[i]),
    decreases ls.len(),
{
    if ls.len() > 0 {
        lemma_trimmed_nonempty_clean(ls.drop_first());
        lemma_trim_idempotent(ls[0]);
        let head = if trim(ls[0]).len() > 0 { seq![trim(ls[0])] } else { Seq::<Seq<char>>::empty() };
        let r = trimmed_nonempty(ls);
        assert forall|i: int| 0 <= i < r.len() implies (#[trigger] r[i]).len() > 0 && is_trimmed(r[i]) by {
            if i >= head.len() {
                assert(r[i] == trimmed_nonempty(ls.drop_first())[i - head.len()]);
            }
        }
    }
}

/// Each of `ls` trimmed, the empty ones left out.
pub open spec fn trimmed_nonempty(ls: Seq<Seq<char>>) -> Seq<Seq<char>>
    decreases ls.len(),
{
    if ls.len() == 0 {
        seq![]
    } else {
        let t = trim(ls[0]);
        (if t.len() > 0 { seq![t] } else { seq![] }) + trimmed_nonempty(ls.drop_first())
    }
}

/// The lines of `s`, trimmed, the empty ones left out.
pub fn nonempty_trimmed_lines(s: &str) -> (r: Vec<String>)
    ensures
        r.deep_view() == trimmed_nonempty(lines(s@)),
{
    let ls = split_lines(s);
    let ghost all = ls.deep_view();
    let mut out: Vec<String> = Vec::new();
    let mut i: usize = 0;
    assert(all.skip(0) =~= all);
    while i < ls.len()
        invariant
            all == ls.deep_view(),
            all == lines(s@),
            i <= ls.len(),
            trimmed_nonempty(all) == out.deep_view() + trimmed_nonempty(all.skip(i as int)),
        decreases ls.len() - i,
    {
        let ghost before = out.deep_view();
        let ghost rest = all.skip(i as int);
        assert(rest[0] == ls[i as int]@);
        assert(rest.drop_first() =~= all.skip(i + 1));
        let t = trim_string(ls[i].as_str());
        if !t.as_str().is_empty() {
            out.push(t);
            assert(out.deep_view() =~= before + seq![trim(rest[0])]);
        } else {
            assert(out.deep_view() =~= before + Seq::<Seq<char>>::empty());
        }
        i = i + 1;
    }
    assert(all.skip(i as int) =~= Seq::<Seq<char>>::empty());
    assert(out.deep_view() =~= trimmed_nonempty(all));
    out
}

} // verus!

verus! {

proof fn lemma_trim_start_suffix(s: Seq<char>)
    ensures
        trim_start(s).len() <= s.len(),
        trim_start(s) == s.skip(s.len() - trim_start(s).len()),
        forall|j: int| 0 <= j < s.len() - trim_start(s).len() ==> is_whitespace(#[trigger] s[j]),
    decreases s.len(),
{
    if s.len() > 0 && is_whitespace(s[0]) {
        let d = s.drop_first();
        lemma_trim_start_suffix(d);
        assert(d.skip(d.len() - trim_start(d).len()) =~= s.skip(s.len() - trim_start(s).len()));
        assert forall|j: int| 0 <= j < s.len() - trim_start(s).len() implies is_whitespace(#[trigger] s[j]) by {
            if j > 0 {
                assert(s[j] == d[j - 1]);
            }
        }
    } else {
        assert(s.skip(0) =~= s);
    }
}

proof fn lemma_trim_end_prefix(s: Seq<char>)
    ensures
        trim_end(s).len() <= s.len(),
        trim_end(s) == s.take(trim_end(s).len() as int),
        forall|j: int| trim_end(s).len() <= j < s.len() ==> is_whitespace(#[trigger] s[j]),
    decreases s.len(),
{
    lemma_trim_end_shape(s);
    if s.len() > 0 && is_whitespace(s.last()) {
        let d = s.drop_last();
        lemma_trim_end_prefix(d);
        assert forall|j: int| trim_end(s).len() <= j < s.len() implies is_whitespace(#[trigger] s[j]) by {
            if j < s.len() - 1 {
                assert(s[j] == d[j]);
            }
        }
    }
}

/// Stripping leading and trailing whitespace can be done in either order.
pub proof fn lemma_trim_commute(s: Seq<char>)
    ensures
        trim_start(trim_end(s)) == trim_end(trim_start(s)),
{
    lemma_trim_start_suffix(s);
    lemma_trim_end_prefix(s);
    lemma_trim_start_shape(s);
    lemma_trim_end_shape(s);
    let a = s.len() - trim_start(s).len();
    let b = trim_end(s).len() as int;
    if a == s.len() {
        // all whitespace
        assert(trim_start(s) =~= Seq::<char>::empty());
        assert forall|j: int| 0 <= j < s.len() implies is_whitespace(#[trigger] s[j]) by {}
        lemma_trim_end_take(s, 0);
        assert(s.take(0) =~= Seq::<char>::empty());
        assert(trim_end(s) =~= Seq::<char>::empty());
    } else {
        assert(!is_whitespace(s[a]));
        assert(a < b);
        let te = s.take(b);
        assert forall|j: int| 0 <= j < a implies is_whitespace(#[trigger] te[j]) by {
            assert(te[j] == s[j]);
        }
        lemma_trim_start_skip(te, a);
        let ts = s.skip(a);
        assert forall|j: int| b - a <= j < ts.len() implies is_whitespace(#[trigger] ts[j]) by {
            assert(ts[j] == s[a + j]);
        }
        assert(ts[b - a - 1] == s[b - 1]);
        lemma_trim_end_take(ts, b - a);
        assert(te.skip(a) =~= ts.take(b - a));
    }
}

/// Trimming what has already lost its trailing whitespace trims as much.
pub proof fn lemma_trim_of_trim_end(s: Seq<char>)
    ensures
        trim(trim_end(s)) == trim(s),
{
    lemma_trim_commute(s);
    let t = trim_start(s);
    let u = trim_end(t);
    lemma_trim_end_shape(t);
    if u.len() > 0 {
        assert(trim_end(u) == u);
    }
}

/// Trimming what has already lost its leading whitespace trims as much.
pub proof fn lemma_trim_of_trim_start(s: Seq<char>)
    ensures
        trim(trim_start(s)) == trim(s),
{
    lemma_trim_start_shape(s);
    let t = trim_start(s);
    assert(trim_start(t) == t);
}

/// Leading whitespace ends at a character that is not whitespace.
pub proof fn lemma_trim_start_concat(a: Seq<char>, b: Seq<char>)
    requires
        b.len() > 0,
        !is_whitespace(b[0]),
    ensures
        trim_start(a + b) == trim_start(a) + b,
    decreases a.len(),
{
    if a.len() == 0 {
        assert(a + b =~= b);
        assert(trim_start(a) + b =~= b);
    } else if is_whitespace(a[0]) {
        lemma_trim_start_concat(a.drop_first(), b);
        assert((a + b).drop_first() =~= a.drop_first() + b);
    } else {
        assert((a + b)[0] == a[0]);
    }
}

/// Trailing whitespace begins after a character that is not whitespace.
pub proof fn lemma_trim_end_concat(a: Seq<char>, b: Seq<char>)
    requires
        a.len() > 0,
        !is_whitespace(a.last()),
    ensures
        trim_end(a + b) == a + trim_end(b),
    decreases b.len(),
{
    if b.len() == 0 {
        assert(a + b =~= a);
        assert(a + trim_end(b) =~= a);
    } else if is_whitespace(b.last()) {
        lemma_trim_end_concat(a, b.drop_last());
        assert((a + b).drop_last() =~= a + b.drop_last());
    } else {
        assert((a + b).last() == b.last());
    }
}

/// The lines of a text, each trimmed.
pub open spec fn trimmed_lines(ls: Seq<Seq<char>>) -> Seq<Seq<char>> {
    ls.map_values(|l: Seq<char>| trim(l))
}

/// The texts among `ts` that are not empty, in order.
pub open spec fn non_blank(ts: Seq<Seq<char>>) -> Seq<Seq<char>> {
    ts.filter(|t: Seq<char>| t.len() > 0)
}

/// Reading the non-blank lines keeps every one of them, trimmed, in order,
/// and nothing else: it is trimming each line, then dropping the empty ones.
pub proof fn lemma_trimmed_nonempty_keeps_every_line(ls: Seq<Seq<char>>)
    ensures
        trimmed_nonempty(ls) == non_blank(trimmed_lines(ls)),
    decreases ls.len(),
{
    let p = |t: Seq<char>| t.len() > 0;
    if ls.len() == 0 {
        reveal(Seq::filter);
        assert(trimmed_lines(ls) =~= Seq::<Seq<char>>::empty());
        assert(non_blank(trimmed_lines(ls)) =~= Seq::<Seq<char>>::empty());
    } else {
        let rest = ls.drop_first();
        lemma_trimmed_nonempty_keeps_every_line(rest);
        assert(trimmed_lines(ls) =~= seq![trim(ls[0])] + trimmed_lines(rest));
        trimmed_lines(rest).lemma_filter_prepend(trim(ls[0]), p);
        let head = if trim(ls[0]).len() > 0 { seq![trim(ls[0])] } else { Seq::<Seq<char>>::empty() };
        assert(trimmed_nonempty(ls) == head + trimmed_nonempty(rest));
    }
}

} // verus!
