//! The textual forms of IP addresses that this library accepts as DNS
//! server addresses: dotted-quad IPv4 and colon-hex IPv6 (RFC 4291 text,
//! with `::` compression and an optional embedded dotted quad).

use vstd::prelude::*;
use crate::text::{
    all_digits, all_hex_digits, chars_of, decimal_value, is_ascii_digit, is_hex_digit,
    lemma_split_on_double_sep, lemma_split_on_len, lemma_split_on_nonempty, lemma_split_on_trailing_sep, split_on,
    split_spans,
};

verus! {

/// One decimal octet of a dotted quad: one to three ASCII digits, no
/// leading zero (octal-looking forms are refused), value at most 255.
pub open spec fn is_ipv4_octet(s: Seq<char>) -> bool {
    &&& 1 <= s.len() <= 3
    &&& all_digits(s)
    &&& (s.len() > 1 ==> s[0] != '0')
    &&& decimal_value(s) <= 255
}

/// `s` is an IPv4 address in dotted-quad form: exactly four octets
/// separated by dots, and nothing else.
pub open spec fn is_ipv4_text(s: Seq<char>) -> bool {
    let parts = split_on(s, '.');
    &&& parts.len() == 4
    &&& forall|i: int| 0 <= i < 4 ==> is_ipv4_octet(#[trigger] parts[i])
}

/// One 16-bit group of an IPv6 address: one to four hexadecimal digits.
pub open spec fn is_hex_group(s: Seq<char>) -> bool {
    1 <= s.len() <= 4 && all_hex_digits(s)
}

/// The number of 16-bit groups that a colon-separated list of hex groups
/// stands for, where the list may end in a dotted quad (two groups) if
/// `allow_ipv4` holds; the empty text is the empty list. `None` when `s`
/// is no such list.
pub open spec fn group_list_size(s: Seq<char>, allow_ipv4: bool) -> Option<nat> {
    let parts = split_on(s, ':');
    if s.len() == 0 {
        Some(0)
    } else if forall|i: int| 0 <= i < parts.len() ==> is_hex_group(#[trigger] parts[i]) {
        Some(parts.len())
    } else if allow_ipv4 && is_ipv4_text(parts.last()) && forall|i: int|
        0 <= i < parts.len() - 1 ==> is_hex_group(#[trigger] parts[i]) {
        Some(parts.len() + 1)
    } else {
        None
    }
}

/// A `::` starts at index `i` of `s`.
pub open spec fn double_colon_at(s: Seq<char>, i: int) -> bool {
    0 <= i && i + 1 < s.len() && s[i] == ':' && s[i + 1] == ':'
}

/// `s` splits at a `::` starting at index `i` into a head list of groups
/// (no dotted quad) and a tail list (which may end in one) that together
/// leave room for at least one zero group.
pub open spec fn is_compressed_split(s: Seq<char>, i: int) -> bool {
    &&& double_colon_at(s, i)
    &&& group_list_size(s.take(i), false) matches Some(h)
    &&& group_list_size(s.skip(i + 2), true) matches Some(t)
    &&& h + t <= 7
}

/// `s` is an IPv6 address in text form: either a full list of eight
/// groups (the last two may be written as a dotted quad), or a list with
/// one `::` standing for one or more zero groups.
pub open spec fn is_ipv6_text(s: Seq<char>) -> bool {
    ||| group_list_size(s, true) == Some(8nat)
    ||| exists|i: int| is_compressed_split(s, i)
}

/// A list whose split holds an empty piece before its last one is no list of groups.
proof fn lemma_empty_piece_no_list(s: Seq<char>, allow_ipv4: bool, m: int)
    requires
        s.len() > 0,
        0 <= m < split_on(s, ':').len() - 1,
        split_on(s, ':')[m].len() == 0,
    ensures
        group_list_size(s, allow_ipv4) is None,
{
    let parts = split_on(s, ':');
    assert(!is_hex_group(parts[m]));
}

/// A nonempty text that ends in a colon is no list of groups.
proof fn lemma_trailing_colon_no_list(s: Seq<char>, allow_ipv4: bool)
    requires
        s.len() > 0,
        s.last() == ':',
    ensures
        group_list_size(s, allow_ipv4) is None,
{
    lemma_split_on_trailing_sep(s, ':');
    let parts = split_on(s, ':');
    assert(!is_hex_group(parts[parts.len() - 1]));
    lemma_split_on_nonempty(parts.last(), '.');
    assert(split_on(parts.last(), '.') =~= seq![Seq::<char>::empty()]);
}

/// What splitting keeps: if no piece holds `c`, neither does the whole.
proof fn lemma_split_keeps_out(s: Seq<char>, sep: char, c: char)
    requires
        c != sep,
        forall|i: int, j: int|
            0 <= i < split_on(s, sep).len() && 0 <= j < split_on(s, sep)[i].len() ==> #[trigger] split_on(
                s,
                sep,
            )[i][j] != c,
    ensures
        forall|k: int| 0 <= k < s.len() ==> #[trigger] s[k] != c,
    decreases s.len(),
{
    if s.len() > 0 {
        let d = s.drop_last();
        let before = split_on(d, sep);
        lemma_split_on_nonempty(d, sep);
        let parts = split_on(s, sep);
        assert forall|i: int, j: int| 0 <= i < before.len() && 0 <= j < before[i].len() implies #[trigger] before[i][j] != c by {
            if s.last() == sep {
                assert(parts[i] == before[i]);
            } else if i < before.len() - 1 {
                assert(parts[i] == before[i]);
            } else {
                assert(parts[i] == before[i].push(s.last()));
                assert(parts[i][j] == before[i][j]);
            }
        }
        lemma_split_keeps_out(d, sep, c);
        assert forall|k: int| 0 <= k < s.len() implies #[trigger] s[k] != c by {
            if k < s.len() - 1 {
                assert(s[k] == d[k]);
            } else if s.last() != sep {
                let last = before.len() - 1;
                assert(parts[last] == before[last].push(s.last()));
                assert(parts[last][before[last].len() as int] == s.last());
            }
        }
    }
}

/// Splitting at a separator that joins two texts splits each of them.
pub proof fn lemma_split_concat(a: Seq<char>, b: Seq<char>, sep: char)
    ensures
        split_on(a + seq![sep] + b, sep) == split_on(a, sep) + split_on(b, sep),
    decreases b.len(),
{
    let ab = a + seq![sep] + b;
    if b.len() == 0 {
        assert(ab.drop_last() =~= a);
        assert(split_on(b, sep) =~= seq![Seq::<char>::empty()]);
        assert(split_on(ab, sep) =~= split_on(a, sep) + split_on(b, sep));
    } else {
        let b1 = b.drop_last();
        lemma_split_concat(a, b1, sep);
        lemma_split_on_nonempty(b1, sep);
        assert(ab.drop_last() =~= a + seq![sep] + b1);
        assert(split_on(ab, sep) =~= split_on(a, sep) + split_on(b, sep));
    }
}

/// A string with no `sep` splits into the one piece that is itself.
pub proof fn lemma_split_without_sep(s: Seq<char>, sep: char)
    requires
        forall|k: int| 0 <= k < s.len() ==> #[trigger] s[k] != sep,
    ensures
        split_on(s, sep) =~= seq![s],
    decreases s.len(),
{
    if s.len() > 0 {
        assert forall|k: int| 0 <= k < s.len() - 1 implies #[trigger] s.drop_last()[k] != sep by {
            assert(s.drop_last()[k] == s[k]);
        }
        lemma_split_without_sep(s.drop_last(), sep);
        assert(s.last() != sep);
        assert(s.drop_last().push(s.last()) =~= s);
    } else {
        assert(s =~= Seq::<char>::empty());
    }
}

/// The pieces `gs` joined by `sep`.
pub open spec fn joined(gs: Seq<Seq<char>>, sep: char) -> Seq<char>
    decreases gs.len(),
{
    if gs.len() == 0 {
        seq![]
    } else if gs.len() == 1 {
        gs[0]
    } else {
        joined(gs.drop_last(), sep) + seq![sep] + gs.last()
    }
}

/// Splitting pieces joined by a separator none of them holds gives them back.
pub proof fn lemma_split_joined(gs: Seq<Seq<char>>, sep: char)
    requires
        gs.len() >= 1,
        forall|i: int, j: int| 0 <= i < gs.len() && 0 <= j < gs[i].len() ==> #[trigger] gs[i][j] != sep,
    ensures
        split_on(joined(gs, sep), sep) == gs,
        gs.len() >= 2 || gs[0].len() > 0 ==> joined(gs, sep).len() > 0,
    decreases gs.len(),
{
    if gs.len() == 1 {
        assert forall|k: int| 0 <= k < gs[0].len() implies #[trigger] gs[0][k] != sep by {}
        lemma_split_without_sep(gs[0], sep);
        assert(split_on(joined(gs, sep), sep) =~= gs);
    } else {
        let d = gs.drop_last();
        assert forall|i: int, j: int| 0 <= i < d.len() && 0 <= j < d[i].len() implies #[trigger] d[i][j] != sep by {
            assert(d[i] == gs[i]);
        }
        lemma_split_joined(d, sep);
        let l = gs.last();
        assert forall|k: int| 0 <= k < l.len() implies #[trigger] l[k] != sep by {
            assert(gs[gs.len() - 1][k] == l[k]);
        }
        lemma_split_without_sep(l, sep);
        lemma_split_concat(joined(d, sep), l, sep);
        assert(split_on(joined(gs, sep), sep) =~= gs);
        assert((joined(d, sep) + seq![sep] + l).len() > 0);
    }
}

/// Four octets joined by dots make a dotted quad.
pub proof fn lemma_dotted_quad(os: Seq<Seq<char>>)
    requires
        os.len() == 4,
        forall|i: int| 0 <= i < 4 ==> is_ipv4_octet(#[trigger] os[i]),
    ensures
        is_ipv4_text(joined(os, '.')),
{
    assert forall|i: int, j: int| 0 <= i < os.len() && 0 <= j < os[i].len() implies #[trigger] os[i][j] != '.' by {
        assert(is_ipv4_octet(os[i]));
        assert(is_ascii_digit(os[i][j]));
    }
    lemma_split_joined(os, '.');
}

/// Hex groups on both sides of one `::`, leaving room for a zero group,
/// make IPv6 text.
pub proof fn lemma_compressed_ipv6(head: Seq<Seq<char>>, tail: Seq<Seq<char>>)
    requires
        head.len() >= 1,
        tail.len() >= 1,
        head.len() + tail.len() <= 7,
        forall|i: int| 0 <= i < head.len() ==> is_hex_group(#[trigger] head[i]),
        forall|i: int| 0 <= i < tail.len() ==> is_hex_group(#[trigger] tail[i]),
    ensures
        is_ipv6_text(joined(head, ':') + seq![':', ':'] + joined(tail, ':')),
{
    assert forall|i: int, j: int| 0 <= i < head.len() && 0 <= j < head[i].len() implies #[trigger] head[i][j] != ':' by {
        assert(is_hex_group(head[i]));
        assert(is_hex_digit(head[i][j]));
    }
    assert forall|i: int, j: int| 0 <= i < tail.len() && 0 <= j < tail[i].len() implies #[trigger] tail[i][j] != ':' by {
        assert(is_hex_group(tail[i]));
        assert(is_hex_digit(tail[i][j]));
    }
    lemma_split_joined(head, ':');
    lemma_split_joined(tail, ':');
    let h = joined(head, ':');
    let t = joined(tail, ':');
    let s = h + seq![':', ':'] + t;
    let i = h.len() as int;
    assert(s.take(i) =~= h);
    assert(s.skip(i + 2) =~= t);
    assert(is_compressed_split(s, i));
}

/// An address is never both: IPv4 text holds no colon, and IPv6 text holds one.
pub proof fn lemma_ipv4_ipv6_disjoint(s: Seq<char>)
    ensures
        !(is_ipv4_text(s) && is_ipv6_text(s)),
{
    if is_ipv4_text(s) && is_ipv6_text(s) {
        let parts = split_on(s, '.');
        assert forall|i: int, j: int| 0 <= i < parts.len() && 0 <= j < parts[i].len() implies #[trigger] parts[i][j] != ':' by {
            assert(is_ipv4_octet(parts[i]));
            assert(is_ascii_digit(parts[i][j]));
        }
        lemma_split_keeps_out(s, '.', ':');
        if group_list_size(s, true) == Some(8nat) {
            lemma_split_without_sep(s, ':');
        } else {
            let i = choose|i: int| is_compressed_split(s, i);
            assert(s[i] == ':');
        }
    }
}

/// Checks `is_ipv4_octet` on `c[a..b]`.
fn octet_at(c: &Vec<char>, a: usize, b: usize) -> (r: bool)
    requires
        a <= b <= c.len(),
    ensures
        r == is_ipv4_octet(c@.subrange(a as int, b as int)),
{
    let ghost s = c@.subrange(a as int, b as int);
    if b - a < 1 || b - a > 3 {
        return false;
    }
    if b - a > 1 && c[a] == '0' {
        return false;
    }
    let mut value: u32 = 0;
    let mut k: usize = a;
    while k < b
        invariant
            a <= k <= b <= c.len(),
            b - a <= 3,
            s == c@.subrange(a as int, b as int),
            all_digits(s.take(k - a)),
            value == decimal_value(s.take(k - a)),
            value < 1000,
            k - a == 0 ==> value == 0,
            k - a <= 1 ==> value < 10,
            k - a <= 2 ==> value < 100,
        decreases b - k,
    {
        let ch = c[k];
        if !('0' <= ch && ch <= '9') {
            assert(!is_ascii_digit(s[k - a]));
            return false;
        }
        let d = (ch as u32) - ('0' as u32);
        assert(s.take(k - a + 1).drop_last() =~= s.take(k - a));
        value = value * 10 + d;
        k = k + 1;
        assert(all_digits(s.take(k - a)));
    }
    assert(s.take(b - a) =~= s);
    value <= 255
}

/// Checks `is_hex_group` on `c[a..b]`.
fn hex_group_at(c: &Vec<char>, a: usize, b: usize) -> (r: bool)
    requires
        a <= b <= c.len(),
    ensures
        r == is_hex_group(c@.subrange(a as int, b as int)),
{
    let ghost s = c@.subrange(a as int, b as int);
    if b - a < 1 || b - a > 4 {
        return false;
    }
    let mut k: usize = a;
    while k < b
        invariant
            a <= k <= b <= c.len(),
            s == c@.subrange(a as int, b as int),
            forall|i: int| 0 <= i < k - a ==> is_hex_digit(#[trigger] s[i]),
        decreases b - k,
    {
        let ch = c[k];
        if !(('0' <= ch && ch <= '9') || ('a' <= ch && ch <= 'f') || ('A' <= ch && ch <= 'F')) {
            assert(!is_hex_digit(s[k - a]));
            return false;
        }
        k = k + 1;
    }
    true
}

/// Checks `is_ipv4_text` on `c[lo..hi]`.
fn ipv4_at(c: &Vec<char>, lo: usize, hi: usize) -> (r: bool)
    requires
        lo <= hi <= c.len(),
    ensures
        r == is_ipv4_text(c@.subrange(lo as int, hi as int)),
{
    let spans = split_spans(c, lo, hi, '.');
    let ghost parts = split_on(c@.subrange(lo as int, hi as int), '.');
    if spans.len() != 4 {
        return false;
    }
    let mut i: usize = 0;
    while i < 4
        invariant
            spans.len() == 4,
            parts.len() == 4,
            parts == split_on(c@.subrange(lo as int, hi as int), '.'),
            lo <= hi <= c.len(),
            i <= 4,
            forall|k: int|
                #![trigger spans[k]]
                0 <= k < spans.len() ==> {
                    &&& lo <= spans[k].0 <= spans[k].1 <= hi
                    &&& c@.subrange(spans[k].0 as int, spans[k].1 as int) == parts[k]
                },
            forall|k: int| 0 <= k < i ==> is_ipv4_octet(#[trigger] parts[k]),
        decreases 4 - i,
    {
        let (a, b) = spans[i];
        if !octet_at(c, a, b) {
            assert(!is_ipv4_octet(parts[i as int]));
            return false;
        }
        i = i + 1;
    }
    true
}

/// Computes `group_list_size` on `c[lo..hi]`.
fn group_list_size_at(c: &Vec<char>, lo: usize, hi: usize, allow_ipv4: bool) -> (r: Option<usize>)
    requires
        lo <= hi <= c.len(),
    ensures
        match r {
            Some(n) => group_list_size(c@.subrange(lo as int, hi as int), allow_ipv4) == Some(n as nat),
            None => group_list_size(c@.subrange(lo as int, hi as int), allow_ipv4) is None,
        },
{
    let ghost s = c@.subrange(lo as int, hi as int);
    if lo == hi {
        return Some(0);
    }
    let spans = split_spans(c, lo, hi, ':');
    let ghost parts = split_on(s, ':');
    let n = spans.len();
    proof {
        lemma_split_on_nonempty(s, ':');
    }
    // all pieces but the last must be hex groups in either case
    let mut i: usize = 0;
    while i + 1 < n
        invariant
            n == spans.len() == parts.len(),
            n >= 1,
            lo <= hi <= c.len(),
            i + 1 <= n,
            s == c@.subrange(lo as int, hi as int),
            parts == split_on(s, ':'),
            forall|k: int|
                #![trigger spans[k]]
                0 <= k < spans.len() ==> {
                    &&& lo <= spans[k].0 <= spans[k].1 <= hi
                    &&& c@.subrange(spans[k].0 as int, spans[k].1 as int) == parts[k]
                },
            forall|k: int| 0 <= k < i ==> is_hex_group(#[trigger] parts[k]),
        decreases n - i,
    {
        let (a, b) = spans[i];
        if !hex_group_at(c, a, b) {
            assert(!is_hex_group(parts[i as int]));
            return None;
        }
        i = i + 1;
    }
    let (a, b) = spans[n - 1];
    if hex_group_at(c, a, b) {
        assert(forall|k: int| 0 <= k < parts.len() ==> is_hex_group(#[trigger] parts[k]));
        Some(n)
    } else if allow_ipv4 && ipv4_at(c, a, b) {
        proof {
            lemma_split_on_len(s, ':');
            lemma_split_on_len(parts.last(), '.');
        }
        Some(n + 1)
    } else {
        assert(!is_hex_group(parts[n - 1]));
        None
    }
}

/// The spec's `::` split, tested at the first `::` in `c`.
fn ipv6_chars(c: &Vec<char>) -> (r: bool)
    ensures
        r == is_ipv6_text(c@),
{
    let n = c.len();
    let mut i: usize = 0;
    while i < n
        invariant
            n == c.len(),
            i <= n,
            forall|k: int| 0 <= k < i ==> !#[trigger] double_colon_at(c@, k),
        decreases n - i,
    {
        if i + 1 < n && c[i] == ':' && c[i + 1] == ':' {
            let head = group_list_size_at(c, 0, i, false);
            let tail = group_list_size_at(c, i + 2, n, true);
            assert(c@.subrange(0, i as int) =~= c@.take(i as int));
            assert(c@.subrange(i + 2, n as int) =~= c@.skip(i + 2));
            proof {
                lemma_split_on_double_sep(c@, ':', i as int);
                let m = choose|m: int|
                    0 <= m < split_on(c@, ':').len() - 1 && (#[trigger] split_on(c@, ':')[m]).len() == 0;
                lemma_empty_piece_no_list(c@, true, m);
                assert forall|j: int| #[trigger] is_compressed_split(c@, j) implies j == i by {
                    if j > i + 1 {
                        lemma_split_on_double_sep(c@.take(j), ':', i as int);
                        let m2 = choose|m: int|
                            0 <= m < split_on(c@.take(j), ':').len() - 1
                                && (#[trigger] split_on(c@.take(j), ':')[m]).len() == 0;
                        lemma_empty_piece_no_list(c@.take(j), false, m2);
                    } else if j == i + 1 {
                        lemma_trailing_colon_no_list(c@.take(j), false);
                    }
                }
            }
            let r = match (head, tail) {
                (Some(h), Some(t)) => h <= 7 && t <= 7 - h,
                _ => false,
            };
            assert(r == is_compressed_split(c@, i as int));
            return r;
        }
        i = i + 1;
    }
    assert(forall|j: int| !is_compressed_split(c@, j));
    let full = group_list_size_at(c, 0, n, true);
    assert(c@.subrange(0, n as int) =~= c@);
    match full {
        Some(k) => k == 8,
        None => false,
    }
}

/// `s` is an IPv4 address in dotted-quad form.
pub fn is_ipv4(s: &str) -> (r: bool)
    ensures
        r == is_ipv4_text(s@),
{
    let c = chars_of(s);
    let r = ipv4_at(&c, 0, c.len());
    assert(c@.subrange(0, c.len() as int) =~= c@);
    r
}

/// `s` is an IPv6 address in text form.
pub fn is_ipv6(s: &str) -> (r: bool)
    ensures
        r == is_ipv6_text(s@),
{
    let c = chars_of(s);
    ipv6_chars(&c)
}

} // verus!
