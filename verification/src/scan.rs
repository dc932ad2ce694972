//! Reading text: words, trimming, searching, numbers.

use vstd::prelude::*;
use vstd::string::*;

use crate::text::{chars_of, string_of, views};

verus! {

// ---------------------------------------------------------------------------
// White space
// ---------------------------------------------------------------------------

/// Whether a character is white space: whether it has the Unicode property
/// `White_Space`.
pub open spec fn char_is_whitespace(c: char) -> bool {
    let n = c as int;
    9 <= n <= 13 || n == 32 || n == 0x85 || n == 0xa0 || n == 0x1680 || 0x2000 <= n <= 0x200a || n
        == 0x2028 || n == 0x2029 || n == 0x202f || n == 0x205f || n == 0x3000
}

/// Whether a character is white space.
pub fn is_whitespace(c: char) -> (r: bool)
    ensures
        r == char_is_whitespace(c),
{
    let n: u32 = c as u32;
    (9 <= n && n <= 13) || n == 32 || n == 0x85 || n == 0xa0 || n == 0x1680 || (0x2000 <= n && n
        <= 0x200a) || n == 0x2028 || n == 0x2029 || n == 0x202f || n == 0x205f || n == 0x3000
}

/// Whether a text holds nothing but white space.
pub open spec fn blank(s: Seq<char>) -> bool {
    forall|i: int| 0 <= i < s.len() ==> char_is_whitespace(#[trigger] s[i])
}

/// Whether a text holds nothing but white space.
pub fn is_blank(s: &str) -> (r: bool)
    ensures
        r == blank(s@),
{
    let v = chars_of(s);
    let mut i: usize = 0;
    while i < v.len()
        invariant
            i <= v@.len(),
            v@ == s@,
            forall|k: int| 0 <= k < i ==> char_is_whitespace(#[trigger] v@[k]),
        decreases v@.len() - i,
    {
        if !is_whitespace(v[i]) {
            assert(!char_is_whitespace(s@[i as int]));
            return false;
        }
        i = i + 1;
    }
    true
}

/// The text, where there is one that is not blank.
pub open spec fn non_blank(s: Option<Seq<char>>) -> Option<Seq<char>> {
    match s {
        Some(x) => if blank(x) {
            None
        } else {
            Some(x)
        },
        None => None,
    }
}

/// The text, where there is one that is not blank.
pub fn non_empty<'a>(s: &'a Option<String>) -> (r: Option<&'a str>)
    ensures
        crate::text::opt_str_view(r) == non_blank(crate::text::opt_view(*s)),
{
    match s {
        Some(x) => if is_blank(x.as_str()) {
            None
        } else {
            Some(x.as_str())
        },
        None => None,
    }
}

/// The text without white space at its start.
pub open spec fn trim_start_seq(s: Seq<char>) -> Seq<char>
    decreases s.len(),
{
    if s.len() > 0 && char_is_whitespace(s[0]) {
        trim_start_seq(s.drop_first())
    } else {
        s
    }
}

/// The text without white space at its end.
pub open spec fn trim_end_seq(s: Seq<char>) -> Seq<char>
    decreases s.len(),
{
    if s.len() > 0 && char_is_whitespace(s.last()) {
        trim_end_seq(s.drop_last())
    } else {
        s
    }
}

/// The text without white space at its ends.
pub open spec fn trim_seq(s: Seq<char>) -> Seq<char> {
    trim_end_seq(trim_start_seq(s))
}

fn trim_bounds(v: &Vec<char>) -> (r: (usize, usize))
    ensures
        r.0 <= r.1 <= v@.len(),
        v@.subrange(r.0 as int, r.1 as int) == trim_seq(v@),
{
    let mut a: usize = 0;
    assert(v@.skip(0) =~= v@);
    while a < v.len() && is_whitespace(v[a])
        invariant
            a <= v@.len(),
            trim_start_seq(v@) == trim_start_seq(v@.skip(a as int)),
        decreases v@.len() - a,
    {
        assert(v@.skip(a as int).drop_first() =~= v@.skip(a + 1));
        a = a + 1;
    }
    let ghost t = v@.skip(a as int);
    assert(trim_start_seq(v@) == t);
    let mut b: usize = v.len();
    assert(t.take(b - a) =~= t);
    while b > a && is_whitespace(v[b - 1])
        invariant
            a <= b <= v@.len(),
            t == v@.skip(a as int),
            trim_end_seq(t) == trim_end_seq(t.take(b - a)),
        decreases b - a,
    {
        assert(t.take(b - a).last() == v@[b - 1]);
        assert(t.take(b - a).drop_last() =~= t.take(b - 1 - a));
        b = b - 1;
    }
    proof {
        if b > a {
            assert(t.take(b - a).last() == v@[b - 1]);
        }
        assert(t.take(b - a) =~= v@.subrange(a as int, b as int));
    }
    (a, b)
}

/// The text without white space at its ends.
pub fn trim(s: &str) -> (r: String)
    ensures
        r@ == trim_seq(s@),
{
    let v = chars_of(s);
    let (a, b) = trim_bounds(&v);
    string_of(&v, a, b)
}

/// The words of a text: its longest pieces without white space.
pub open spec fn words(s: Seq<char>) -> Seq<Seq<char>>
    decreases s.len(),
{
    if s.len() == 0 {
        Seq::empty()
    } else {
        let before = words(s.drop_last());
        if char_is_whitespace(s.last()) {
            before
        } else if s.len() > 1 && !char_is_whitespace(s[s.len() - 2]) {
            before.drop_last().push(before.last().push(s.last()))
        } else {
            before.push(seq![s.last()])
        }
    }
}

/// The words of a text.
pub fn split_whitespace(s: &str) -> (r: Vec<String>)
    ensures
        views(r@) == words(s@),
{
    let v = chars_of(s);
    let mut out: Vec<String> = Vec::new();
    let mut cur = String::new();
    let mut open = false;
    let mut i: usize = 0;
    assert(v@.take(0) =~= Seq::<char>::empty());
    assert(views(out@) =~= Seq::<Seq<char>>::empty());
    while i < v.len()
        invariant
            i <= v@.len(),
            v@ == s@,
            open == (i > 0 && !char_is_whitespace(v@[i - 1])),
            open ==> words(v@.take(i as int)) == views(out@).push(cur@),
            !open ==> words(v@.take(i as int)) == views(out@) && cur@.len() == 0,
        decreases v@.len() - i,
    {
        let c: char = v[i];
        let ghost p = v@.take(i + 1);
        let ghost before = views(out@);
        let ghost cur0 = cur@;
        proof {
            assert(p.drop_last() =~= v@.take(i as int));
            assert(p.last() == c);
            if i > 0 {
                assert(p[p.len() - 2] == v@[i - 1]);
            }
        }
        if is_whitespace(c) {
            if open {
                out.push(cur);
                cur = String::new();
                assert(views(out@) =~= before.push(cur0));
            }
            open = false;
        } else {
            cur.push(c);
            proof {
                if open {
                    let w = before.push(cur0);
                    assert(w.drop_last() =~= before);
                    assert(w.last() == cur0);
                } else {
                    assert(cur0.push(c) =~= seq![c]);
                }
            }
            open = true;
        }
        i = i + 1;
    }
    assert(v@.take(i as int) =~= s@);
    if open {
        let ghost before = views(out@);
        let ghost cur0 = cur@;
        out.push(cur);
        assert(views(out@) =~= before.push(cur0));
    }
    out
}

// ---------------------------------------------------------------------------
// Letters
// ---------------------------------------------------------------------------

/// The lowercase form of an ASCII letter; any other character stays.
pub open spec fn lower_char(c: char) -> char {
    match c {
        'A' => 'a',
        'B' => 'b',
        'C' => 'c',
        'D' => 'd',
        'E' => 'e',
        'F' => 'f',
        'G' => 'g',
        'H' => 'h',
        'I' => 'i',
        'J' => 'j',
        'K' => 'k',
        'L' => 'l',
        'M' => 'm',
        'N' => 'n',
        'O' => 'o',
        'P' => 'p',
        'Q' => 'q',
        'R' => 'r',
        'S' => 's',
        'T' => 't',
        'U' => 'u',
        'V' => 'v',
        'W' => 'w',
        'X' => 'x',
        'Y' => 'y',
        'Z' => 'z',
        _ => c,
    }
}

/// The text with its ASCII letters in lowercase.
pub open spec fn lower_seq(s: Seq<char>) -> Seq<char> {
    s.map_values(|c: char| lower_char(c))
}

fn to_lower(c: char) -> (r: char)
    ensures
        r == lower_char(c),
{
    match c {
        'A' => 'a',
        'B' => 'b',
        'C' => 'c',
        'D' => 'd',
        'E' => 'e',
        'F' => 'f',
        'G' => 'g',
        'H' => 'h',
        'I' => 'i',
        'J' => 'j',
        'K' => 'k',
        'L' => 'l',
        'M' => 'm',
        'N' => 'n',
        'O' => 'o',
        'P' => 'p',
        'Q' => 'q',
        'R' => 'r',
        'S' => 's',
        'T' => 't',
        'U' => 'u',
        'V' => 'v',
        'W' => 'w',
        'X' => 'x',
        'Y' => 'y',
        'Z' => 'z',
        _ => c,
    }
}

/// The text with its ASCII letters in lowercase.
pub fn to_ascii_lowercase(s: &str) -> (r: String)
    ensures
        r@ == lower_seq(s@),
{
    let v = chars_of(s);
    let mut r = String::new();
    let mut i: usize = 0;
    assert(r@ =~= lower_seq(v@.take(0)));
    while i < v.len()
        invariant
            i <= v@.len(),
            v@ == s@,
            r@ == lower_seq(v@.take(i as int)),
        decreases v@.len() - i,
    {
        r.push(to_lower(v[i]));
        i = i + 1;
        assert(r@ =~= lower_seq(v@.take(i as int)));
    }
    assert(v@.take(i as int) =~= s@);
    r
}

// ---------------------------------------------------------------------------
// Searching
// ---------------------------------------------------------------------------

/// Whether `p` stands in `s` at `k`.
pub open spec fn stands_at(s: Seq<char>, p: Seq<char>, k: int) -> bool {
    0 <= k && k + p.len() <= s.len() && s.subrange(k, k + p.len() as int) == p
}

/// The first place at or after `k` where `p` stands in `s`.
pub open spec fn find_from(s: Seq<char>, p: Seq<char>, k: int) -> Option<int>
    decreases s.len() - k + 1,
{
    if k < 0 || k + p.len() > s.len() {
        None
    } else if stands_at(s, p, k) {
        Some(k)
    } else {
        find_from(s, p, k + 1)
    }
}

fn is_at(v: &Vec<char>, w: &Vec<char>, k: usize) -> (r: bool)
    requires
        k + w@.len() <= v@.len(),
    ensures
        r == stands_at(v@, w@, k as int),
{
    let n: usize = v.len();
    let mut j: usize = 0;
    while j < w.len()
        invariant
            j <= w@.len(),
            n == v@.len(),
            k + w@.len() <= n,
            forall|i: int| 0 <= i < j ==> v@[k + i] == w@[i],
        decreases w@.len() - j,
    {
        if v[k + j] != w[j] {
            assert(v@.subrange(k as int, k + w@.len() as int)[j as int] != w@[j as int]);
            return false;
        }
        j = j + 1;
    }
    assert(v@.subrange(k as int, k + w@.len() as int) =~= w@);
    true
}

/// Finds the first place at or after `k` where `w` stands in `v`.
pub fn find_chars(v: &Vec<char>, w: &Vec<char>, k: usize) -> (r: Option<usize>)
    requires
        k <= v@.len(),
    ensures
        match r {
            Some(i) => find_from(v@, w@, k as int) == Some(i as int) && k <= i && i + w@.len()
                <= v@.len(),
            None => find_from(v@, w@, k as int) is None,
        },
{
    if w.len() > v.len() {
        return None;
    }
    let last: usize = v.len() - w.len();
    let mut i: usize = k;
    while i <= last
        invariant
            k <= i,
            last == v@.len() - w@.len(),
            w@.len() <= v@.len(),
            find_from(v@, w@, k as int) == find_from(v@, w@, i as int),
        decreases last + 1 - i,
    {
        if is_at(v, w, i) {
            return Some(i);
        }
        if i == last {
            return None;
        }
        i = i + 1;
    }
    None
}

/// The text before and after the first `p`.
pub open spec fn split_once_seq(s: Seq<char>, p: Seq<char>) -> Option<(Seq<char>, Seq<char>)> {
    match find_from(s, p, 0) {
        Some(i) => Some((s.take(i), s.skip(i + p.len()))),
        None => None,
    }
}

/// The text before and after the first `p`.
pub fn split_once(s: &str, p: &str) -> (r: Option<(String, String)>)
    ensures
        match r {
            Some(x) => split_once_seq(s@, p@) == Some((x.0@, x.1@)),
            None => split_once_seq(s@, p@) is None,
        },
{
    let v = chars_of(s);
    let w = chars_of(p);
    let n: usize = v.len();
    match find_chars(&v, &w, 0) {
        Some(i) => {
            let a = string_of(&v, 0, i);
            let b = string_of(&v, i + w.len(), n);
            assert(a@ =~= s@.take(i as int));
            assert(b@ =~= s@.skip(i + p@.len()));
            Some((a, b))
        },
        None => None,
    }
}

/// The pieces of a text between the occurrences of `p`, from the left.
pub open spec fn split_on(s: Seq<char>, p: Seq<char>, from: int) -> Seq<Seq<char>>
    decreases s.len() - from,
{
    match find_from(s, p, from) {
        Some(i) => if p.len() > 0 && from <= i && i + p.len() <= s.len() {
            seq![s.subrange(from, i)] + split_on(s, p, i + p.len())
        } else {
            seq![s.skip(from)]
        },
        None => seq![s.skip(from)],
    }
}

/// The pieces of a text between the occurrences of `p`, from the left.
pub fn split_str(s: &str, p: &str) -> (r: Vec<String>)
    requires
        p@.len() > 0,
    ensures
        views(r@) == split_on(s@, p@, 0),
{
    let v = chars_of(s);
    let w = chars_of(p);
    let n: usize = v.len();
    let mut out: Vec<String> = Vec::new();
    let mut from: usize = 0;
    assert(views(out@) =~= Seq::<Seq<char>>::empty());
    assert(views(out@) + split_on(s@, p@, 0) =~= split_on(s@, p@, 0));
    loop
        invariant
            from <= n,
            n == v@.len(),
            v@ == s@,
            w@ == p@,
            p@.len() > 0,
            views(out@) + split_on(s@, p@, from as int) == split_on(s@, p@, 0),
        decreases v@.len() - from,
    {
        let ghost before = views(out@);
        match find_chars(&v, &w, from) {
            Some(i) => {
                let piece = string_of(&v, from, i);
                let ghost pv = piece@;
                out.push(piece);
                proof {
                    assert(views(out@) =~= before.push(pv));
                    assert(views(out@) + split_on(s@, p@, i + p@.len()) =~= before + (seq![pv]
                        + split_on(s@, p@, i + p@.len())));
                }
                from = i + w.len();
            },
            None => {
                let piece = string_of(&v, from, v.len());
                let ghost pv = piece@;
                assert(pv =~= s@.skip(from as int));
                out.push(piece);
                assert(views(out@) =~= before.push(pv));
                assert(views(out@) =~= before + seq![pv]);
                return out;
            },
        }
    }
}

/// The text without the prefix, taken off as often as it stands there.
pub open spec fn strip_prefixes(s: Seq<char>, p: Seq<char>) -> Seq<char>
    decreases s.len(),
{
    if p.len() > 0 && stands_at(s, p, 0) {
        strip_prefixes(s.skip(p.len() as int), p)
    } else {
        s
    }
}

/// The text without the prefix, taken off as often as it stands there.
pub fn trim_start_matches(s: &str, p: &str) -> (r: String)
    requires
        p@.len() > 0,
    ensures
        r@ == strip_prefixes(s@, p@),
{
    let v = chars_of(s);
    let w = chars_of(p);
    let mut k: usize = 0;
    assert(v@.skip(0) =~= s@);
    while w.len() <= v.len() - k && is_at(&v, &w, k)
        invariant
            k <= v@.len(),
            v@ == s@,
            w@ == p@,
            p@.len() > 0,
            strip_prefixes(s@, p@) == strip_prefixes(v@.skip(k as int), p@),
        decreases v@.len() - k,
    {
        proof {
            let t = v@.skip(k as int);
            assert(t.subrange(0, p@.len() as int) =~= v@.subrange(k as int, k + p@.len() as int));
            assert(t.skip(p@.len() as int) =~= v@.skip(k + p@.len()));
        }
        k = k + w.len();
    }
    proof {
        let t = v@.skip(k as int);
        if p@.len() <= t.len() {
            assert(t.subrange(0, p@.len() as int) =~= v@.subrange(k as int, k + p@.len() as int));
        }
        assert(t =~= v@.subrange(k as int, v@.len() as int));
    }
    string_of(&v, k, v.len())
}

// ---------------------------------------------------------------------------
// Numbers
// ---------------------------------------------------------------------------

/// The value of a decimal digit.
pub open spec fn digit_of(c: char) -> Option<nat> {
    match c {
        '0' => Some(0),
        '1' => Some(1),
        '2' => Some(2),
        '3' => Some(3),
        '4' => Some(4),
        '5' => Some(5),
        '6' => Some(6),
        '7' => Some(7),
        '8' => Some(8),
        '9' => Some(9),
        _ => None,
    }
}

/// The number that digits write; nothing where there is another character.
pub open spec fn digits_value(s: Seq<char>) -> Option<nat>
    decreases s.len(),
{
    if s.len() == 0 {
        Some(0)
    } else {
        match (digits_value(s.drop_last()), digit_of(s.last())) {
            (Some(n), Some(d)) => Some(n * 10 + d),
            _ => None,
        }
    }
}

/// The unsigned number that a text writes, if it is not above the bound: digits, with
/// a plus sign before them or none.
pub open spec fn number_of(s: Seq<char>, bound: nat) -> Option<nat> {
    let digits = if s.len() > 0 && s[0] == '+' {
        s.drop_first()
    } else {
        s
    };
    if digits.len() == 0 {
        None
    } else {
        match digits_value(digits) {
            Some(n) => if n <= bound {
                Some(n)
            } else {
                None
            },
            None => None,
        }
    }
}

fn read_digit(c: char) -> (r: Option<u64>)
    ensures
        match r {
            Some(d) => digit_of(c) == Some(d as nat) && d < 10,
            None => digit_of(c) is None,
        },
{
    match c {
        '0' => Some(0),
        '1' => Some(1),
        '2' => Some(2),
        '3' => Some(3),
        '4' => Some(4),
        '5' => Some(5),
        '6' => Some(6),
        '7' => Some(7),
        '8' => Some(8),
        '9' => Some(9),
        _ => None,
    }
}

proof fn lemma_digits_none(s: Seq<char>, k: int)
    requires
        0 <= k <= s.len(),
        digits_value(s.take(k)) is None,
    ensures
        digits_value(s) is None,
    decreases s.len() - k,
{
    if k < s.len() {
        assert(s.take(k + 1).drop_last() =~= s.take(k));
        lemma_digits_none(s, k + 1);
    } else {
        assert(s.take(k) =~= s);
    }
}

proof fn lemma_digits_grow(s: Seq<char>, k: int)
    requires
        0 <= k <= s.len(),
        digits_value(s) is Some,
    ensures
        digits_value(s.take(k)) is Some,
        digits_value(s.take(k))->0 <= digits_value(s)->0,
    decreases s.len() - k,
{
    if k < s.len() {
        lemma_digits_grow(s, k + 1);
        assert(s.take(k + 1).drop_last() =~= s.take(k));
    } else {
        assert(s.take(k) =~= s);
    }
}

/// Reads an unsigned number that is not above the bound.
pub fn parse_number(s: &str, bound: u64) -> (r: Option<u64>)
    ensures
        match r {
            Some(n) => number_of(s@, bound as nat) == Some(n as nat),
            None => number_of(s@, bound as nat) is None,
        },
{
    let v = chars_of(s);
    let start: usize = if v.len() > 0 && v[0] == '+' {
        1
    } else {
        0
    };
    let ghost d = if s@.len() > 0 && s@[0] == '+' {
        s@.drop_first()
    } else {
        s@
    };
    assert(d =~= v@.skip(start as int));
    if start == v.len() {
        return None;
    }
    let mut n: u64 = 0;
    let mut i: usize = start;
    assert(d.take(0) =~= Seq::<char>::empty());
    while i < v.len()
        invariant
            start <= i <= v@.len(),
            start <= 1,
            start < v@.len(),
            d == v@.skip(start as int),
            n <= bound,
            digits_value(d.take(i - start)) == Some(n as nat),
            number_of(s@, bound as nat) == (match digits_value(d) {
                Some(n) => if n <= bound as nat {
                    Some(n)
                } else {
                    None
                },
                None => None,
            }),
        decreases v@.len() - i,
    {
        proof {
            let t = d.take(i + 1 - start);
            assert(t.drop_last() =~= d.take(i - start));
            assert(t.last() == v@[i as int]);
        }
        match read_digit(v[i]) {
            None => {
                proof {
                    lemma_digits_none(d, i + 1 - start);
                }
                return None;
            },
            Some(x) => {
                let wide: u128 = (n as u128) * 10 + (x as u128);
                if wide > bound as u128 {
                    proof {
                        if digits_value(d) is Some {
                            lemma_digits_grow(d, i + 1 - start);
                        }
                    }
                    return None;
                }
                n = wide as u64;
            },
        }
        i = i + 1;
    }
    assert(d.take(i - start) =~= d);
    Some(n)
}

} // verus!
