//! What reading, splitting and comparing texts does, said of their characters.

use vstd::prelude::*;
use vstd::utf8::encode_utf8;

use crate::identity::{part_bytes, stable_id_of};
use crate::keys::{hex_seq, job_id_of, request_id_of};
use crate::outside::{blake3_hex_of, rfc3339_instant_of};
use crate::scan::{
    char_is_whitespace, digits_value, find_from, lower_seq, number_of, split_on, split_once_seq,
    strip_prefixes, words,
};
use crate::text::{
    concat_seq, decimal_seq, has_prefix, has_suffix, join_seq, lemma_lex_three, lex_lt, lex_order,
    opt_lex_order, split_seq, Order,
};
use crate::time::time_order;

verus! {

// ---------------------------------------------------------------------------
// Order
// ---------------------------------------------------------------------------

/// Whether two texts agree up to the position.
pub open spec fn agree(a: Seq<char>, b: Seq<char>, k: int) -> bool {
    0 <= k <= a.len() && k <= b.len() && a.take(k) == b.take(k)
}

/// Whether the one text comes before the other: they agree up to where it ends or has the smaller
/// character.
pub open spec fn sorts_before(a: Seq<char>, b: Seq<char>) -> bool {
    exists|k: int| #[trigger]
        agree(a, b, k) && k < b.len() && (k == a.len() || (a[k] as int) < (b[k] as int))
}

/// Texts are ordered by the first character in which they differ; what another text begins with
/// comes before it.
pub proof fn law_texts_are_ordered_by_characters(a: Seq<char>, b: Seq<char>)
    ensures
        lex_lt(a, b) <==> sorts_before(a, b),
    decreases a.len(),
{
    if b.len() == 0 {
    } else if a.len() == 0 {
        assert(a.take(0) =~= b.take(0));
        assert(agree(a, b, 0));
    } else if a[0] == b[0] {
        let x = a.drop_first();
        let y = b.drop_first();
        law_texts_are_ordered_by_characters(x, y);
        if sorts_before(x, y) {
            let k = choose|k: int| #[trigger]
                agree(x, y, k) && k < y.len() && (k == x.len() || (x[k] as int) < (y[k] as int));
            assert forall|i: int| 0 <= i < k + 1 implies a[i] == b[i] by {
                if i > 0 {
                    assert(x.take(k)[i - 1] == y.take(k)[i - 1]);
                }
            }
            assert(a.take(k + 1) =~= b.take(k + 1));
            assert(agree(a, b, k + 1));
        }
        if sorts_before(a, b) {
            let k = choose|k: int| #[trigger]
                agree(a, b, k) && k < b.len() && (k == a.len() || (a[k] as int) < (b[k] as int));
            assert(k > 0);
            assert forall|i: int| 0 <= i < k - 1 implies x[i] == y[i] by {
                assert(a.take(k)[i + 1] == b.take(k)[i + 1]);
            }
            assert(x.take(k - 1) =~= y.take(k - 1));
            assert(agree(x, y, k - 1));
        }
    } else {
        assert(a.take(0) =~= b.take(0));
        assert(agree(a, b, 0));
        if sorts_before(a, b) {
            let k = choose|k: int| #[trigger]
                agree(a, b, k) && k < b.len() && (k == a.len() || (a[k] as int) < (b[k] as int));
            if k > 0 {
                assert(a.take(k)[0] == b.take(k)[0]);
            }
        }
    }
}

/// A comparison tells the texts apart as their order does; what is absent comes before all that
/// is there.
pub proof fn law_comparisons_tell_the_order(a: Seq<char>, b: Seq<char>)
    ensures
        lex_order(a, b) == Order::Less <==> sorts_before(a, b),
        lex_order(a, b) == Order::Equal <==> a == b,
        lex_order(a, b) == Order::Greater <==> sorts_before(b, a),
        opt_lex_order(Some(a), Some(b)) == lex_order(a, b),
        opt_lex_order(None, Some(b)) == Order::Less,
        opt_lex_order(Some(a), None) == Order::Greater,
        opt_lex_order(None, None) == Order::Equal,
{
    law_texts_are_ordered_by_characters(a, b);
    law_texts_are_ordered_by_characters(b, a);
    lemma_lex_three(a, b, a);
}

/// Times that can be read are compared as instants, by the seconds and then within the second;
/// where one cannot be read, as texts.
pub proof fn law_times_are_compared_as_instants(a: Seq<char>, b: Seq<char>)
    ensures
        ({
            let x = rfc3339_instant_of(a);
            let y = rfc3339_instant_of(b);
            let p = x->0;
            let q = y->0;
            &&& x is Some && y is Some ==> {
                &&& time_order(a, b) == Order::Less <==> p.0 < q.0 || (p.0 == q.0 && p.1 < q.1)
                &&& time_order(a, b) == Order::Equal <==> p.0 == q.0 && p.1 == q.1
                &&& time_order(a, b) == Order::Greater <==> q.0 < p.0 || (p.0 == q.0 && q.1 < p.1)
            }
            &&& x is None || y is None ==> {
                &&& time_order(a, b) == Order::Less <==> sorts_before(a, b)
                &&& time_order(a, b) == Order::Equal <==> a == b
                &&& time_order(a, b) == Order::Greater <==> sorts_before(b, a)
            }
        }),
{
    law_comparisons_tell_the_order(a, b);
}

// ---------------------------------------------------------------------------
// Pieces
// ---------------------------------------------------------------------------

/// Whether the piece stands in the text at the position.
pub open spec fn piece_at(s: Seq<char>, p: Seq<char>, k: int) -> bool {
    0 <= k && k + p.len() <= s.len() && forall|i: int|
        0 <= i < p.len() ==> #[trigger] p[i] == s[k + i]
}

/// A text begins with what stands at its start and ends with what stands at its end.
pub proof fn law_beginnings_and_ends(s: Seq<char>, p: Seq<char>)
    ensures
        has_prefix(s, p) <==> piece_at(s, p, 0),
        has_suffix(s, p) <==> piece_at(s, p, s.len() - p.len()),
{
    if piece_at(s, p, 0) {
        assert(s.take(p.len() as int) =~= p);
    }
    if has_prefix(s, p) {
        assert forall|i: int| 0 <= i < p.len() implies #[trigger] p[i] == s[0 + i] by {
            assert(s.take(p.len() as int)[i] == s[i]);
        }
    }
    let k = s.len() - p.len();
    if piece_at(s, p, k) {
        assert(s.skip(k) =~= p);
    }
    if has_suffix(s, p) {
        assert forall|i: int| 0 <= i < p.len() implies #[trigger] p[i] == s[k + i] by {
            assert(s.skip(k)[i] == s[k + i]);
        }
    }
}

proof fn lemma_piece(s: Seq<char>, p: Seq<char>, k: int)
    ensures
        crate::scan::stands_at(s, p, k) <==> piece_at(s, p, k),
{
    if 0 <= k && k + p.len() <= s.len() {
        let t = s.subrange(k, k + p.len() as int);
        if piece_at(s, p, k) {
            assert(t =~= p);
        }
        if t == p {
            assert forall|i: int| 0 <= i < p.len() implies #[trigger] p[i] == s[k + i] by {
                assert(t[i] == s[k + i]);
            }
        }
    }
}

/// What is found is the first place from the given one on at which the piece stands.
pub proof fn law_the_first_place_is_found(s: Seq<char>, p: Seq<char>, k: int)
    requires
        0 <= k,
    ensures
        find_from(s, p, k) is Some ==> {
            let i = find_from(s, p, k)->0;
            &&& k <= i && piece_at(s, p, i)
            &&& forall|j: int| k <= j < i ==> !#[trigger] piece_at(s, p, j)
        },
        find_from(s, p, k) is None ==> forall|j: int| k <= j ==> !#[trigger] piece_at(s, p, j),
    decreases s.len() - k + 1,
{
    if k + p.len() <= s.len() {
        lemma_piece(s, p, k);
        if !piece_at(s, p, k) {
            law_the_first_place_is_found(s, p, k + 1);
            assert forall|j: int| k <= j && (j == k || j > k) && #[trigger] piece_at(
                s,
                p,
                j,
            ) implies j > k by {}
        }
    }
}

/// Splitting a text once parts it round the first place at which the piece stands.
pub proof fn law_splitting_once(s: Seq<char>, p: Seq<char>)
    ensures
        split_once_seq(s, p) is None <==> forall|j: int| !#[trigger] piece_at(s, p, j),
        split_once_seq(s, p) is Some ==> {
            let r = split_once_seq(s, p)->0;
            &&& s == r.0 + p + r.1
            &&& forall|j: int| 0 <= j < r.0.len() ==> !#[trigger] piece_at(s, p, j)
        },
{
    law_the_first_place_is_found(s, p, 0);
    match find_from(s, p, 0) {
        Some(i) => {
            assert(piece_at(s, p, i));
            let r = split_once_seq(s, p)->0;
            assert(s =~= r.0 + p + r.1);
        },
        None => {
            assert forall|j: int| !#[trigger] piece_at(s, p, j) by {
                if piece_at(s, p, j) {
                    assert(j >= 0);
                }
            }
        },
    }
}

proof fn lemma_join_front(x: Seq<char>, rest: Seq<Seq<char>>, sep: Seq<char>)
    requires
        rest.len() > 0,
    ensures
        join_seq(seq![x] + rest, sep) == x + sep + join_seq(rest, sep),
    decreases rest.len(),
{
    let all = seq![x] + rest;
    if rest.len() == 1 {
        assert(all.drop_last() =~= seq![x]);
        assert(join_seq(seq![x], sep) == x);
        assert(join_seq(rest, sep) == rest[0]);
        assert(all.last() == rest[0]);
    } else {
        assert(all.drop_last() =~= seq![x] + rest.drop_last());
        lemma_join_front(x, rest.drop_last(), sep);
        assert(all.last() == rest.last());
        assert(join_seq(all, sep) =~= x + sep + join_seq(rest, sep));
    }
}

proof fn lemma_split_on(s: Seq<char>, p: Seq<char>, from: int)
    requires
        p.len() > 0,
        0 <= from <= s.len(),
    ensures
        split_on(s, p, from).len() > 0,
        join_seq(split_on(s, p, from), p) == s.skip(from),
        forall|k: int, j: int|
            0 <= k < split_on(s, p, from).len() ==> !#[trigger] piece_at(
                split_on(s, p, from)[k],
                p,
                j,
            ),
    decreases s.len() - from,
{
    law_the_first_place_is_found(s, p, from);
    let all = split_on(s, p, from);
    match find_from(s, p, from) {
        Some(i) => {
            assert(piece_at(s, p, i));
            lemma_split_on(s, p, i + p.len());
            let x = s.subrange(from, i);
            let rest = split_on(s, p, i + p.len());
            lemma_join_front(x, rest, p);
            assert(s.skip(from) =~= x + p + s.skip(i + p.len()));
            assert forall|k: int, j: int| 0 <= k < all.len() implies !#[trigger] piece_at(
                all[k],
                p,
                j,
            ) by {
                if k == 0 {
                    assert(all[0] == x);
                    if piece_at(x, p, j) {
                        assert forall|m: int| 0 <= m < p.len() implies #[trigger] p[m] == s[from + j
                            + m] by {
                            assert(x[j + m] == s[from + j + m]);
                        }
                        assert(piece_at(s, p, from + j));
                    }
                } else {
                    assert(all[k] == rest[k - 1]);
                }
            }
        },
        None => {
            let x = s.skip(from);
            assert(join_seq(seq![x], p) == x);
            assert forall|k: int, j: int| 0 <= k < all.len() implies !#[trigger] piece_at(
                all[k],
                p,
                j,
            ) by {
                assert(all[k] == x);
                if piece_at(x, p, j) {
                    assert forall|m: int| 0 <= m < p.len() implies #[trigger] p[m] == s[from + j + m] by {
                        assert(x[j + m] == s[from + j + m]);
                    }
                    assert(piece_at(s, p, from + j));
                }
            }
        },
    }
}

/// Splitting a text at a piece and joining what is left with it gives the text back, and no part
/// holds the piece.
pub proof fn law_splitting_and_joining(s: Seq<char>, p: Seq<char>)
    requires
        p.len() > 0,
    ensures
        join_seq(split_on(s, p, 0), p) == s,
        forall|k: int, j: int|
            0 <= k < split_on(s, p, 0).len() ==> !#[trigger] piece_at(split_on(s, p, 0)[k], p, j),
{
    lemma_split_on(s, p, 0);
    assert(s.skip(0) =~= s);
}

/// Splitting a text at a character and joining the parts with it gives the text back, and no part
/// holds the character.
pub proof fn law_splitting_at_a_character(s: Seq<char>, c: char)
    ensures
        split_seq(s, c).len() > 0,
        join_seq(split_seq(s, c), seq![c]) == s,
        forall|k: int| 0 <= k < split_seq(s, c).len() ==> !(#[trigger] split_seq(s, c)[k]).contains(c),
    decreases s.len(),
{
    let all = split_seq(s, c);
    if s.len() > 0 {
        let t = s.drop_last();
        law_splitting_at_a_character(t, c);
        let before = split_seq(t, c);
        if s.last() == c {
            assert(all.drop_last() =~= before);
            assert(join_seq(all, seq![c]) =~= s);
        } else {
            let grown = before.last().push(s.last());
            assert(all.drop_last() =~= before.drop_last());
            assert(all.last() == grown);
            assert(s =~= t.push(s.last()));
            if before.len() == 1 {
                assert(all[0] == grown);
                assert(before[0] == before.last());
                assert(join_seq(all, seq![c]) == grown);
                assert(join_seq(before, seq![c]) == before[0]);
            } else {
                let front = join_seq(before.drop_last(), seq![c]) + seq![c];
                assert(join_seq(before, seq![c]) == front + before.last());
                assert(join_seq(all, seq![c]) == front + grown);
                assert(front + grown =~= (front + before.last()).push(s.last()));
            }
            assert forall|k: int| 0 <= k < all.len() implies !(#[trigger] all[k]).contains(c) by {
                if k < before.len() - 1 {
                    assert(all[k] == before[k]);
                } else {
                    assert(!before[before.len() - 1].contains(c));
                    if grown.contains(c) {
                        let i = choose|i: int| 0 <= i < grown.len() && grown[i] == c;
                        if i < before.last().len() {
                            assert(before.last()[i] == c);
                        }
                    }
                }
            }
        }
    } else {
        assert(join_seq(all, seq![c]) =~= s);
    }
}

/// Joining puts the piece between the parts, and nothing at the ends.
pub proof fn law_joining(parts: Seq<Seq<char>>, x: Seq<char>, sep: Seq<char>)
    ensures
        join_seq(Seq::empty(), sep) == Seq::<char>::empty(),
        join_seq(seq![x], sep) == x,
        parts.len() > 0 ==> join_seq(parts.push(x), sep) == join_seq(parts, sep) + sep + x,
        concat_seq(Seq::empty()) == Seq::<char>::empty(),
        concat_seq(parts.push(x)) == concat_seq(parts) + x,
{
    assert(parts.push(x).drop_last() =~= parts);
}

/// Whether the text holds no white space.
pub open spec fn one_word(w: Seq<char>) -> bool {
    w.len() > 0 && forall|i: int| 0 <= i < w.len() ==> !char_is_whitespace(#[trigger] w[i])
}

proof fn lemma_word_behind(s: Seq<char>, w: Seq<char>)
    requires
        one_word(w),
        s.len() == 0 || char_is_whitespace(s.last()),
    ensures
        words(s + w) == words(s).push(w),
    decreases w.len(),
{
    let t = s + w;
    assert(t.last() == w.last());
    assert(w[w.len() - 1] == w.last());
    if w.len() == 1 {
        assert(t.drop_last() =~= s);
        assert(seq![w.last()] =~= w);
        if t.len() > 1 {
            assert(t[t.len() - 2] == s.last());
        }
    } else {
        let v = w.drop_last();
        assert forall|i: int| 0 <= i < v.len() implies !char_is_whitespace(#[trigger] v[i]) by {
            assert(v[i] == w[i]);
        }
        lemma_word_behind(s, v);
        assert(t.drop_last() =~= s + v);
        assert(t[t.len() - 2] == w[w.len() - 2]);
        let before = words(s + v);
        assert(before.drop_last() =~= words(s));
        assert(v.push(w.last()) =~= w);
    }
}

/// The words of a text are what white space parts: white space adds no word, a word behind white
/// space is one word more, and a text without white space is a word.
pub proof fn law_words_are_parted_by_white_space(s: Seq<char>, c: char, w: Seq<char>)
    requires
        char_is_whitespace(c),
        one_word(w),
    ensures
        words(Seq::empty()) == Seq::<Seq<char>>::empty(),
        words(w) == seq![w],
        words(s.push(c)) == words(s),
        words(s.push(c) + w) == words(s).push(w),
{
    lemma_word_behind(Seq::empty(), w);
    assert(Seq::<char>::empty() + w =~= w);
    assert(words(Seq::empty()).push(w) =~= seq![w]);
    assert(s.push(c).drop_last() =~= s);
    lemma_word_behind(s.push(c), w);
}

/// White space are the blank and the characters that move on, the line ends, and the wider and
/// narrower blanks of other scripts; no letter, digit or mark is.
pub proof fn law_white_space(c: char)
    ensures
        c == ' ' || c == '\t' || c == '\n' || c == '\r' ==> char_is_whitespace(c),
        0x21 <= (c as int) <= 0x7e ==> !char_is_whitespace(c),
        (c as int) == 0 ==> !char_is_whitespace(c),
        (c as int) == 0xa0 || (c as int) == 0x2028 || (c as int) == 0x3000 ==> char_is_whitespace(c),
        (c as int) > 0x3000 ==> !char_is_whitespace(c),
{
}

/// Prefixes are stripped as often as they stand at the start: what is left does not begin with
/// one, and stands at the end of the text.
pub proof fn law_prefixes_are_stripped(s: Seq<char>, p: Seq<char>)
    requires
        p.len() > 0,
    ensures
        !piece_at(strip_prefixes(s, p), p, 0),
        strip_prefixes(p + s, p) == strip_prefixes(s, p),
        !piece_at(s, p, 0) ==> strip_prefixes(s, p) == s,
    decreases s.len(),
{
    lemma_piece(s, p, 0);
    lemma_piece(p + s, p, 0);
    assert((p + s).skip(p.len() as int) =~= s);
    if piece_at(s, p, 0) {
        law_prefixes_are_stripped(s.skip(p.len() as int), p);
    }
}

/// Lower case changes the capital letters from `A` to `Z` and nothing else.
pub proof fn law_lower_case(s: Seq<char>, i: int)
    requires
        0 <= i < s.len(),
    ensures
        lower_seq(s).len() == s.len(),
        65 <= (s[i] as int) <= 90 ==> (lower_seq(s)[i] as int) == (s[i] as int) + 32,
        !(65 <= (s[i] as int) <= 90) ==> lower_seq(s)[i] == s[i],
{
}

// ---------------------------------------------------------------------------
// Numbers
// ---------------------------------------------------------------------------

proof fn lemma_digits(n: nat)
    ensures
        decimal_seq(n).len() > 0,
        digits_value(decimal_seq(n)) == Some(n),
        forall|i: int|
            0 <= i < decimal_seq(n).len() ==> 48 <= (#[trigger] decimal_seq(n)[i] as int) <= 57,
        n > 0 ==> decimal_seq(n)[0] != '0',
    decreases n,
{
    let t = decimal_seq(n);
    if n < 10 {
        assert(t.drop_last() =~= Seq::<char>::empty());
        assert(digits_value(Seq::empty()) == Some(0nat));
    } else {
        lemma_digits(n / 10);
        assert(t.drop_last() =~= decimal_seq(n / 10));
        assert((n / 10) * 10 + n % 10 == n);
        assert(t[0] == decimal_seq(n / 10)[0]);
        assert forall|i: int| 0 <= i < t.len() implies 48 <= (#[trigger] t[i] as int) <= 57 by {
            if i < t.len() - 1 {
                assert(t[i] == decimal_seq(n / 10)[i]);
            }
        }
    }
}

/// A number is written with decimal digits, the last one for what is left over ten, and without a
/// leading zero.
pub proof fn law_numbers_are_written_in_digits(n: nat)
    ensures
        decimal_seq(n).len() > 0,
        (decimal_seq(n).last() as int) == 48 + n % 10,
        n < 10 ==> decimal_seq(n).len() == 1,
        n >= 10 ==> decimal_seq(n).drop_last() == decimal_seq(n / 10),
        n > 0 ==> decimal_seq(n)[0] != '0',
{
    lemma_digits(n);
    if n >= 10 {
        assert(decimal_seq(n).drop_last() =~= decimal_seq(n / 10));
    }
}

/// A number that was written is read back, with or without a plus sign, where it is within the
/// bound; a text that holds anything but digits is no number, nor is one without any.
pub proof fn law_written_numbers_are_read(n: nat, bound: nat, s: Seq<char>, i: int)
    ensures
        n <= bound ==> number_of(decimal_seq(n), bound) == Some(n) && number_of(
            seq!['+'] + decimal_seq(n),
            bound,
        ) == Some(n),
        n > bound ==> number_of(decimal_seq(n), bound) is None,
        number_of(Seq::empty(), bound) is None,
        number_of(seq!['+'], bound) is None,
        0 <= i < s.len() && !(48 <= (s[i] as int) <= 57) && !(i == 0 && s[i] == '+') ==> number_of(
            s,
            bound,
        ) is None,
{
    lemma_digits(n);
    let t = decimal_seq(n);
    assert(t[0] != '+');
    let u = seq!['+'] + t;
    assert(u.drop_first() =~= t);
    assert(seq!['+'].drop_first() =~= Seq::<char>::empty());
    if 0 <= i < s.len() && !(48 <= (s[i] as int) <= 57) && !(i == 0 && s[i] == '+') {
        if s[0] == '+' {
            assert(s.drop_first()[i - 1] == s[i]);
            lemma_not_digits(s.drop_first(), i - 1);
        } else {
            lemma_not_digits(s, i);
        }
    }
}

proof fn lemma_not_digits(s: Seq<char>, i: int)
    requires
        0 <= i < s.len(),
        !(48 <= (s[i] as int) <= 57),
    ensures
        digits_value(s) is None,
    decreases s.len(),
{
    if i < s.len() - 1 {
        assert(s.drop_last()[i] == s[i]);
        lemma_not_digits(s.drop_last(), i);
    }
}

/// The value of a digit in hexadecimal notation with small letters.
pub open spec fn hex_value(c: char) -> int {
    if (c as int) < 58 {
        (c as int) - 48
    } else {
        (c as int) - 87
    }
}

/// Bytes are written in hexadecimal notation with two small digits each, the higher one first.
pub proof fn law_bytes_are_written_in_hexadecimal(b: Seq<u8>, i: int)
    requires
        0 <= i < b.len(),
    ensures
        hex_seq(b).len() == 2 * b.len(),
        hex_value(hex_seq(b)[2 * i]) * 16 + hex_value(hex_seq(b)[2 * i + 1]) == b[i],
        48 <= (hex_seq(b)[2 * i] as int) <= 57 || 97 <= (hex_seq(b)[2 * i] as int) <= 102,
        48 <= (hex_seq(b)[2 * i + 1] as int) <= 57 || 97 <= (hex_seq(b)[2 * i + 1] as int) <= 102,
    decreases b.len(),
{
    let rest = b.drop_last();
    lemma_hex_len(rest);
    lemma_hex_len(b);
    if i < b.len() - 1 {
        law_bytes_are_written_in_hexadecimal(rest, i);
        assert(rest[i] == b[i]);
        assert(hex_seq(b)[2 * i] == hex_seq(rest)[2 * i]);
        assert(hex_seq(b)[2 * i + 1] == hex_seq(rest)[2 * i + 1]);
    } else {
        assert(b.last() == b[i]);
    }
}

proof fn lemma_hex_len(b: Seq<u8>)
    ensures
        hex_seq(b).len() == 2 * b.len(),
    decreases b.len(),
{
    if b.len() > 0 {
        lemma_hex_len(b.drop_last());
    }
}

// ---------------------------------------------------------------------------
// Identifiers
// ---------------------------------------------------------------------------

/// An identifier names its domain and version and then the hash of its parts, each ended by a
/// zero byte; that of a job names the hash of its key, and that of a request that of what was
/// asked and when.
pub proof fn law_identifiers_name_what_they_hash(
    domain: Seq<char>,
    version: nat,
    parts: Seq<Seq<char>>,
    x: Seq<char>,
    unix_ms: nat,
)
    ensures
        stable_id_of(domain, version, parts) == domain + ":v"@ + decimal_seq(version) + ":"@
            + blake3_hex_of(part_bytes(parts)),
        part_bytes(Seq::empty()) == Seq::<u8>::empty(),
        part_bytes(parts.push(x)) == part_bytes(parts) + encode_utf8(x) + seq![0u8],
        job_id_of(x) == "job-"@ + blake3_hex_of(encode_utf8(x)),
        request_id_of(domain, x, unix_ms) == domain + "-"@ + blake3_hex_of(
            encode_utf8(domain + ":"@ + x + ":"@ + decimal_seq(unix_ms)),
        ),
{
    assert(parts.push(x).drop_last() =~= parts);
}

} // verus!
