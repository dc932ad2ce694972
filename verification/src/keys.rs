//! Keys, tokens and hashes.

use vstd::prelude::*;
use vstd::string::*;
use vstd::utf8::encode_utf8;

use crate::evidence_freshness::push_bytes;
use crate::outside::{blake3_hex, blake3_hex_of, fill_random};
use crate::text::{
    byte_len, concat2, concat3, concat5, concat6, decimal, decimal_seq, decimal_wide, digit_char,
};

verus! {

/// The length of a text in bytes, in decimal.
pub open spec fn size_text(s: Seq<char>) -> Seq<char> {
    decimal_seq(encode_utf8(s).len())
}

fn write_size(s: &str) -> (r: String)
    ensures
        r@ == size_text(s@),
{
    decimal(byte_len(s) as u64)
}

/// The key of two texts under a prefix. It says how long each text is, so that the
/// texts can be read off it again.
pub open spec fn pair_key(prefix: Seq<char>, left: Seq<char>, right: Seq<char>) -> Seq<char> {
    prefix + ":"@ + size_text(left) + ":"@ + size_text(right) + ":"@ + left + right
}

/// The key of three texts under a prefix.
pub open spec fn triple_key(
    prefix: Seq<char>,
    first: Seq<char>,
    second: Seq<char>,
    third: Seq<char>,
) -> Seq<char> {
    prefix + ":"@ + size_text(first) + ":"@ + size_text(second) + ":"@ + size_text(third) + ":"@
        + first + second + third
}

/// The key of two texts under a prefix.
pub fn stable_pair_key(prefix: &str, left: &str, right: &str) -> (r: String)
    ensures
        r@ == pair_key(prefix@, left@, right@),
{
    let mut key = concat6(
        prefix,
        ":",
        write_size(left).as_str(),
        ":",
        write_size(right).as_str(),
        ":",
    );
    key.append(left);
    key.append(right);
    key
}

/// The key of three texts under a prefix.
pub fn stable_triple_key(prefix: &str, first: &str, second: &str, third: &str) -> (r: String)
    ensures
        r@ == triple_key(prefix@, first@, second@, third@),
{
    let mut key = concat6(
        prefix,
        ":",
        write_size(first).as_str(),
        ":",
        write_size(second).as_str(),
        ":",
    );
    key.append(write_size(third).as_str());
    key.append(":");
    key.append(first);
    key.append(second);
    key.append(third);
    key
}

/// The key under which a write of an agent is remembered: one agent cannot meet the
/// key of another, nor one route that of another.
pub open spec fn scoped_key(agent_id: Seq<char>, route: Seq<char>, key: Seq<char>) -> Seq<char> {
    triple_key("idempotency"@, agent_id, route, key)
}

/// The key under which a write of an agent is remembered.
pub fn scoped_idempotency_key(agent_id: &str, route: &str, idempotency_key: &str) -> (r: String)
    ensures
        r@ == scoped_key(agent_id@, route@, idempotency_key@),
{
    stable_triple_key("idempotency", agent_id, route, idempotency_key)
}

/// The hash of a text.
pub open spec fn text_hash(s: Seq<char>) -> Seq<char> {
    blake3_hex_of(encode_utf8(s))
}

/// The hash of a text.
pub fn hash_text(s: &str) -> (r: String)
    ensures
        r@ == text_hash(s@),
{
    let mut bytes: Vec<u8> = Vec::new();
    push_bytes(&mut bytes, s);
    assert(bytes@ =~= encode_utf8(s@));
    blake3_hex(&bytes)
}

/// The identifier of the job of a write.
pub open spec fn job_id_of(scoped_key: Seq<char>) -> Seq<char> {
    "job-"@ + text_hash(scoped_key)
}

/// The identifier of the job of a write.
pub fn stable_job_id(scoped_idempotency_key: &str) -> (r: String)
    ensures
        r@ == job_id_of(scoped_idempotency_key@),
{
    concat2("job-", hash_text(scoped_idempotency_key).as_str())
}

/// The identifier of a request made at an instant.
pub open spec fn request_id_of(prefix: Seq<char>, value: Seq<char>, unix_ms: nat) -> Seq<char> {
    prefix + "-"@ + text_hash(prefix + ":"@ + value + ":"@ + decimal_seq(unix_ms))
}

/// The identifier of a request made at an instant.
pub fn request_id(prefix: &str, value: &str, unix_ms: u128) -> (r: String)
    ensures
        r@ == request_id_of(prefix@, value@, unix_ms as nat),
{
    let input = concat5(prefix, ":", value, ":", decimal_wide(unix_ms).as_str());
    concat3(prefix, "-", hash_text(input.as_str()).as_str())
}

/// The hash of a payload.
pub fn records_hash(payload: &Vec<u8>) -> (r: String)
    ensures
        r@ == blake3_hex_of(payload@),
{
    blake3_hex(payload)
}

// ---------------------------------------------------------------------------
// Tokens
// ---------------------------------------------------------------------------

/// A hexadecimal digit.
pub open spec fn hex_char(d: nat) -> char {
    if d < 10 {
        digit_char(d)
    } else if d == 10 {
        'a'
    } else if d == 11 {
        'b'
    } else if d == 12 {
        'c'
    } else if d == 13 {
        'd'
    } else if d == 14 {
        'e'
    } else {
        'f'
    }
}

/// Bytes in hexadecimal, two digits each.
pub open spec fn hex_seq(bytes: Seq<u8>) -> Seq<char>
    decreases bytes.len(),
{
    if bytes.len() == 0 {
        Seq::empty()
    } else {
        hex_seq(bytes.drop_last()).push(hex_char((bytes.last() / 16) as nat)).push(
            hex_char((bytes.last() % 16) as nat),
        )
    }
}

fn hex_digit(d: u8) -> (c: char)
    requires
        d < 16,
    ensures
        c == hex_char(d as nat),
{
    match d {
        0 => '0',
        1 => '1',
        2 => '2',
        3 => '3',
        4 => '4',
        5 => '5',
        6 => '6',
        7 => '7',
        8 => '8',
        9 => '9',
        10 => 'a',
        11 => 'b',
        12 => 'c',
        13 => 'd',
        14 => 'e',
        _ => 'f',
    }
}

/// The token that bytes make: the bytes in hexadecimal.
pub fn token_of(bytes: &Vec<u8>) -> (r: String)
    ensures
        r@ == hex_seq(bytes@),
{
    let ghost b = bytes@;
    let mut token = String::new();
    let mut i: usize = 0;
    assert(b.take(0) =~= Seq::<u8>::empty());
    while i < bytes.len()
        invariant
            i <= bytes@.len(),
            b == bytes@,
            token@ == hex_seq(b.take(i as int)),
        decreases bytes@.len() - i,
    {
        proof {
            assert(b.take(i + 1).drop_last() =~= b.take(i as int));
            assert(b.take(i + 1).last() == b[i as int]);
        }
        let x: u8 = bytes[i];
        token.push(hex_digit(x / 16));
        token.push(hex_digit(x % 16));
        i = i + 1;
    }
    assert(b.take(i as int) =~= b);
    token
}

/// A new token: thirty-two random bytes in hexadecimal.
pub fn random_token() -> (r: String)
    ensures
        exists|bytes: Seq<u8>| bytes.len() == 32 && r@ == #[trigger] hex_seq(bytes),
{
    let mut bytes: Vec<u8> = Vec::new();
    let mut i: usize = 0;
    while i < 32
        invariant
            i <= 32,
            bytes@.len() == i,
        decreases 32 - i,
    {
        bytes.push(0u8);
        i = i + 1;
    }
    fill_random(&mut bytes);
    token_of(&bytes)
}

/// Tokens of different bytes differ: every byte can be read off its token.
pub proof fn law_tokens_tell_bytes_apart(a: Seq<u8>, b: Seq<u8>)
    requires
        hex_seq(a) == hex_seq(b),
    ensures
        a == b,
    decreases a.len() + b.len(),
{
    lemma_hex_len(a);
    lemma_hex_len(b);
    if a.len() > 0 {
        let x = hex_seq(a);
        let n = x.len() as int;
        let y = a.last();
        let z = b.last();
        assert(x[n - 1] == hex_char((y % 16) as nat));
        assert(x[n - 2] == hex_char((y / 16) as nat));
        assert(x[n - 1] == hex_char((z % 16) as nat));
        assert(x[n - 2] == hex_char((z / 16) as nat));
        lemma_hex_char((y % 16) as nat, (z % 16) as nat);
        lemma_hex_char((y / 16) as nat, (z / 16) as nat);
        assert(hex_seq(a.drop_last()) =~= x.take(n - 2));
        assert(hex_seq(b.drop_last()) =~= x.take(n - 2));
        law_tokens_tell_bytes_apart(a.drop_last(), b.drop_last());
        assert(a =~= a.drop_last().push(y));
        assert(b =~= b.drop_last().push(z));
    } else {
        assert(a =~= b);
    }
}

proof fn lemma_hex_len(a: Seq<u8>)
    ensures
        hex_seq(a).len() == 2 * a.len(),
    decreases a.len(),
{
    if a.len() > 0 {
        lemma_hex_len(a.drop_last());
    }
}

proof fn lemma_hex_char(x: nat, y: nat)
    requires
        x < 16,
        y < 16,
        hex_char(x) == hex_char(y),
    ensures
        x == y,
{
}

// ---------------------------------------------------------------------------
// Keys tell their texts apart
// ---------------------------------------------------------------------------

proof fn lemma_decimal_digits(n: nat, i: int)
    requires
        0 <= i < decimal_seq(n).len(),
    ensures
        decimal_seq(n)[i] != ':',
{
    lemma_decimal_not_special(n, i);
}

/// A number in decimal holds nothing but digits.
pub proof fn lemma_decimal_not_special(n: nat, i: int)
    requires
        0 <= i < decimal_seq(n).len(),
    ensures
        48 <= decimal_seq(n)[i] as int <= 57,
    decreases n,
{
    if n >= 10 {
        if i < decimal_seq(n / 10).len() {
            lemma_decimal_not_special(n / 10, i);
        }
    }
}

proof fn lemma_decimal_len(n: nat)
    ensures
        decimal_seq(n).len() >= 1,
        n >= 10 ==> decimal_seq(n).len() >= 2,
    decreases n,
{
    if n >= 10 {
        lemma_decimal_len(n / 10);
    }
}

proof fn lemma_digit(x: nat, y: nat)
    requires
        x < 10,
        y < 10,
        digit_char(x) == digit_char(y),
    ensures
        x == y,
{
}

/// A number can be read off its decimal digits.
pub proof fn lemma_decimal_injective(m: nat, n: nat)
    requires
        decimal_seq(m) == decimal_seq(n),
    ensures
        m == n,
    decreases m + n,
{
    lemma_decimal_len(m);
    lemma_decimal_len(n);
    let s = decimal_seq(m);
    if m < 10 {
        assert(n < 10);
        assert(s[0] == digit_char(m));
        assert(s[0] == digit_char(n));
        lemma_digit(m, n);
    } else {
        assert(n >= 10);
        assert(s.last() == digit_char(m % 10));
        assert(s.last() == digit_char(n % 10));
        lemma_digit(m % 10, n % 10);
        assert(s.drop_last() =~= decimal_seq(m / 10));
        assert(s.drop_last() =~= decimal_seq(n / 10));
        lemma_decimal_injective(m / 10, n / 10);
    }
}

/// A colon ends a number: what stands before the first colon and what stands after it
/// are determined.
proof fn lemma_cut_number(m: nat, n: nat, x: Seq<char>, y: Seq<char>)
    requires
        decimal_seq(m) + ":"@ + x == decimal_seq(n) + ":"@ + y,
    ensures
        m == n,
        x == y,
{
    reveal_strlit(":");
    assert(":"@.len() == 1 && ":"@[0] == ':');
    let a = decimal_seq(m);
    let b = decimal_seq(n);
    let s = a + ":"@ + x;
    assert(s[a.len() as int] == ':');
    assert(s[b.len() as int] == ':') by {
        assert((b + ":"@ + y)[b.len() as int] == ':');
    }
    if a.len() < b.len() {
        assert((b + ":"@ + y)[a.len() as int] == b[a.len() as int]);
        lemma_decimal_digits(n, a.len() as int);
    } else if b.len() < a.len() {
        assert(s[b.len() as int] == a[b.len() as int]);
        lemma_decimal_digits(m, b.len() as int);
    }
    assert(a =~= s.take(a.len() as int));
    assert(b =~= (b + ":"@ + y).take(a.len() as int));
    lemma_decimal_injective(m, n);
    assert(x =~= s.skip((a.len() + 1) as int));
    assert(y =~= (b + ":"@ + y).skip((a.len() + 1) as int));
}

/// The bytes of two texts are those of the one behind those of the other.
pub proof fn lemma_utf8_concat(a: Seq<char>, b: Seq<char>)
    ensures
        encode_utf8(a + b) == encode_utf8(a) + encode_utf8(b),
    decreases a.len(),
{
    if a.len() == 0 {
        assert(a + b =~= b);
        assert(encode_utf8(a) + encode_utf8(b) =~= encode_utf8(b));
    } else {
        assert((a + b)[0] == a[0]);
        assert((a + b).drop_first() =~= a.drop_first() + b);
        lemma_utf8_concat(a.drop_first(), b);
        assert(encode_utf8(a + b) =~= encode_utf8(a) + encode_utf8(b));
    }
}

proof fn lemma_utf8_len(a: Seq<char>)
    ensures
        encode_utf8(a).len() >= a.len(),
    decreases a.len(),
{
    if a.len() > 0 {
        lemma_utf8_len(a.drop_first());
    }
}

/// Two texts of the same size in bytes that begin one text are the same.
proof fn lemma_same_size_prefix(a: Seq<char>, x: Seq<char>, b: Seq<char>, y: Seq<char>)
    requires
        a + x == b + y,
        encode_utf8(a).len() == encode_utf8(b).len(),
    ensures
        a == b,
        x == y,
{
    let s = a + x;
    let t = b + y;
    if a.len() <= b.len() {
        let rest = b.skip(a.len() as int);
        assert(b =~= a + rest) by {
            assert forall|i: int| 0 <= i < b.len() implies b[i] == (a + rest)[i] by {
                if i < a.len() {
                    assert(s[i] == a[i] && t[i] == b[i]);
                }
            }
        }
        lemma_utf8_concat(a, rest);
        lemma_utf8_len(rest);
        assert(rest.len() == 0);
        assert(a =~= b);
    } else {
        let rest = a.skip(b.len() as int);
        assert(a =~= b + rest) by {
            assert forall|i: int| 0 <= i < a.len() implies a[i] == (b + rest)[i] by {
                if i < b.len() {
                    assert(s[i] == a[i] && t[i] == b[i]);
                }
            }
        }
        lemma_utf8_concat(b, rest);
        lemma_utf8_len(rest);
        assert(rest.len() == 0);
        assert(a =~= b);
    }
    assert(x =~= s.skip(a.len() as int));
    assert(y =~= t.skip(a.len() as int));
}

proof fn lemma_assoc(a: Seq<char>, b: Seq<char>, c: Seq<char>)
    ensures
        (a + b) + c == a + (b + c),
{
    assert((a + b) + c =~= a + (b + c));
}

/// What follows a number and a colon, nested to the right.
spec fn after_number(n: Seq<char>, rest: Seq<char>) -> Seq<char> {
    n + ":"@ + rest
}

proof fn lemma_number_step(k: Seq<char>, n: Seq<char>, rest: Seq<char>)
    ensures
        k + n + ":"@ + rest == k + after_number(n, rest),
{
    assert(k + n + ":"@ + rest =~= k + after_number(n, rest));
}

proof fn lemma_triple_shape(prefix: Seq<char>, a: Seq<char>, b: Seq<char>, c: Seq<char>)
    ensures
        triple_key(prefix, a, b, c) == prefix + ":"@ + after_number(
            size_text(a),
            after_number(size_text(b), after_number(size_text(c), a + (b + c))),
        ),
{
    let k0 = prefix + ":"@;
    let k1 = k0 + size_text(a) + ":"@;
    let k2 = k1 + size_text(b) + ":"@;
    let k3 = k2 + size_text(c) + ":"@;
    let w = a + (b + c);
    lemma_assoc(k3 + a, b, c);
    lemma_assoc(k3, a, b + c);
    lemma_number_step(k2, size_text(c), w);
    let t = after_number(size_text(c), w);
    lemma_number_step(k1, size_text(b), t);
    let u = after_number(size_text(b), t);
    lemma_number_step(k0, size_text(a), u);
}

proof fn lemma_pair_shape(prefix: Seq<char>, a: Seq<char>, b: Seq<char>)
    ensures
        pair_key(prefix, a, b) == prefix + ":"@ + after_number(
            size_text(a),
            after_number(size_text(b), a + b),
        ),
{
    let k0 = prefix + ":"@;
    let k1 = k0 + size_text(a) + ":"@;
    let k2 = k1 + size_text(b) + ":"@;
    lemma_assoc(k2, a, b);
    lemma_number_step(k1, size_text(b), a + b);
    lemma_number_step(k0, size_text(a), after_number(size_text(b), a + b));
}

/// Under one prefix, different pairs of texts have different keys.
pub proof fn law_pair_keys_are_distinct(
    prefix: Seq<char>,
    a: Seq<char>,
    b: Seq<char>,
    x: Seq<char>,
    y: Seq<char>,
)
    requires
        pair_key(prefix, a, b) == pair_key(prefix, x, y),
    ensures
        a == x,
        b == y,
{
    lemma_pair_shape(prefix, a, b);
    lemma_pair_shape(prefix, x, y);
    let s1 = after_number(size_text(b), a + b);
    let s2 = after_number(size_text(y), x + y);
    let r1 = after_number(size_text(a), s1);
    let r2 = after_number(size_text(x), s2);
    lemma_strip(prefix + ":"@, r1, r2);
    lemma_cut_number(encode_utf8(a).len(), encode_utf8(x).len(), s1, s2);
    lemma_cut_number(encode_utf8(b).len(), encode_utf8(y).len(), a + b, x + y);
    lemma_same_size_prefix(a, b, x, y);
}

/// Under one prefix, different triples of texts have different keys.
pub proof fn law_triple_keys_are_distinct(
    prefix: Seq<char>,
    a: Seq<char>,
    b: Seq<char>,
    c: Seq<char>,
    x: Seq<char>,
    y: Seq<char>,
    z: Seq<char>,
)
    requires
        triple_key(prefix, a, b, c) == triple_key(prefix, x, y, z),
    ensures
        a == x,
        b == y,
        c == z,
{
    lemma_triple_shape(prefix, a, b, c);
    lemma_triple_shape(prefix, x, y, z);
    let t1 = after_number(size_text(c), a + (b + c));
    let t2 = after_number(size_text(z), x + (y + z));
    let s1 = after_number(size_text(b), t1);
    let s2 = after_number(size_text(y), t2);
    let r1 = after_number(size_text(a), s1);
    let r2 = after_number(size_text(x), s2);
    lemma_strip(prefix + ":"@, r1, r2);
    lemma_cut_number(encode_utf8(a).len(), encode_utf8(x).len(), s1, s2);
    lemma_cut_number(encode_utf8(b).len(), encode_utf8(y).len(), t1, t2);
    lemma_cut_number(encode_utf8(c).len(), encode_utf8(z).len(), a + (b + c), x + (y + z));
    lemma_same_size_prefix(a, b + c, x, y + z);
    lemma_same_size_prefix(b, c, y, z);
}

proof fn lemma_strip(k: Seq<char>, x: Seq<char>, y: Seq<char>)
    requires
        k + x == k + y,
    ensures
        x == y,
{
    assert(x =~= (k + x).skip(k.len() as int));
    assert(y =~= (k + y).skip(k.len() as int));
}

/// Two writes are remembered under one key only if agent, route and key are the same.
pub proof fn law_scoped_keys_are_distinct(
    agent: Seq<char>,
    route: Seq<char>,
    key: Seq<char>,
    agent2: Seq<char>,
    route2: Seq<char>,
    key2: Seq<char>,
)
    requires
        scoped_key(agent, route, key) == scoped_key(agent2, route2, key2),
    ensures
        agent == agent2,
        route == route2,
        key == key2,
{
    law_triple_keys_are_distinct("idempotency"@, agent, route, key, agent2, route2, key2);
}

} // verus!
