//! Stable identifiers.

use vstd::prelude::*;
use vstd::string::*;
use vstd::utf8::encode_utf8;

use crate::evidence_freshness::push_bytes;
use crate::outside::{blake3_hex, blake3_hex_of};
use crate::text::{concat5, decimal, decimal_seq, str_views};

verus! {

/// The bytes of the parts, each followed by a zero byte.
pub open spec fn part_bytes(parts: Seq<Seq<char>>) -> Seq<u8>
    decreases parts.len(),
{
    if parts.len() == 0 {
        Seq::empty()
    } else {
        part_bytes(parts.drop_last()) + encode_utf8(parts.last()) + seq![0u8]
    }
}

/// The hash of a list of parts.
pub open spec fn parts_hash(parts: Seq<Seq<char>>) -> Seq<char> {
    blake3_hex_of(part_bytes(parts))
}

/// The identifier of a record of the domain: `<domain>:v<version>:<hash>`.
pub open spec fn stable_id_of(domain: Seq<char>, version: nat, parts: Seq<Seq<char>>) -> Seq<char> {
    domain + ":v"@ + decimal_seq(version) + ":"@ + parts_hash(parts)
}

/// The hash of a list of parts.
pub fn blake3_hash_parts(parts: &Vec<&str>) -> (r: String)
    ensures
        r@ == parts_hash(str_views(parts@)),
{
    let mut bytes: Vec<u8> = Vec::new();
    let ghost all = str_views(parts@);
    let mut i: usize = 0;
    assert(all.take(0) =~= Seq::<Seq<char>>::empty());
    assert(bytes@ =~= part_bytes(all.take(0)));
    while i < parts.len()
        invariant
            i <= parts@.len(),
            all == str_views(parts@),
            bytes@ == part_bytes(all.take(i as int)),
        decreases parts@.len() - i,
    {
        proof {
            let upto = all.take(i + 1);
            assert(upto.drop_last() =~= all.take(i as int));
            assert(upto.last() == parts@[i as int]@);
        }
        push_bytes(&mut bytes, parts[i]);
        let ghost mid = bytes@;
        bytes.push(0u8);
        assert(bytes@ =~= mid + seq![0u8]);
        i = i + 1;
    }
    assert(all.take(i as int) =~= all);
    blake3_hex(&bytes)
}

/// The identifier of a record of the domain.
pub fn stable_id(domain: &str, version: u32, parts: &Vec<&str>) -> (r: String)
    ensures
        r@ == stable_id_of(domain@, version as nat, str_views(parts@)),
{
    let hash = blake3_hash_parts(parts);
    concat5(domain, ":v", decimal(version as u64).as_str(), ":", hash.as_str())
}


} // verus!
