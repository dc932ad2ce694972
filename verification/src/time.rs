//! Timestamps in RFC 3339 form.

use vstd::prelude::*;

use crate::outside::{parse_rfc3339, rfc3339_instant_of};
use crate::text::{lex_order, str_order, Order};

verus! {

/// Whether one instant is before another.
pub open spec fn instant_before(a: (i64, u32), b: (i64, u32)) -> bool {
    a.0 < b.0 || (a.0 == b.0 && a.1 < b.1)
}

/// How two instants compare.
pub open spec fn instant_order(a: (i64, u32), b: (i64, u32)) -> Order {
    if a == b {
        Order::Equal
    } else if instant_before(a, b) {
        Order::Less
    } else {
        Order::Greater
    }
}

/// How two timestamps compare: by the instants that they name, whatever their
/// offsets; as texts where one of them names none.
pub open spec fn time_order(a: Seq<char>, b: Seq<char>) -> Order {
    match (rfc3339_instant_of(a), rfc3339_instant_of(b)) {
        (Some(x), Some(y)) => instant_order(x, y),
        _ => lex_order(a, b),
    }
}

/// How two instants compare.
pub fn compare_instants(a: (i64, u32), b: (i64, u32)) -> (r: Order)
    ensures
        r == instant_order(a, b),
{
    if a.0 < b.0 {
        Order::Less
    } else if a.0 > b.0 {
        Order::Greater
    } else if a.1 < b.1 {
        Order::Less
    } else if a.1 > b.1 {
        Order::Greater
    } else {
        Order::Equal
    }
}

/// How two timestamps compare.
pub fn compare_times(a: &str, b: &str) -> (r: Order)
    ensures
        r == time_order(a@, b@),
{
    match (parse_rfc3339(a), parse_rfc3339(b)) {
        (Some(x), Some(y)) => compare_instants(x, y),
        _ => str_order(a, b),
    }
}

/// Whether the text is a valid timestamp.
pub fn is_rfc3339(text: &str) -> (r: bool)
    ensures
        r == (rfc3339_instant_of(text@) is Some),
{
    parse_rfc3339(text).is_some()
}

/// The instant that the text names.
pub fn instant_of(text: &str) -> (r: Option<(i64, u32)>)
    ensures
        r == rfc3339_instant_of(text@),
{
    parse_rfc3339(text)
}

/// Among valid timestamps the order is the one of their instants: it is
/// asymmetric, transitive and total up to equal instants.
pub proof fn law_valid_times_are_ordered(a: Seq<char>, b: Seq<char>, c: Seq<char>)
    requires
        rfc3339_instant_of(a) is Some,
        rfc3339_instant_of(b) is Some,
        rfc3339_instant_of(c) is Some,
    ensures
        time_order(a, b) == Order::Less <==> time_order(b, a) == Order::Greater,
        time_order(a, b) == Order::Equal <==> rfc3339_instant_of(a) == rfc3339_instant_of(b),
        time_order(a, b) == Order::Less && time_order(b, c) == Order::Less ==> time_order(a, c)
            == Order::Less,
{
}

} // verus!
