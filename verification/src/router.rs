//! The shard router: a deterministic, pure mapping from a request key to
//! the index of the backend instance that owns it.
//!
//! The index is the sum of the key's raw byte values modulo the routing
//! table size. The mapping is stable for a fixed table size and depends on
//! nothing but the key bytes and that size; an empty key routes like any
//! other (its byte sum is zero). A table size of zero is rejected by
//! precondition: routing into an empty table is a startup-time error, never
//! a silent division by zero.

use vstd::arithmetic::div_mod::{lemma_add_mod_noop_right, lemma_mod_division_less_than_divisor};
use vstd::prelude::*;
use vstd::string::StringSliceAdditionalSpecFns;

verus! {

/// The sum of a sequence of byte values, as an unbounded integer.
pub open spec fn key_byte_sum(bytes: Seq<u8>) -> int
    decreases bytes.len(),
{
    if bytes.len() == 0 {
        0
    } else {
        key_byte_sum(bytes.drop_last()) + bytes.last()
    }
}

/// The shard index owning a key: its byte sum modulo the table size.
pub open spec fn spec_route(bytes: Seq<u8>, table_size: int) -> int {
    key_byte_sum(bytes) % table_size
}

/// The index always lies in `[0, table_size)` when the table is non-empty.
pub proof fn lemma_route_in_range(bytes: Seq<u8>, table_size: int)
    requires
        table_size > 0,
    ensures
        0 <= spec_route(bytes, table_size) < table_size,
{
    lemma_mod_division_less_than_divisor(key_byte_sum(bytes), table_size);
}

/// Routing is a pure function of the key bytes and the table size: any two
/// results computed for the same inputs are one and the same index.
pub proof fn lemma_route_deterministic(bytes: Seq<u8>, table_size: int, i1: int, i2: int)
    requires
        i1 == spec_route(bytes, table_size),
        i2 == spec_route(bytes, table_size),
    ensures
        i1 == i2,
{
}

/// Adding one byte to a key extends its byte sum by that byte.
proof fn lemma_key_byte_sum_take_step(bytes: Seq<u8>, i: int)
    requires
        0 <= i < bytes.len(),
    ensures
        key_byte_sum(bytes.take(i + 1)) == key_byte_sum(bytes.take(i)) + bytes[i],
{
    assert(bytes.take(i + 1).drop_last() =~= bytes.take(i));
    assert(bytes.take(i + 1).last() == bytes[i]);
}

/// Maps a key to the backend instance index that serves it.
///
/// The sum is reduced modulo the table size at every step, so the result is
/// exact for keys of any length, with no wrap-around.
pub fn get_key_instance_index(key: &str, redis_instance_count: usize) -> (index: usize)
    requires
        redis_instance_count > 0,
    ensures
        index == spec_route(key.spec_bytes(), redis_instance_count as int),
        index < redis_instance_count,
{
    let bytes = key.as_bytes();
    let modulus: u128 = redis_instance_count as u128;
    let count = bytes.len();
    let mut acc: u128 = 0;
    let mut i: usize = 0;
    while i < count
        invariant
            bytes@ == key.spec_bytes(),
            count == bytes@.len(),
            modulus == redis_instance_count as u128,
            0 < modulus <= usize::MAX,
            i <= count,
            acc == key_byte_sum(bytes@.take(i as int)) % (modulus as int),
            acc < modulus,
        decreases count - i,
    {
        let b = bytes[i];
        proof {
            lemma_key_byte_sum_take_step(bytes@, i as int);
            lemma_add_mod_noop_right(
                b as int,
                key_byte_sum(bytes@.take(i as int)),
                modulus as int,
            );
            lemma_mod_division_less_than_divisor(
                acc as int + b as int,
                modulus as int,
            );
        }
        acc = (acc + b as u128) % modulus;
        i = i + 1;
    }
    proof {
        assert(bytes@.take(count as int) =~= bytes@);
    }
    acc as usize
}

} // verus!
