//! The clock and the random sources the protocol draws on. Nothing is
//! promised of the clock; the random selections promise only the shape of
//! their result.

use rand::seq::SliceRandom;
use vstd::prelude::*;

verus! {

/// Seconds since the Unix epoch, from `SystemTime::now()` (0 if the clock
/// reads earlier than the epoch). Nothing is stated of the value.
#[verifier::external_body]
pub(crate) fn unix_time_secs() -> (t: u64) {
    std::time::SystemTime::now().duration_since(std::time::UNIX_EPOCH).unwrap_or_default().as_secs()
}

/// Nanoseconds since the Unix epoch, from `SystemTime::now()` (0 if the
/// clock reads earlier than the epoch). Nothing is stated of the value.
#[verifier::external_body]
pub(crate) fn unix_time_nanos() -> (t: u128) {
    std::time::SystemTime::now().duration_since(std::time::UNIX_EPOCH).unwrap_or_default().as_nanos()
}

/// Whether `value` carries the version-4 and RFC 4122 variant bits.
pub open spec fn is_uuid_v4(value: u128) -> bool {
    value & 0xF000_C000_0000_0000_0000u128 == 0x4000_8000_0000_0000_0000u128
}

/// A fresh random UUID from `uuid::Uuid::new_v4`, as its 128-bit value.
/// The crate sets the version and variant bits; the rest is random.
#[verifier::external_body]
pub(crate) fn random_uuid_v4() -> (value: u128)
    ensures
        is_uuid_v4(value),
{
    uuid::Uuid::new_v4().as_u128()
}

/// `picked` is drawn from `items` without repetition of positions: each of
/// its entries is the entry of `items` at a position of its own.
pub open spec fn is_selection(items: Seq<usize>, picked: Seq<usize>) -> bool {
    exists|pos: Seq<int>|
        #![trigger pos.len()]
        pos.len() == picked.len() && (forall|i: int|
            0 <= i < pos.len() ==> 0 <= #[trigger] pos[i] < items.len() && picked[i]
                == items[pos[i]]) && (forall|i: int, j: int|
            0 <= i < j < pos.len() ==> #[trigger] pos[i] != #[trigger] pos[j])
}

/// `rand`'s `SliceRandom::choose_multiple` with the thread-local generator:
/// `min(amount, items.len())` entries of `items`, without repetition, in
/// random order.
#[verifier::external_body]
pub(crate) fn choose_multiple(items: &Vec<usize>, amount: usize) -> (picked: Vec<usize>)
    ensures
        picked.len() == if amount < items.len() { amount } else { items.len() },
        is_selection(items@, picked@),
{
    items.choose_multiple(&mut rand::thread_rng(), amount).cloned().collect()
}

/// `rand`'s `SliceRandom::shuffle` with the thread-local generator: the same
/// entries in a random order.
#[verifier::external_body]
pub(crate) fn shuffle(items: &mut Vec<usize>)
    ensures
        final(items).len() == old(items).len(),
        is_selection(old(items)@, final(items)@),
{
    items.shuffle(&mut rand::thread_rng())
}

/// `rand`'s `SliceRandom::choose` with the thread-local generator: one entry
/// of `items`, or `None` exactly when `items` is empty.
#[verifier::external_body]
pub(crate) fn choose_one(items: &Vec<usize>) -> (picked: Option<usize>)
    ensures
        picked is None <==> items.len() == 0,
        picked matches Some(x) ==> items@.contains(x),
{
    items.choose(&mut rand::thread_rng()).cloned()
}

} // verus!
