//! The per-opponent countdown table behind the collision debounce.
//!
//! The table is a hash map of the `bevy` utilities, keyed by the opponent's
//! entity bits. Verus cannot look inside it, so what it holds is given a
//! name, [`counter_entries`], and each operation the simulation needs is a
//! small trusted function that states its effect on that name.

use vstd::prelude::*;

verus! {

/// Countdowns by opponent, stored in a `bevy::utils::HashMap<u64, u8>`.
///
/// Trusted: the struct is opaque to the verifier.
#[verifier::external_body]
pub struct HitCounter {
    inner: bevy::utils::HashMap<u64, u8>,
}

/// The entries a [`HitCounter`] holds: opponent to remaining ticks.
pub uninterp spec fn counter_entries(c: HitCounter) -> Map<u64, u8>;

/// Trusted wrapper of `Default::default` for the hash map: the new table
/// holds no entry.
#[verifier::external_body]
pub(crate) fn counter_new() -> (counter: HitCounter)
    ensures
        counter_entries(counter) == (Map::<u64, u8>::empty()),
{
    HitCounter { inner: bevy::utils::HashMap::default() }
}

/// Trusted wrapper of `HashMap::insert`: afterwards `key` maps to `value`
/// and every other entry is as before.
#[verifier::external_body]
pub(crate) fn counter_insert(counter: &mut HitCounter, key: u64, value: u8)
    ensures
        counter_entries(*final(counter)) == counter_entries(*old(counter)).insert(key, value),
{
    counter.inner.insert(key, value);
}

/// Trusted wrapper of `HashMap::get`: the value stored under `key`, if any.
#[verifier::external_body]
pub(crate) fn counter_get(counter: &HitCounter, key: u64) -> (found: Option<u8>)
    ensures
        found == if counter_entries(*counter).contains_key(key) {
            Some(counter_entries(*counter)[key])
        } else {
            None
        },
{
    counter.inner.get(&key).copied()
}

/// Trusted wrapper of `HashMap::remove`: afterwards `key` has no entry and
/// every other entry is as before.
#[verifier::external_body]
pub(crate) fn counter_remove(counter: &mut HitCounter, key: u64)
    ensures
        counter_entries(*final(counter)) == counter_entries(*old(counter)).remove(key),
{
    counter.inner.remove(&key);
}

/// Trusted wrapper of `HashMap::clear`: afterwards the table holds no entry.
#[verifier::external_body]
pub(crate) fn counter_clear(counter: &mut HitCounter)
    ensures
        counter_entries(*final(counter)) == (Map::<u64, u8>::empty()),
{
    counter.inner.clear();
}

} // verus!
