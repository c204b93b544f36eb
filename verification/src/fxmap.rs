//! Maps from task IDs, with the hasher of `rustc_hash`.

use rustc_hash::FxHashMap;
use vstd::prelude::*;

verus! {

/// `rustc_hash::FxBuildHasher`, which makes the hasher of an `FxHashMap`.
#[verifier::external_type_specification]
#[verifier::external_body]
pub struct ExFxBuildHasher(rustc_hash::FxBuildHasher);

/// `FxHashMap::insert`: the value stands for the key from now on; the value that stood for
/// it before, if any, is handed back.
#[verifier::external_body]
pub(crate) fn fx_insert<V>(m: &mut FxHashMap<u64, V>, k: u64, v: V) -> (r: Option<V>)
    ensures
        final(m)@ == old(m)@.insert(k, v),
        r == if old(m)@.contains_key(k) {
            Some(old(m)@[k])
        } else {
            None
        },
{
    m.insert(k, v)
}

/// `FxHashMap::remove`: the key and its value leave the map, and the value is handed back;
/// nothing happens where the key is not there.
#[verifier::external_body]
pub(crate) fn fx_remove<V>(m: &mut FxHashMap<u64, V>, k: u64) -> (r: Option<V>)
    ensures
        final(m)@ == old(m)@.remove(k),
        r == if old(m)@.contains_key(k) {
            Some(old(m)@[k])
        } else {
            None
        },
{
    m.remove(&k)
}

/// `FxHashMap::keys`: every key of the map, once each. The order is left open.
#[verifier::external_body]
pub(crate) fn fx_keys<V>(m: &FxHashMap<u64, V>) -> (r: Vec<u64>)
    ensures
        r@.no_duplicates(),
        r@.to_set() == m@.dom(),
{
    m.keys().copied().collect()
}

} // verus!
