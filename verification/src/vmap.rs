use vec_map::VecMap;
use vstd::prelude::*;

verus! {

/// `vec_map::VecMap`, a map from small integer keys to values that keeps one
/// slot per key up to the largest key it has seen.
#[verifier::external_type_specification]
#[verifier::external_body]
#[verifier::reject_recursive_types(V)]
pub struct ExVecMap<V>(VecMap<V>);

/// Keys at or above this bound are never handed to a `VecMap`. The map
/// allocates a slot for every key up to the largest one inserted, so an
/// unbounded key would ask for more memory than a vector can address.
pub const KEY_LIMIT: usize = 1_048_576;

/// The key-value pairs that a `VecMap<isize>` holds.
pub uninterp spec fn slots(m: VecMap<isize>) -> Map<usize, isize>;

/// What a lookup of `key` in the map `m` gives.
pub open spec fn lookup<V>(m: Map<usize, V>, key: usize) -> Option<V> {
    if m.contains_key(key) {
        Some(m[key])
    } else {
        None
    }
}

/// `VecMap::new`: the new map holds nothing.
#[verifier::external_body]
pub(crate) fn slots_new() -> (res: VecMap<isize>)
    ensures
        slots(res) =~= Map::empty(),
{
    VecMap::new()
}

/// `VecMap::get`: the value stored under `key`, if there is one. The map is
/// not changed.
#[verifier::external_body]
pub(crate) fn slots_get(m: &VecMap<isize>, key: usize) -> (res: Option<isize>)
    ensures
        res == lookup(slots(*m), key),
{
    m.get(key).copied()
}

/// `VecMap::insert`: stores `value` under `key`, replacing what was there, and
/// returns the value replaced. The other keys keep their values.
#[verifier::external_body]
pub(crate) fn slots_insert(m: &mut VecMap<isize>, key: usize, value: isize) -> (was: Option<isize>)
    requires
        key < KEY_LIMIT,
    ensures
        slots(*final(m)) == slots(*old(m)).insert(key, value),
        was == lookup(slots(*old(m)), key),
{
    m.insert(key, value)
}

/// `VecMap::remove`: takes `key` out of the map and returns the value it had,
/// if any. The other keys keep their values.
#[verifier::external_body]
pub(crate) fn slots_remove(m: &mut VecMap<isize>, key: usize) -> (was: Option<isize>)
    ensures
        slots(*final(m)) == slots(*old(m)).remove(key),
        was == lookup(slots(*old(m)), key),
{
    m.remove(key)
}

/// `VecMap::clear`: the map holds nothing afterwards.
#[verifier::external_body]
pub(crate) fn slots_clear(m: &mut VecMap<isize>)
    ensures
        slots(*final(m)) =~= Map::empty(),
{
    m.clear()
}

/// `VecMap::iter`, collected: every pair of the map exactly once, in
/// ascending order of the keys.
#[verifier::external_body]
pub(crate) fn slots_entries(m: &VecMap<isize>) -> (res: Vec<(usize, isize)>)
    ensures
        forall|i: int| 0 <= i < res@.len() ==> lookup(slots(*m), (#[trigger] res@[i]).0) == Some(res@[i].1),
        forall|i: int, j: int| 0 <= i < j < res@.len() ==> (#[trigger] res@[i]).0 < (#[trigger] res@[j]).0,
        forall|k: usize| slots(*m).contains_key(k) ==> exists|i: int| 0 <= i < res@.len() && (#[trigger] res@[i]).0 == k,
{
    m.iter().map(|(k, v)| (k, *v)).collect()
}

} // verus!
