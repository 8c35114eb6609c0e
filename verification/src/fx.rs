//! Hash maps and sets keyed with the Fx hash, as the model stores them.
//!
//! A map from identifiers is spoken of through its view, a `Map<u32, V>`.
//! A map from texts is spoken of through `by_text`, which reads its keys as
//! sequences of characters.

use rustc_hash::{FxHashMap, FxHashSet, FxHasher};
use vstd::prelude::*;

verus! {

#[verifier::external_type_specification]
#[verifier::external_body]
pub struct ExFxHasher(FxHasher);

#[verifier::external_type_specification]
#[verifier::external_body]
#[verifier::reject_recursive_types(H)]
pub struct ExBuildHasherDefault<H>(std::hash::BuildHasherDefault<H>);

/// What a map from texts holds, with each key read as its characters.
pub open spec fn by_text<V>(entries: Map<String, V>) -> Map<Seq<char>, V> {
    Map::new(
        |text: Seq<char>| exists|key: String| key@ == text && entries.contains_key(key),
        |text: Seq<char>| entries[choose|key: String| key@ == text && entries.contains_key(key)],
    )
}

/// `FxHashSet::default`: a new set holds nothing.
#[verifier::external_body]
pub(crate) fn id_set_new() -> (set: FxHashSet<u32>)
    ensures
        set@ == Set::<u32>::empty(),
{
    FxHashSet::default()
}

/// `HashSet::insert`: the value is in the set afterwards, and the result
/// says whether it was new.
#[verifier::external_body]
pub(crate) fn id_set_insert(set: &mut FxHashSet<u32>, value: u32) -> (fresh: bool)
    ensures
        final(set)@ == old(set)@.insert(value),
        fresh == !old(set)@.contains(value),
{
    set.insert(value)
}

/// `FxHashMap::default`: a new map holds nothing.
#[verifier::external_body]
pub(crate) fn id_map_new<V>() -> (empty: FxHashMap<u32, V>)
    ensures
        empty@.dom() == Set::<u32>::empty(),
{
    FxHashMap::default()
}

/// `HashMap::len`: the number of keys.
#[verifier::external_body]
pub(crate) fn id_map_len<V>(map: &FxHashMap<u32, V>) -> (len: usize)
    ensures
        len == map@.dom().len(),
{
    map.len()
}

/// `HashMap::insert`: the key maps to the value afterwards, the other keys
/// are untouched, and the result is what the key mapped to before.
#[verifier::external_body]
pub(crate) fn id_map_insert<V>(map: &mut FxHashMap<u32, V>, key: u32, value: V) -> (before: Option<V>)
    ensures
        final(map)@ == old(map)@.insert(key, value),
        before == (if old(map)@.contains_key(key) {
            Some(old(map)@[key])
        } else {
            None
        }),
{
    map.insert(key, value)
}

/// `HashMap::get`: what the key maps to, if the map holds it.
#[verifier::external_body]
pub(crate) fn id_map_get<V>(map: &FxHashMap<u32, V>, key: u32) -> (found: Option<&V>)
    ensures
        found == (if map@.contains_key(key) {
            Some(&map@[key])
        } else {
            None
        }),
{
    map.get(&key)
}

/// `HashMap::get_mut`: a borrow of what the key maps to, if the map holds
/// it. What the borrow is left with is what the key maps to afterwards; no
/// other key changes.
#[verifier::external_body]
pub(crate) fn id_map_get_mut<V>(map: &mut FxHashMap<u32, V>, key: u32) -> (found: Option<&mut V>)
    ensures
        match found {
            Some(slot) => old(map)@.contains_key(key) && *slot == old(map)@[key] && final(map)@
                == old(map)@.insert(key, *final(slot)),
            None => !old(map)@.contains_key(key) && final(map)@ == old(map)@,
        },
{
    map.get_mut(&key)
}

/// `HashMap::remove`: the key is gone afterwards, the other keys are
/// untouched, and the result is what the key mapped to before.
#[verifier::external_body]
pub(crate) fn id_map_remove<V>(map: &mut FxHashMap<u32, V>, key: u32) -> (before: Option<V>)
    ensures
        final(map)@ == old(map)@.remove(key),
        before == (if old(map)@.contains_key(key) {
            Some(old(map)@[key])
        } else {
            None
        }),
{
    map.remove(&key)
}

/// `FxHashMap::default`: a new map holds nothing.
#[verifier::external_body]
pub(crate) fn text_map_new<V>() -> (empty: FxHashMap<String, V>)
    ensures
        by_text(empty@).dom() == Set::<Seq<char>>::empty(),
{
    FxHashMap::default()
}

/// `HashMap::insert`: the key maps to the value afterwards, the other keys
/// are untouched, and the result is what the key mapped to before.
#[verifier::external_body]
pub(crate) fn text_map_insert<V>(map: &mut FxHashMap<String, V>, key: String, value: V) -> (before:
    Option<V>)
    ensures
        by_text(final(map)@) == by_text(old(map)@).insert(key@, value),
        before == (if by_text(old(map)@).contains_key(key@) {
            Some(by_text(old(map)@)[key@])
        } else {
            None
        }),
{
    map.insert(key, value)
}

/// `HashMap::get`: what the key maps to, if the map holds it.
#[verifier::external_body]
pub(crate) fn text_map_get<'a, V>(map: &'a FxHashMap<String, V>, key: &str) -> (found: Option<&'a V>)
    ensures
        found == (if by_text(map@).contains_key(key@) {
            Some(&by_text(map@)[key@])
        } else {
            None
        }),
{
    map.get(key)
}

/// `HashMap::remove`: the key is gone afterwards, the other keys are
/// untouched, and the result is what the key mapped to before.
#[verifier::external_body]
pub(crate) fn text_map_remove<V>(map: &mut FxHashMap<String, V>, key: &str) -> (before: Option<V>)
    ensures
        by_text(final(map)@) == by_text(old(map)@).remove(key@),
        before == (if by_text(old(map)@).contains_key(key@) {
            Some(by_text(old(map)@)[key@])
        } else {
            None
        }),
{
    map.remove(key)
}

/// `HashMap::iter`, collected: every entry of the map once, in an order
/// that is not specified. Each pair is a key with its value, no key comes
/// twice, and no key of the map is missing.
#[verifier::external_body]
pub(crate) fn text_map_entries<V: Copy>(map: &FxHashMap<String, V>) -> (entries: Vec<(String, V)>)
    ensures
        forall|i: int|
            0 <= i < entries@.len() ==> by_text(map@).contains_key((#[trigger] entries@[i]).0@)
                && by_text(map@)[entries@[i].0@] == entries@[i].1,
        forall|i: int, j: int|
            0 <= i < j < entries@.len() ==> (#[trigger] entries@[i]).0@ != (#[trigger] entries@[j]).0@,
        forall|key: Seq<char>| #[trigger]
            by_text(map@).contains_key(key) ==> exists|i: int|
                0 <= i < entries@.len() && (#[trigger] entries@[i]).0@ == key,
{
    map.iter().map(|(key, value)| (key.clone(), *value)).collect()
}

} // verus!
