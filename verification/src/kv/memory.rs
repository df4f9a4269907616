//! The in-memory store, over a concurrent hash map.

use vstd::prelude::*;
use std::collections::hash_map::RandomState;
use dashmap::DashMap;
use crate::error::Error;
use crate::kv::KvStore;

verus! {

#[verifier::external_type_specification]
#[verifier::external_body]
#[verifier::reject_recursive_types(K)]
#[verifier::reject_recursive_types(V)]
#[verifier::reject_recursive_types(S)]
pub struct ExDashMap<K, V, S>(dashmap::DashMap<K, V, S>);

/// A concurrent map from keys to bytes.
pub type BytesMap = dashmap::DashMap<String, Vec<u8>, RandomState>;

/// What a map holds: the bytes under each key.
pub uninterp spec fn spec_held(m: BytesMap) -> Map<Seq<char>, Seq<u8>>;

/// The map that holds nothing.
pub open spec fn spec_nothing() -> Map<Seq<char>, Seq<u8>> {
    Map::empty()
}

/// The map holds `n` entries.
pub open spec fn spec_holds_count(held: Map<Seq<char>, Seq<u8>>, n: usize) -> bool {
    held.dom().finite() && held.dom().len() == n
}

/// `DashMap::new`: a map that holds nothing.
#[verifier::external_body]
fn map_new() -> (r: BytesMap)
    ensures
        spec_held(r) == spec_nothing(),
{
    DashMap::new()
}

/// `DashMap::with_capacity`: a map that holds nothing, with room for
/// `capacity` entries.
#[verifier::external_body]
fn map_with_capacity(capacity: usize) -> (r: BytesMap)
    ensures
        spec_held(r) == spec_nothing(),
{
    DashMap::with_capacity(capacity)
}

/// `DashMap::len`: the number of keys under which the map holds something.
#[verifier::external_body]
fn map_len(m: &BytesMap) -> (r: usize)
    ensures
        spec_holds_count(spec_held(*m), r),
{
    m.len()
}

/// `DashMap::clear`: afterwards the map holds nothing.
#[verifier::external_body]
fn map_clear(m: &mut BytesMap)
    ensures
        spec_held(*final(m)) == spec_nothing(),
{
    m.clear();
}

/// `DashMap::get`, with the value copied out: what the map holds under the
/// key, if anything.
#[verifier::external_body]
fn map_get(m: &BytesMap, key: &str) -> (r: Option<Vec<u8>>)
    ensures
        match r {
            Some(v) => spec_held(*m).contains_key(key@) && spec_held(*m)[key@] == v@,
            None => !spec_held(*m).contains_key(key@),
        },
{
    m.get(key).map(|v| v.value().clone())
}

/// `DashMap::insert`: afterwards the map holds the value under the key, and
/// under every other key what it held before.
#[verifier::external_body]
fn map_insert(m: &mut BytesMap, key: &str, value: Vec<u8>)
    ensures
        spec_held(*final(m)) == spec_held(*old(m)).insert(key@, value@),
{
    m.insert(key.to_string(), value);
}

/// `DashMap::remove`: afterwards the map holds nothing under the key, and
/// under every other key what it held before.
#[verifier::external_body]
fn map_remove(m: &mut BytesMap, key: &str)
    ensures
        spec_held(*final(m)) == spec_held(*old(m)).remove(key@),
{
    m.remove(key);
}

/// `DashMap::contains_key`: whether the map holds something under the key.
#[verifier::external_body]
fn map_contains_key(m: &BytesMap, key: &str) -> (r: bool)
    ensures
        r == spec_held(*m).contains_key(key@),
{
    m.contains_key(key)
}

/// A key-value store in memory. It holds the values as they are put.
pub struct MemoryKvStore {
    store: BytesMap,
}

impl MemoryKvStore {
    /// An empty store.
    pub fn new() -> (s: MemoryKvStore)
        ensures
            s.spec_entries() == Map::<Seq<char>, Seq<u8>>::empty(),
    {
        MemoryKvStore { store: map_new() }
    }

    /// An empty store with room for `capacity` entries.
    pub fn with_capacity(capacity: usize) -> (s: MemoryKvStore)
        ensures
            s.spec_entries() == Map::<Seq<char>, Seq<u8>>::empty(),
    {
        MemoryKvStore { store: map_with_capacity(capacity) }
    }

    /// The number of entries.
    pub fn len(&self) -> (n: usize)
        ensures
            self.spec_entries().dom().finite(),
            n == self.spec_entries().dom().len(),
    {
        map_len(&self.store)
    }

    /// Whether the store has no entry.
    pub fn is_empty(&self) -> (r: bool)
        ensures
            r == (self.spec_entries() == Map::<Seq<char>, Seq<u8>>::empty()),
    {
        let n = map_len(&self.store);
        proof {
            let held = spec_held(self.store);
            if n == 0 {
                assert(held.dom() =~= Set::<Seq<char>>::empty()) by {
                    if held.dom().len() == 0 {
                        held.dom().lemma_len0_is_empty();
                    }
                }
                assert(held =~= Map::<Seq<char>, Seq<u8>>::empty());
            } else {
                assert(held.dom() != Set::<Seq<char>>::empty());
            }
        }
        n == 0
    }

    /// Removes every entry.
    pub fn clear(&mut self)
        ensures
            final(self).spec_entries() == Map::<Seq<char>, Seq<u8>>::empty(),
    {
        map_clear(&mut self.store);
    }
}

impl KvStore for MemoryKvStore {
    closed spec fn spec_entries(&self) -> Map<Seq<char>, Seq<u8>> {
        spec_held(self.store)
    }

    open spec fn spec_encode(&self, value: Seq<u8>) -> Option<Seq<u8>> {
        Some(value)
    }

    open spec fn spec_decode(&self, held: Seq<u8>) -> Option<Seq<u8>> {
        Some(held)
    }

    fn get(&self, key: &str) -> (r: Result<Option<Vec<u8>>, Error>) {
        Ok(map_get(&self.store, key))
    }

    fn set(&mut self, key: &str, value: Vec<u8>) -> (r: Result<(), Error>) {
        map_insert(&mut self.store, key, value);
        Ok(())
    }

    fn delete(&mut self, key: &str) -> (r: Result<(), Error>) {
        map_remove(&mut self.store, key);
        Ok(())
    }

    fn contains(&self, key: &str) -> (r: Result<bool, Error>) {
        Ok(map_contains_key(&self.store, key))
    }
}

impl Default for MemoryKvStore {
    fn default() -> (s: MemoryKvStore)
        ensures
            s.spec_entries() == Map::<Seq<char>, Seq<u8>>::empty(),
    {
        MemoryKvStore::new()
    }
}

} // verus!
