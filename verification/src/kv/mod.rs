//! A key-value store of byte strings.
//!
//! A store keeps bytes under a key. What it keeps may be an encoding of
//! what was put: a store says how it encodes a value on the way in and
//! decodes it on the way out, and every contract is stated over what the
//! store holds.

use vstd::prelude::*;
use crate::error::Error;

pub mod compressed;
pub mod memory;

pub use trueno::{hash_bytes, hash_key, hash_keys_batch};

verus! {

/// A key-value store.
pub trait KvStore {
    /// What the store holds under each key.
    spec fn spec_entries(&self) -> Map<Seq<char>, Seq<u8>>;

    /// What the store holds for a value that is put; nothing where the
    /// value cannot be encoded.
    spec fn spec_encode(&self, value: Seq<u8>) -> Option<Seq<u8>>;

    /// The value for what the store holds; nothing where that cannot be
    /// decoded.
    spec fn spec_decode(&self, held: Seq<u8>) -> Option<Seq<u8>>;

    /// The value under `key`: `None` when the store holds nothing under it,
    /// and an error when what it holds cannot be decoded.
    fn get(&self, key: &str) -> (r: Result<Option<Vec<u8>>, Error>)
        ensures
            match r {
                Ok(Some(v)) => self.spec_entries().contains_key(key@) && self.spec_decode(
                    self.spec_entries()[key@],
                ) == Some(v@),
                Ok(None) => !self.spec_entries().contains_key(key@),
                Err(_) => self.spec_entries().contains_key(key@) && self.spec_decode(
                    self.spec_entries()[key@],
                ) is None,
            },
    ;

    /// Puts `value` under `key`, in place of what was there. Where the
    /// value cannot be encoded the store stays as it was and the result is
    /// an error.
    fn set(&mut self, key: &str, value: Vec<u8>) -> (r: Result<(), Error>)
        ensures
            forall|v: Seq<u8>| final(self).spec_encode(v) == old(self).spec_encode(v),
            forall|v: Seq<u8>| final(self).spec_decode(v) == old(self).spec_decode(v),
            match old(self).spec_encode(value@) {
                Some(held) => r is Ok && final(self).spec_entries() == old(self).spec_entries().insert(
                    key@,
                    held,
                ),
                None => r is Err && final(self).spec_entries() == old(self).spec_entries(),
            },
    ;

    /// Removes what is under `key`, if anything.
    fn delete(&mut self, key: &str) -> (r: Result<(), Error>)
        ensures
            forall|v: Seq<u8>| final(self).spec_encode(v) == old(self).spec_encode(v),
            forall|v: Seq<u8>| final(self).spec_decode(v) == old(self).spec_decode(v),
            r is Ok,
            final(self).spec_entries() == old(self).spec_entries().remove(key@),
    ;

    /// Whether the store holds something under `key`.
    fn contains(&self, key: &str) -> (r: Result<bool, Error>)
        ensures
            r == Ok::<bool, Error>(self.spec_entries().contains_key(key@)),
    ;
}

/// The values under the keys, in the order of the keys; the first key whose
/// value cannot be decoded ends the batch with its error.
pub fn batch_get<S: KvStore>(store: &S, keys: &Vec<String>) -> (r: Result<
    Vec<Option<Vec<u8>>>,
    Error,
>)
    ensures
        r matches Ok(values) ==> values@.len() == keys@.len() && forall|i: int|
            0 <= i < keys@.len() ==> match #[trigger] values@[i] {
                Some(v) => store.spec_entries().contains_key(keys@[i]@) && store.spec_decode(
                    store.spec_entries()[keys@[i]@],
                ) == Some(v@),
                None => !store.spec_entries().contains_key(keys@[i]@),
            },
        r is Err ==> exists|i: int|
            0 <= i < keys@.len() && store.spec_entries().contains_key(#[trigger] keys@[i]@)
                && store.spec_decode(store.spec_entries()[keys@[i]@]) is None,
{
    let n = keys.len();
    let mut values: Vec<Option<Vec<u8>>> = Vec::with_capacity(n);
    let mut i: usize = 0;
    while i < n
        invariant
            n == keys@.len(),
            i <= n,
            values@.len() == i,
            forall|j: int|
                0 <= j < i ==> match #[trigger] values@[j] {
                    Some(v) => store.spec_entries().contains_key(keys@[j]@) && store.spec_decode(
                        store.spec_entries()[keys@[j]@],
                    ) == Some(v@),
                    None => !store.spec_entries().contains_key(keys@[j]@),
                },
        decreases n - i,
    {
        match store.get(keys[i].as_str()) {
            Ok(v) => {
                values.push(v);
            },
            Err(e) => {
                assert(store.spec_entries().contains_key(keys@[i as int]@));
                return Err(e);
            },
        }
        i += 1;
    }
    Ok(values)
}

/// What a store holds after the first `upto` pairs were put, in their
/// order, into a store that held `entries`.
pub open spec fn spec_put_all<S: KvStore>(
    store: &S,
    entries: Map<Seq<char>, Seq<u8>>,
    pairs: Seq<(String, Vec<u8>)>,
    upto: int,
) -> Map<Seq<char>, Seq<u8>>
    decreases upto,
{
    if upto <= 0 {
        entries
    } else {
        spec_put_all(store, entries, pairs, upto - 1).insert(
            pairs[upto - 1].0@,
            store.spec_encode(pairs[upto - 1].1@)->Some_0,
        )
    }
}

/// A copy of the bytes.
pub fn copy_bytes(v: &Vec<u8>) -> (r: Vec<u8>)
    ensures
        r@ == v@,
{
    let n = v.len();
    let mut r: Vec<u8> = Vec::with_capacity(n);
    let mut i: usize = 0;
    while i < n
        invariant
            n == v@.len(),
            i <= n,
            r@ == v@.subrange(0, i as int),
        decreases n - i,
    {
        r.push(v[i]);
        assert(r@ =~= v@.subrange(0, i + 1));
        i += 1;
    }
    assert(v@.subrange(0, n as int) =~= v@);
    r
}

/// Puts the pairs in their order. The first value that cannot be encoded
/// ends the batch with its error, after the pairs before it were put.
pub fn batch_set<S: KvStore>(store: &mut S, pairs: Vec<(String, Vec<u8>)>) -> (r: Result<(), Error>)
    ensures
        forall|v: Seq<u8>| final(store).spec_encode(v) == old(store).spec_encode(v),
        forall|v: Seq<u8>| final(store).spec_decode(v) == old(store).spec_decode(v),
        r is Ok ==> final(store).spec_entries() == spec_put_all(
            old(store),
            old(store).spec_entries(),
            pairs@,
            pairs@.len() as int,
        ),
        r is Err ==> exists|i: int|
            0 <= i < pairs@.len() && old(store).spec_encode((#[trigger] pairs@[i]).1@) is None
                && final(store).spec_entries() == spec_put_all(
                old(store),
                old(store).spec_entries(),
                pairs@,
                i,
            ),
{
    let n = pairs.len();
    let mut i: usize = 0;
    while i < n
        invariant
            n == pairs@.len(),
            i <= n,
            forall|v: Seq<u8>| store.spec_encode(v) == old(store).spec_encode(v),
            forall|v: Seq<u8>| store.spec_decode(v) == old(store).spec_decode(v),
            store.spec_entries() == spec_put_all(
                old(store),
                old(store).spec_entries(),
                pairs@,
                i as int,
            ),
        decreases n - i,
    {
        let value = copy_bytes(&pairs[i].1);
        match store.set(pairs[i].0.as_str(), value) {
            Ok(()) => {},
            Err(e) => {
                assert(old(store).spec_encode(pairs@[i as int].1@) is None);
                return Err(e);
            },
        }
        i += 1;
    }
    Ok(())
}

} // verus!
