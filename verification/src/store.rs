//! The least-recently-used store of the `lru` crate, and what this library
//! takes for granted of it. Nothing in this file is proved: each contract
//! restates what the crate's source does, in terms of the model of
//! [`crate::recency`]. The functions that change a store also promise not to
//! unwind: none of them can panic on keys that are strings.

use crate::model::{DeviceRecord, JSONDeviceData};
use crate::recency::{lookup, promote, store};
use lru::LruCache;
use vstd::prelude::*;

verus! {

/// `lru::LruCache`, of which nothing but the contracts below is known.
#[verifier::external_type_specification]
#[verifier::external_body]
#[verifier::reject_recursive_types(K)]
#[verifier::reject_recursive_types(V)]
#[verifier::reject_recursive_types(S)]
pub struct ExLruCache<K, V, S>(LruCache<K, V, S>);

/// `lru::DefaultHasher`, the hasher of a store made without naming one.
#[verifier::external_type_specification]
#[verifier::external_body]
pub struct ExLruHasher(lru::DefaultHasher);

/// The entries that an `lru::LruCache` holds, each key and record by its
/// content, in the order of the crate's internal list: the most recently
/// used entry first, the one next to be pushed out last.
pub uninterp spec fn lru_entries(c: LruCache<String, JSONDeviceData>) -> Seq<
    (Seq<char>, DeviceRecord),
>;

/// The number of entries that an `lru::LruCache` was told to hold at most
/// (what `LruCache::cap` returns).
pub uninterp spec fn lru_cap(c: LruCache<String, JSONDeviceData>) -> nat;

/// `LruCache::unbounded`: an empty store whose limit is the largest `usize`.
/// Unlike `LruCache::new` it reserves no table up front, so that it cannot
/// fail on a large limit.
#[verifier::external_body]
pub(crate) fn lru_unbounded() -> (c: LruCache<String, JSONDeviceData>)
    ensures
        lru_entries(c) == Seq::<(Seq<char>, DeviceRecord)>::empty(),
        lru_cap(c) == usize::MAX,
{
    LruCache::unbounded()
}

/// `LruCache::resize`: sets the limit to `cap`; entries beyond the new limit
/// are dropped from the least recently used end.
#[verifier::external_body]
pub(crate) fn lru_resize(c: &mut LruCache<String, JSONDeviceData>, cap: usize)
    ensures
        lru_cap(*final(c)) == cap,
        lru_entries(*final(c)) == if lru_entries(*old(c)).len() <= cap {
            lru_entries(*old(c))
        } else {
            lru_entries(*old(c)).take(cap as int)
        },
{
    c.resize(cap)
}

/// `LruCache::put`: a key already present gets the new value and becomes the
/// most recently used; a new key is added as the most recently used, after
/// the least recently used entry was dropped if the store was full; with
/// limit zero a new key is not added at all. The limit stays.
#[verifier::external_body]
pub(crate) fn lru_put(c: &mut LruCache<String, JSONDeviceData>, key: String, value: JSONDeviceData)
    ensures
        lru_cap(*final(c)) == lru_cap(*old(c)),
        lru_entries(*final(c)) == store(lru_entries(*old(c)), lru_cap(*old(c)), key@, value@),
    no_unwind
{
    c.put(key, value);
}

/// `LruCache::get`, followed by a copy of the record found: the record filed
/// under the key, if there is one, which thereby becomes the most recently
/// used; otherwise nothing, and the store is unchanged. The limit stays.
#[verifier::external_body]
pub(crate) fn lru_get(c: &mut LruCache<String, JSONDeviceData>, key: &String) -> (found: Option<
    JSONDeviceData,
>)
    ensures
        lru_cap(*final(c)) == lru_cap(*old(c)),
        lru_entries(*final(c)) == promote(lru_entries(*old(c)), key@),
        match found {
            Some(record) => lookup(lru_entries(*old(c)), key@) == Some(record@),
            None => lookup(lru_entries(*old(c)), key@) is None,
        },
    no_unwind
{
    c.get(key).cloned()
}

/// `LruCache::len`: the number of entries held.
#[verifier::external_body]
pub(crate) fn lru_len(c: &LruCache<String, JSONDeviceData>) -> (n: usize)
    ensures
        n == lru_entries(*c).len(),
{
    c.len()
}

/// `LruCache::clear`: drops every entry. The limit stays.
#[verifier::external_body]
pub(crate) fn lru_clear(c: &mut LruCache<String, JSONDeviceData>)
    ensures
        lru_cap(*final(c)) == lru_cap(*old(c)),
        lru_entries(*final(c)) == Seq::<(Seq<char>, DeviceRecord)>::empty(),
    no_unwind
{
    c.clear()
}

} // verus!
