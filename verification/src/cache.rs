//! The cache of detection results: two independent bounded partitions, one
//! keyed by the digest of the request headers and one keyed by device
//! identifier, each dropping its least recently used entry when full.

use crate::model::{DeviceRecord, JSONDeviceData};
use crate::recency::{
    bounded, distinct_keys, has_key, law_disabled, law_overflow_evicts_oldest, law_store_twice,
    lemma_promote, lemma_store, lookup, promote, store, store_all,
};
use crate::store::{
    lru_cap, lru_clear, lru_entries, lru_get, lru_len, lru_put, lru_resize, lru_unbounded,
};
use lru::LruCache;
use vstd::prelude::*;

verus! {

/// Names the partition keyed by device identifier.
pub const DEVICE_ID_CACHE_TYPE: &'static str = "dId-cache";

/// Names the partition keyed by the digest of the request headers.
pub const USERAGENT_CACHE_TYPE: &'static str = "ua-cache";

/// Capacity of the device-identifier partition of every enabled cache.
/// Identifiers form a small, stable key space, so this does not follow the
/// capacity asked for the header partition.
pub const DEVICE_ID_CACHE_SIZE: usize = 20000;

/// The entries of one partition, most recently used first.
pub type Entries = Seq<(Seq<char>, DeviceRecord)>;

/// One bounded partition.
pub struct Partition {
    inner: LruCache<String, JSONDeviceData>,
}

impl Partition {
    #[verifier::type_invariant]
    spec fn within_bound(self) -> bool {
        bounded(lru_entries(self.inner), lru_cap(self.inner))
    }

    /// The entries held, most recently used first.
    pub closed spec fn entries(self) -> Entries {
        lru_entries(self.inner)
    }

    /// The number of entries held at most.
    pub closed spec fn limit(self) -> nat {
        lru_cap(self.inner)
    }

    /// An empty partition that holds at most `limit` entries.
    pub fn new(limit: usize) -> (p: Partition)
        ensures
            p.entries() == Entries::empty(),
            p.limit() == limit,
    {
        let mut inner = lru_unbounded();
        lru_resize(&mut inner, limit);
        Partition { inner }
    }

    /// The number of entries held.
    pub fn len(&self) -> (n: usize)
        ensures
            n == self.entries().len(),
            n <= self.limit(),
            bounded(self.entries(), self.limit()),
    {
        proof {
            use_type_invariant(self);
        }
        lru_len(&self.inner)
    }

    /// Drops every entry.
    pub fn clear(&mut self)
        ensures
            final(self).entries() == Entries::empty(),
            final(self).limit() == old(self).limit(),
        no_unwind
    {
        lru_clear(&mut self.inner);
    }
}

/// Reads the record filed under `key`. A hit returns an independent copy and
/// makes the entry the most recently used one.
pub fn _internal_get(cache: &mut Partition, key: String) -> (found: Option<JSONDeviceData>)
    ensures
        final(cache).entries() == promote(old(cache).entries(), key@),
        final(cache).limit() == old(cache).limit(),
        bounded(final(cache).entries(), final(cache).limit()),
        match found {
            Some(record) => lookup(old(cache).entries(), key@) == Some(record@),
            None => lookup(old(cache).entries(), key@) is None,
        },
    no_unwind
{
    proof {
        use_type_invariant(&*cache);
        lemma_promote(cache.entries(), cache.limit(), key@);
    }
    lru_get(&mut cache.inner, &key)
}

/// Files `value` under `key` as the most recently used entry, replacing the
/// value of a key already present and otherwise pushing out the least
/// recently used entry if the partition is full.
pub fn _internal_put(cache: &mut Partition, key: String, value: JSONDeviceData)
    ensures
        final(cache).entries() == store(old(cache).entries(), old(cache).limit(), key@, value@),
        final(cache).limit() == old(cache).limit(),
        bounded(final(cache).entries(), final(cache).limit()),
    no_unwind
{
    proof {
        use_type_invariant(&*cache);
        lemma_store(cache.entries(), cache.limit(), key@, value@);
    }
    lru_put(&mut cache.inner, key, value);
}

/// One of the two partitions of a cache.
#[derive(Clone, Copy, Debug)]
pub enum PartitionKind {
    /// The partition keyed by the digest of the request headers.
    Headers,
    /// The partition keyed by device identifier.
    Ids,
}

/// The partition that `cache_type` names, if it names one.
pub open spec fn kind_of(cache_type: Seq<char>) -> Option<PartitionKind> {
    if cache_type == USERAGENT_CACHE_TYPE@ {
        Some(PartitionKind::Headers)
    } else if cache_type == DEVICE_ID_CACHE_TYPE@ {
        Some(PartitionKind::Ids)
    } else {
        None
    }
}

/// The partition that `cache_type` names, if it names one.
pub fn partition_named(cache_type: &str) -> (kind: Option<PartitionKind>)
    ensures
        kind == kind_of(cache_type@),
{
    let name = cache_type.to_owned();
    if name == USERAGENT_CACHE_TYPE.to_owned() {
        Some(PartitionKind::Headers)
    } else if name == DEVICE_ID_CACHE_TYPE.to_owned() {
        Some(PartitionKind::Ids)
    } else {
        None
    }
}

/// Mathematical content of a [`Cache`]: what each partition holds, most
/// recently used first, and how much it may hold.
pub struct CacheModel {
    pub headers: Entries,
    pub header_limit: nat,
    pub ids: Entries,
    pub id_limit: nat,
}

impl CacheModel {
    /// The cache as created for `max_size`: both partitions empty; with
    /// `max_size` zero neither partition ever holds anything.
    pub open spec fn fresh(max_size: nat) -> CacheModel {
        CacheModel {
            headers: Entries::empty(),
            header_limit: max_size,
            ids: Entries::empty(),
            id_limit: if max_size == 0 { 0 } else { DEVICE_ID_CACHE_SIZE as nat },
        }
    }

    /// Each partition is within its bound, and the identifier partition is
    /// enabled exactly when the header partition is.
    pub open spec fn valid(self) -> bool {
        &&& bounded(self.headers, self.header_limit)
        &&& bounded(self.ids, self.id_limit)
        &&& self.id_limit == if self.header_limit == 0 { 0 } else { DEVICE_ID_CACHE_SIZE as nat }
    }

    /// Caching is switched on.
    pub open spec fn enabled(self) -> bool {
        self.header_limit > 0
    }

    /// The cache after `value` was filed under `key` in the partition that
    /// `cache_type` names; an unknown name changes nothing.
    pub open spec fn put(self, cache_type: Seq<char>, key: Seq<char>, value: DeviceRecord)
        -> CacheModel {
        if cache_type == USERAGENT_CACHE_TYPE@ {
            CacheModel { headers: store(self.headers, self.header_limit, key, value), ..self }
        } else if cache_type == DEVICE_ID_CACHE_TYPE@ {
            CacheModel { ids: store(self.ids, self.id_limit, key, value), ..self }
        } else {
            self
        }
    }

    /// The record that a read of `key` in the partition that `cache_type`
    /// names returns; an unknown name finds nothing.
    pub open spec fn get(self, cache_type: Seq<char>, key: Seq<char>) -> Option<DeviceRecord> {
        if cache_type == USERAGENT_CACHE_TYPE@ {
            lookup(self.headers, key)
        } else if cache_type == DEVICE_ID_CACHE_TYPE@ {
            lookup(self.ids, key)
        } else {
            None
        }
    }

    /// The cache after that read: a hit becomes the most recently used entry
    /// of its partition.
    pub open spec fn touch(self, cache_type: Seq<char>, key: Seq<char>) -> CacheModel {
        if cache_type == USERAGENT_CACHE_TYPE@ {
            CacheModel { headers: promote(self.headers, key), ..self }
        } else if cache_type == DEVICE_ID_CACHE_TYPE@ {
            CacheModel { ids: promote(self.ids, key), ..self }
        } else {
            self
        }
    }

    /// The cache with both partitions emptied.
    pub open spec fn cleared(self) -> CacheModel {
        CacheModel { headers: Entries::empty(), ids: Entries::empty(), ..self }
    }

    /// Occupancy: the identifier partition first, then the header partition.
    pub open spec fn sizes(self) -> (nat, nat) {
        (self.ids.len(), self.headers.len())
    }
}

/// The cache of detection results.
pub struct Cache {
    _ua_cache: Partition,
    _dev_id_cache: Partition,
}

impl View for Cache {
    type V = CacheModel;

    closed spec fn view(&self) -> CacheModel {
        CacheModel {
            headers: self._ua_cache.entries(),
            header_limit: self._ua_cache.limit(),
            ids: self._dev_id_cache.entries(),
            id_limit: self._dev_id_cache.limit(),
        }
    }
}

impl Cache {
    #[verifier::type_invariant]
    spec fn limits_agree(self) -> bool {
        self._dev_id_cache.limit() == if self._ua_cache.limit() == 0 {
            0
        } else {
            DEVICE_ID_CACHE_SIZE as nat
        }
    }

    /// An empty cache whose header partition holds at most `max_size`
    /// entries. With `max_size` zero caching is disabled altogether.
    pub fn new(max_size: usize) -> (cache: Cache)
        ensures
            cache@ == CacheModel::fresh(max_size as nat),
            cache@.valid(),
    {
        let id_size: usize = if max_size == 0 { 0 } else { DEVICE_ID_CACHE_SIZE };
        Cache { _ua_cache: Partition::new(max_size), _dev_id_cache: Partition::new(id_size) }
    }

    /// Empties both partitions.
    pub fn clear(&mut self)
        ensures
            final(self)@ == old(self)@.cleared(),
            final(self)@.valid(),
    {
        proof {
            use_type_invariant(&*self);
        }
        self._ua_cache.clear();
        self._dev_id_cache.clear();
    }

    /// Current occupancy: the identifier partition first, then the header
    /// partition.
    pub fn get_actual_sizes(&self) -> (sizes: (usize, usize))
        ensures
            sizes.0 == self@.sizes().0,
            sizes.1 == self@.sizes().1,
            self@.valid(),
            !self@.enabled() ==> sizes == (0usize, 0usize),
    {
        proof {
            use_type_invariant(self);
        }
        let ua_size = self._ua_cache.len();
        let did_size = self._dev_id_cache.len();
        (did_size, ua_size)
    }

    /// Files `value` under `key` in the partition that `cache_type` names.
    pub fn put(&mut self, cache_type: String, key: String, value: JSONDeviceData)
        ensures
            final(self)@ == old(self)@.put(cache_type@, key@, value@),
            final(self)@.valid(),
    {
        proof {
            use_type_invariant(&*self);
            use_type_invariant(&self._ua_cache);
            use_type_invariant(&self._dev_id_cache);
        }
        match partition_named(cache_type.as_str()) {
            Some(PartitionKind::Headers) => {
                _internal_put(&mut self._ua_cache, key, value);
            },
            Some(PartitionKind::Ids) => {
                _internal_put(&mut self._dev_id_cache, key, value);
            },
            None => {},
        }
    }

    /// Reads the record filed under `key` in the partition that `cache_type`
    /// names. A hit returns an independent copy and makes the entry the most
    /// recently used one of its partition.
    pub fn get(&mut self, cache_type: String, key: String) -> (found: Option<JSONDeviceData>)
        ensures
            final(self)@ == old(self)@.touch(cache_type@, key@),
            final(self)@.valid(),
            match found {
                Some(record) => old(self)@.get(cache_type@, key@) == Some(record@),
                None => old(self)@.get(cache_type@, key@) is None,
            },
    {
        proof {
            use_type_invariant(&*self);
            use_type_invariant(&self._ua_cache);
            use_type_invariant(&self._dev_id_cache);
        }
        match partition_named(cache_type.as_str()) {
            Some(PartitionKind::Headers) => _internal_get(&mut self._ua_cache, key),
            Some(PartitionKind::Ids) => _internal_get(&mut self._dev_id_cache, key),
            None => None,
        }
    }

    /// Takes the cache apart: the header partition, then the identifier
    /// partition, each with what it holds. A caller that shares the cache
    /// among threads can then guard each partition by a lock of its own.
    pub fn into_partitions(self) -> (parts: (Partition, Partition))
        ensures
            parts.0.entries() == self@.headers,
            parts.0.limit() == self@.header_limit,
            parts.1.entries() == self@.ids,
            parts.1.limit() == self@.id_limit,
            self@.valid(),
    {
        proof {
            use_type_invariant(&self);
            use_type_invariant(&self._ua_cache);
            use_type_invariant(&self._dev_id_cache);
        }
        (self._ua_cache, self._dev_id_cache)
    }
}

/// The two partition names differ, so a name never selects both partitions.
pub proof fn lemma_partition_names_differ()
    ensures
        USERAGENT_CACHE_TYPE@ != DEVICE_ID_CACHE_TYPE@,
{
    reveal_strlit("ua-cache");
    reveal_strlit("dId-cache");
    assert(USERAGENT_CACHE_TYPE@.len() == 8);
    assert(DEVICE_ID_CACHE_TYPE@.len() == 9);
}

impl CacheModel {
    /// The cache after each item of `items` was filed in turn, first item
    /// first, in the partition that `cache_type` names.
    pub open spec fn put_all(self, cache_type: Seq<char>, items: Entries) -> CacheModel
        decreases items.len(),
    {
        if items.len() == 0 {
            self
        } else {
            self.put_all(cache_type, items.drop_last()).put(
                cache_type,
                items.last().0,
                items.last().1,
            )
        }
    }

    /// Filing, reading and clearing keep a cache valid.
    pub proof fn lemma_valid_kept(
        self,
        cache_type: Seq<char>,
        key: Seq<char>,
        value: DeviceRecord,
    )
        requires
            self.valid(),
        ensures
            self.put(cache_type, key, value).valid(),
            self.touch(cache_type, key).valid(),
            self.cleared().valid(),
            CacheModel::fresh(self.header_limit).valid(),
    {
        lemma_store(self.headers, self.header_limit, key, value);
        lemma_store(self.ids, self.id_limit, key, value);
        lemma_promote(self.headers, self.header_limit, key);
        lemma_promote(self.ids, self.id_limit, key);
    }

    /// Filing many items touches only the partition named.
    pub proof fn lemma_put_all(self, cache_type: Seq<char>, items: Entries)
        requires
            self.valid(),
        ensures
            self.put_all(cache_type, items).valid(),
            self.put_all(cache_type, items) == if cache_type == USERAGENT_CACHE_TYPE@ {
                CacheModel {
                    headers: store_all(self.headers, self.header_limit, items),
                    ..self
                }
            } else if cache_type == DEVICE_ID_CACHE_TYPE@ {
                CacheModel { ids: store_all(self.ids, self.id_limit, items), ..self }
            } else {
                self
            },
        decreases items.len(),
    {
        if items.len() > 0 {
            let before = self.put_all(cache_type, items.drop_last());
            self.lemma_put_all(cache_type, items.drop_last());
            before.lemma_valid_kept(cache_type, items.last().0, items.last().1);
        }
    }
}

/// Partitions are isolated: what is filed in one partition is never seen
/// through the other, even under the same key, and neither changes what the
/// other holds, in content or in order.
pub proof fn law_partitions_isolated(
    m: CacheModel,
    key: Seq<char>,
    value: DeviceRecord,
    other_key: Seq<char>,
)
    requires
        m.valid(),
    ensures
        m.put(USERAGENT_CACHE_TYPE@, key, value).ids == m.ids,
        m.put(DEVICE_ID_CACHE_TYPE@, key, value).headers == m.headers,
        m.put(USERAGENT_CACHE_TYPE@, key, value).get(DEVICE_ID_CACHE_TYPE@, other_key) == m.get(
            DEVICE_ID_CACHE_TYPE@,
            other_key,
        ),
        m.put(DEVICE_ID_CACHE_TYPE@, key, value).get(USERAGENT_CACHE_TYPE@, other_key) == m.get(
            USERAGENT_CACHE_TYPE@,
            other_key,
        ),
        m.ids.len() == 0 ==> m.put(USERAGENT_CACHE_TYPE@, key, value).get(
            DEVICE_ID_CACHE_TYPE@,
            key,
        ) is None,
        m.headers.len() == 0 ==> m.put(DEVICE_ID_CACHE_TYPE@, key, value).get(
            USERAGENT_CACHE_TYPE@,
            key,
        ) is None,
{
    lemma_partition_names_differ();
    assert(m.ids.len() == 0 ==> !has_key(m.ids, key));
    assert(m.headers.len() == 0 ==> !has_key(m.headers, key));
}

/// A cache created with capacity zero stays empty whatever is done to it:
/// filing changes nothing, a read that follows finds nothing, and both
/// partitions report size zero.
pub proof fn law_disabled_cache(
    m: CacheModel,
    cache_type: Seq<char>,
    key: Seq<char>,
    value: DeviceRecord,
    read_type: Seq<char>,
    read_key: Seq<char>,
)
    requires
        m.valid(),
        !m.enabled(),
    ensures
        m.sizes() == (0nat, 0nat),
        m.put(cache_type, key, value) == m,
        m.put(cache_type, key, value).get(read_type, read_key) is None,
        m.put(cache_type, key, value).touch(read_type, read_key) == m,
        m.cleared() == m,
{
    law_disabled(m.headers, key, value, read_key);
    law_disabled(m.ids, key, value, read_key);
    assert(m.cleared().headers =~= m.headers);
    assert(m.cleared().ids =~= m.ids);
}

/// Filing the same record under the same key twice in a row leaves the
/// cache, and so its sizes, as the first filing left it.
pub proof fn law_put_twice(
    m: CacheModel,
    cache_type: Seq<char>,
    key: Seq<char>,
    value: DeviceRecord,
)
    requires
        m.valid(),
    ensures
        m.put(cache_type, key, value).put(cache_type, key, value) == m.put(cache_type, key, value),
        m.put(cache_type, key, value).put(cache_type, key, value).sizes() == m.put(
            cache_type,
            key,
            value,
        ).sizes(),
{
    law_store_twice(m.headers, m.header_limit, key, value);
    law_store_twice(m.ids, m.id_limit, key, value);
}

/// Filing one key more than a partition of a new, enabled cache holds, all
/// keys distinct, leaves that partition exactly full and the other one
/// empty: the key filed first is gone, every later one is found with its
/// record.
pub proof fn law_overflow(max_size: nat, cache_type: Seq<char>, items: Entries)
    requires
        max_size > 0,
        distinct_keys(items),
        cache_type == USERAGENT_CACHE_TYPE@ && items.len() == max_size + 1 || cache_type
            == DEVICE_ID_CACHE_TYPE@ && items.len() == DEVICE_ID_CACHE_SIZE + 1,
    ensures
        cache_type == USERAGENT_CACHE_TYPE@ ==> CacheModel::fresh(max_size).put_all(
            cache_type,
            items,
        ).sizes() == (0nat, max_size),
        cache_type == DEVICE_ID_CACHE_TYPE@ ==> CacheModel::fresh(max_size).put_all(
            cache_type,
            items,
        ).sizes() == (DEVICE_ID_CACHE_SIZE as nat, 0nat),
        CacheModel::fresh(max_size).put_all(cache_type, items).get(cache_type, items[0].0) is None,
        forall|i: int|
            1 <= i < items.len() ==> CacheModel::fresh(max_size).put_all(cache_type, items).get(
                cache_type,
                (#[trigger] items[i]).0,
            ) == Some(items[i].1),
{
    let m = CacheModel::fresh(max_size);
    lemma_partition_names_differ();
    m.lemma_put_all(cache_type, items);
    if cache_type == USERAGENT_CACHE_TYPE@ {
        law_overflow_evicts_oldest(max_size, items);
    } else {
        law_overflow_evicts_oldest(DEVICE_ID_CACHE_SIZE as nat, items);
    }
}

} // verus!
