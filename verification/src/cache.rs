//! A keyed, time-expiring store of tax schedules.
//!
//! The cache maps `(jurisdiction, entity type, tax year)` to a schedule
//! with its insertion timestamp. An entry is valid only while its age is
//! below the cache's fixed time-to-live; an expired entry is never removed
//! by a read, it is simply ignored and overwritten by the next write for
//! the same key. Time enters as an explicit millisecond clock value, so
//! every caller decision about expiry is verified here; whoever drives the
//! cache supplies the clock.
//!
//! A write takes the cache exclusively (`&mut self`), so no read can ever
//! observe a torn entry; a process sharing one cache among concurrent
//! callers puts a reader/writer lock around it and keeps that discipline.

use vstd::prelude::*;
use vstd::hash_map::HashMapWithView;

use crate::bracket::TaxSchedule;
use crate::entity::TaxEntityType;
use crate::errors::TaxError;
use crate::jurisdiction::{CanadianProvince, Country, Jurisdiction, USState};

verus! {

/// The composite lookup key: jurisdiction, entity type, and tax year.
#[derive(Clone, Copy, Debug, Eq, PartialEq, Hash, Structural)]
pub struct CacheKey {
    pub jurisdiction: Jurisdiction,
    pub entity_type: TaxEntityType,
    pub tax_year: u16,
}

/// A small distinct code for each jurisdiction.
pub open spec fn spec_jurisdiction_code(j: Jurisdiction) -> int {
    match j {
        Jurisdiction::Federal(Country::USA) => 0,
        Jurisdiction::Federal(Country::Canada) => 1,
        Jurisdiction::USState(USState::California) => 2,
        Jurisdiction::USState(USState::NewYork) => 3,
        Jurisdiction::CanadianProvince(CanadianProvince::Ontario) => 4,
        Jurisdiction::CanadianProvince(CanadianProvince::BritishColumbia) => 5,
    }
}

/// A small distinct code for each entity type.
pub open spec fn spec_entity_type_code(e: TaxEntityType) -> int {
    match e {
        TaxEntityType::Individual => 0,
        TaxEntityType::Corporation => 1,
        TaxEntityType::Partnership => 2,
    }
}

/// A structural integer encoding of a cache key: jurisdiction code, entity
/// code and year packed into disjoint bit ranges, so distinct keys always
/// get distinct codes.
pub open spec fn spec_key_code(k: CacheKey) -> int {
    spec_jurisdiction_code(k.jurisdiction) * 0x1_0000_0000 + spec_entity_type_code(k.entity_type)
        * 0x1_0000 + k.tax_year
}

/// Distinct keys encode to distinct codes.
pub proof fn lemma_key_code_injective(a: CacheKey, b: CacheKey)
    requires
        spec_key_code(a) == spec_key_code(b),
    ensures
        a == b,
{
    assert(spec_jurisdiction_code(a.jurisdiction) == spec_jurisdiction_code(b.jurisdiction)
        && spec_entity_type_code(a.entity_type) == spec_entity_type_code(b.entity_type)
        && a.tax_year == b.tax_year);
}

fn jurisdiction_code(j: &Jurisdiction) -> (r: u64)
    ensures
        r == spec_jurisdiction_code(*j),
{
    match j {
        Jurisdiction::Federal(Country::USA) => 0,
        Jurisdiction::Federal(Country::Canada) => 1,
        Jurisdiction::USState(USState::California) => 2,
        Jurisdiction::USState(USState::NewYork) => 3,
        Jurisdiction::CanadianProvince(CanadianProvince::Ontario) => 4,
        Jurisdiction::CanadianProvince(CanadianProvince::BritishColumbia) => 5,
    }
}

fn entity_type_code(e: &TaxEntityType) -> (r: u64)
    ensures
        r == spec_entity_type_code(*e),
{
    match e {
        TaxEntityType::Individual => 0,
        TaxEntityType::Corporation => 1,
        TaxEntityType::Partnership => 2,
    }
}

/// Computes the packed integer code of a key.
pub fn key_code(k: &CacheKey) -> (r: u64)
    ensures
        r == spec_key_code(*k),
{
    jurisdiction_code(&k.jurisdiction) * 0x1_0000_0000 + entity_type_code(&k.entity_type) * 0x1_0000
        + (k.tax_year as u64)
}

/// The interface of a schedule cache: a keyed lookup and an overwriting
/// store, both at an explicit millisecond clock value supplied by the
/// caller.
pub trait TaxDataCache {
    /// Retrieves the schedule for a key, if one is present and still
    /// valid at the given clock value.
    fn get(
        &self,
        jurisdiction: &Jurisdiction,
        entity_type: &TaxEntityType,
        tax_year: u16,
        now_millis: u64,
    ) -> Option<TaxSchedule>;

    /// Stores a schedule for a key at the given clock value, overwriting
    /// any existing entry.
    fn set(
        &mut self,
        jurisdiction: &Jurisdiction,
        entity_type: &TaxEntityType,
        tax_year: u16,
        schedule: TaxSchedule,
        now_millis: u64,
    ) -> Result<(), TaxError>;
}

/// A schedule together with the time it entered the cache.
#[derive(Debug)]
pub struct CacheEntry {
    /// The cached schedule.
    pub schedule: TaxSchedule,
    /// When the entry was written, in milliseconds of the driving clock.
    pub timestamp: u64,
}

/// Whether an entry written at `e.timestamp` is still valid at `now`:
/// its age is non-negative and strictly below the time-to-live.
pub open spec fn spec_entry_valid(e: CacheEntry, ttl_millis: u64, now_millis: u64) -> bool {
    e.timestamp <= now_millis && now_millis - e.timestamp < ttl_millis
}

/// An in-memory schedule cache with a fixed time-to-live.
pub struct MemoryCache {
    data: HashMapWithView<u64, CacheEntry>,
    ttl_millis: u64,
}

impl MemoryCache {
    /// The stored entries, keyed by packed key code.
    pub closed spec fn entries(self) -> Map<u64, CacheEntry> {
        self.data@
    }

    /// The fixed time-to-live of this cache, in milliseconds.
    pub closed spec fn spec_ttl(self) -> u64 {
        self.ttl_millis
    }

    /// Creates an empty cache whose entries live for `ttl_millis`.
    pub fn new(ttl_millis: u64) -> (r: MemoryCache)
        ensures
            r.entries() == Map::<u64, CacheEntry>::empty(),
            r.spec_ttl() == ttl_millis,
    {
        broadcast use vstd::std_specs::hash::axiom_u64_obeys_hash_table_key_model;

        MemoryCache { data: HashMapWithView::new(), ttl_millis }
    }

    /// The configured time-to-live, in milliseconds.
    pub fn ttl(&self) -> (r: u64)
        ensures
            r == self.spec_ttl(),
    {
        self.ttl_millis
    }

    /// Looks up the schedule for a key at clock value `now_millis`.
    ///
    /// Returns the stored schedule exactly when an entry exists for the
    /// key and is still valid; an expired or missing entry behaves as
    /// absent. A read never removes anything.
    pub fn get(
        &self,
        jurisdiction: &Jurisdiction,
        entity_type: &TaxEntityType,
        tax_year: u16,
        now_millis: u64,
    ) -> (r: Option<TaxSchedule>)
        ensures
            ({
                let code = spec_key_code(
                    CacheKey { jurisdiction: *jurisdiction, entity_type: *entity_type, tax_year },
                ) as u64;
                match spec_cache_lookup(self.entries(), self.spec_ttl(), code, now_millis) {
                    Some(entry) => {
                        &&& r is Some
                        &&& r->Some_0.tax_year == entry.schedule.tax_year
                        &&& r->Some_0.brackets@ == entry.schedule.brackets@
                    },
                    None => r is None,
                }
            }),
    {
        let key = CacheKey {
            jurisdiction: *jurisdiction,
            entity_type: *entity_type,
            tax_year,
        };
        let code = key_code(&key);
        match self.data.get(&code) {
            Some(entry) => {
                if entry.timestamp <= now_millis && now_millis - entry.timestamp
                    < self.ttl_millis {
                    Some(entry.schedule.clone())
                } else {
                    None
                }
            },
            None => None,
        }
    }

    /// Writes the schedule for a key at clock value `now_millis`,
    /// unconditionally overwriting any existing entry for that key, with a
    /// fresh timestamp. Writes to this in-memory store cannot fail; the
    /// error channel is reserved for fallible backing stores.
    pub fn set(
        &mut self,
        jurisdiction: &Jurisdiction,
        entity_type: &TaxEntityType,
        tax_year: u16,
        schedule: TaxSchedule,
        now_millis: u64,
    ) -> (r: Result<(), TaxError>)
        ensures
            r is Ok,
            final(self).entries() == old(self).entries().insert(
                spec_key_code(
                    CacheKey { jurisdiction: *jurisdiction, entity_type: *entity_type, tax_year },
                ) as u64,
                (CacheEntry { schedule, timestamp: now_millis }),
            ),
            final(self).spec_ttl() == old(self).spec_ttl(),
    {
        let key = CacheKey {
            jurisdiction: *jurisdiction,
            entity_type: *entity_type,
            tax_year,
        };
        let code = key_code(&key);
        self.data.insert(code, CacheEntry { schedule, timestamp: now_millis });
        Ok(())
    }
}

impl TaxDataCache for MemoryCache {
    fn get(
        &self,
        jurisdiction: &Jurisdiction,
        entity_type: &TaxEntityType,
        tax_year: u16,
        now_millis: u64,
    ) -> Option<TaxSchedule> {
        MemoryCache::get(self, jurisdiction, entity_type, tax_year, now_millis)
    }

    fn set(
        &mut self,
        jurisdiction: &Jurisdiction,
        entity_type: &TaxEntityType,
        tax_year: u16,
        schedule: TaxSchedule,
        now_millis: u64,
    ) -> Result<(), TaxError> {
        MemoryCache::set(self, jurisdiction, entity_type, tax_year, schedule, now_millis)
    }
}

/// What a lookup of `code` at time `now` returns over a cache model:
/// the stored entry only if it exists and is still valid.
pub open spec fn spec_cache_lookup(
    entries: Map<u64, CacheEntry>,
    ttl_millis: u64,
    code: u64,
    now_millis: u64,
) -> Option<CacheEntry> {
    if entries.contains_key(code) && spec_entry_valid(entries[code], ttl_millis, now_millis) {
        Some(entries[code])
    } else {
        None
    }
}

/// A write followed by a read of the same key: before the time-to-live
/// elapses the read returns exactly the stored schedule; once the
/// time-to-live has elapsed (or the clock precedes the write) the entry
/// behaves as absent, even though it was never removed. The statement
/// quantifies over any prior contents, so it also says that a write after
/// expiry overwrites the stale entry and makes reads valid again.
pub proof fn lemma_cache_set_then_get(
    entries: Map<u64, CacheEntry>,
    ttl_millis: u64,
    code: u64,
    schedule: TaxSchedule,
    t_set: u64,
    t_get: u64,
)
    ensures
        t_set <= t_get && t_get - t_set < ttl_millis ==> spec_cache_lookup(
            entries.insert(code, (CacheEntry { schedule, timestamp: t_set })),
            ttl_millis,
            code,
            t_get,
        ) == Some(CacheEntry { schedule, timestamp: t_set }),
        t_get >= t_set + ttl_millis || t_get < t_set ==> spec_cache_lookup(
            entries.insert(code, (CacheEntry { schedule, timestamp: t_set })),
            ttl_millis,
            code,
            t_get,
        ) is None,
{
}

/// A write for one key never disturbs what a read of a different key
/// returns.
pub proof fn lemma_cache_set_other_key(
    entries: Map<u64, CacheEntry>,
    ttl_millis: u64,
    code: u64,
    other: u64,
    entry: CacheEntry,
    t_get: u64,
)
    requires
        code != other,
    ensures
        spec_cache_lookup(entries.insert(code, entry), ttl_millis, other, t_get)
            == spec_cache_lookup(entries, ttl_millis, other, t_get),
{
}

} // verus!
