//! The decisions of a DNS block list lookup: what the cache settles, what a
//! lookup settles, and which address the tags are evaluated for.

use vstd::prelude::*;

verus! {

/// What the cache holds for a zone.
#[derive(Clone, Debug)]
pub enum Cached {
    /// The addresses that the zone resolved to.
    Listed(Vec<u32>),
    /// The zone is known not to exist.
    Absent,
    /// Nothing.
    Unknown,
}

/// How a lookup of a zone ended.
#[derive(Clone, Debug)]
pub enum Lookup {
    /// The zone resolved to these addresses.
    Found(Vec<u32>),
    /// The zone does not exist.
    NotFound,
    /// The lookup failed.
    Failed,
}

/// What to do once the cache is asked.
#[derive(Clone, Debug)]
pub enum AfterCache {
    /// Evaluate the tags for these addresses.
    Evaluate(Vec<u32>),
    /// The zone lists nothing.
    Nothing,
    /// Look the zone up.
    Resolve,
}

/// What to do once the zone is looked up.
#[derive(Clone, Debug)]
pub enum AfterLookup {
    /// Remember the addresses for as long as the answer holds, and evaluate
    /// the tags for them.
    Evaluate(Vec<u32>),
    /// Remember for `seconds` that the zone does not exist; it lists nothing.
    RememberAbsent { seconds: u64 },
    /// The zone lists nothing that is known.
    Nothing,
}

/// For how long a zone that does not exist is remembered, in seconds.
pub const ABSENT_SECONDS: u64 = 86400;

/// The address that stands for a listing without addresses:
/// 255.255.255.255.
pub const BROADCAST: u32 = 0xffff_ffff;

/// Decides what to do once the cache is asked.
pub fn after_cache(cached: Cached) -> (r: AfterCache)
    ensures
        match cached {
            Cached::Listed(addresses) => r == AfterCache::Evaluate(addresses),
            Cached::Absent => r == AfterCache::Nothing,
            Cached::Unknown => r == AfterCache::Resolve,
        },
{
    match cached {
        Cached::Listed(addresses) => AfterCache::Evaluate(addresses),
        Cached::Absent => AfterCache::Nothing,
        Cached::Unknown => AfterCache::Resolve,
    }
}

/// Decides what to do once the zone is looked up.
pub fn after_lookup(lookup: Lookup) -> (r: AfterLookup)
    ensures
        match lookup {
            Lookup::Found(entry) => r == AfterLookup::Evaluate(entry),
            Lookup::NotFound => r == (AfterLookup::RememberAbsent { seconds: ABSENT_SECONDS }),
            Lookup::Failed => r == AfterLookup::Nothing,
        },
{
    match lookup {
        Lookup::Found(entry) => AfterLookup::Evaluate(entry),
        Lookup::NotFound => AfterLookup::RememberAbsent { seconds: ABSENT_SECONDS },
        Lookup::Failed => AfterLookup::Nothing,
    }
}

/// The address for which the tags are evaluated: the first one that the zone
/// resolved to, or 255.255.255.255 where it resolved to none.
pub fn listed_address(addresses: &Vec<u32>) -> (r: u32)
    ensures
        r == (if addresses@.len() > 0 {
            addresses@[0]
        } else {
            BROADCAST
        }),
{
    if addresses.len() > 0 {
        addresses[0]
    } else {
        BROADCAST
    }
}

} // verus!
