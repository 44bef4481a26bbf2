//! The instances of a scheduling object and the map that holds one snapshot
//! for each.

use vstd::prelude::*;
use ahash::{AHashMap, RandomState};
use crate::scheduling::snapshot::ItipSnapshot;

verus! {

/// The RECURRENCE-ID of an overridden instance.
#[derive(Clone, Copy, Debug, PartialEq, Eq, Structural)]
pub struct RecurrenceId {
    /// The position of the RECURRENCE-ID property in its component.
    pub entry_id: u16,
    /// The instant of the overridden occurrence, in Unix seconds.
    pub date: i64,
    /// Whether the override holds for all later occurrences too.
    pub this_and_future: bool,
}

/// Which instance of a scheduling object a component describes.
#[derive(Clone, Copy, Debug, PartialEq, Eq, Structural)]
pub enum InstanceId {
    Main,
    Recurrence(RecurrenceId),
}

/// The identity of an instance: nothing for the main instance, the instant
/// and the range flag for an override. The position of the property that
/// names an override is no part of its identity.
pub type InstanceKey = Option<(i64, bool)>;

impl InstanceId {
    /// The identity of this instance.
    pub open spec fn spec_key(&self) -> InstanceKey {
        match *self {
            InstanceId::Main => None,
            InstanceId::Recurrence(r) => Some((r.date, r.this_and_future)),
        }
    }

    /// The identity of this instance.
    #[verifier::when_used_as_spec(spec_key)]
    pub fn key(&self) -> (r: InstanceKey)
        ensures
            r == self.spec_key(),
    {
        match self {
            InstanceId::Main => None,
            InstanceId::Recurrence(r) => Some((r.date, r.this_and_future)),
        }
    }
}

/// The hash map of `ahash`.
#[verifier::external_type_specification]
#[verifier::external_body]
#[verifier::reject_recursive_types(K)]
#[verifier::reject_recursive_types(V)]
#[verifier::reject_recursive_types(S)]
pub struct ExAHashMap<K, V, S>(AHashMap<K, V, S>);

/// The hasher state of `ahash`, which its maps carry.
#[verifier::external_type_specification]
#[verifier::external_body]
pub struct ExRandomState(RandomState);

/// What a map of instances holds: for each identity at most one snapshot.
pub uninterp spec fn instances_of(m: AHashMap<InstanceKey, ItipSnapshot>) -> Map<
    InstanceKey,
    ItipSnapshot,
>;

/// The map that holds no instance.
pub open spec fn no_instances() -> Map<InstanceKey, ItipSnapshot> {
    Map::empty()
}

/// Trusted: `AHashMap::new`, which makes a map that holds nothing.
#[verifier::external_body]
pub(crate) fn new_instances() -> (m: AHashMap<InstanceKey, ItipSnapshot>)
    ensures
        instances_of(m) == no_instances(),
{
    AHashMap::new()
}

/// Trusted: `AHashMap::insert`, which hands on to `HashMap::insert` of the
/// standard library: afterwards the map holds `snapshot` under `key` and is
/// unchanged elsewhere; the result is the value that `key` had before, if it
/// had one. Keys are compared as `Option` and tuples of integers compare in
/// the standard library.
#[verifier::external_body]
pub(crate) fn insert_instance(
    m: &mut AHashMap<InstanceKey, ItipSnapshot>,
    key: InstanceKey,
    snapshot: ItipSnapshot,
) -> (previous: Option<ItipSnapshot>)
    ensures
        instances_of(*final(m)) == instances_of(*old(m)).insert(key, snapshot),
        previous == (if instances_of(*old(m)).contains_key(key) {
            Some(instances_of(*old(m))[key])
        } else {
            None
        }),
{
    m.insert(key, snapshot)
}

/// Trusted: `AHashMap::get`, which hands on to `HashMap::get` of the standard
/// library: the value held under `key`, if there is one.
#[verifier::external_body]
pub(crate) fn get_instance<'a>(m: &'a AHashMap<InstanceKey, ItipSnapshot>, key: &InstanceKey) -> (r:
    Option<&'a ItipSnapshot>)
    ensures
        r == (if instances_of(*m).contains_key(*key) {
            Some(&instances_of(*m)[*key])
        } else {
            None
        }),
{
    m.get(key)
}

/// Trusted: `HashMap::len` of the standard library, reached through the
/// `Deref` of `AHashMap`: the number of keys.
#[verifier::external_body]
pub(crate) fn count_instances(m: &AHashMap<InstanceKey, ItipSnapshot>) -> (r: usize)
    ensures
        r == instances_of(*m).len(),
{
    m.len()
}

} // verus!
