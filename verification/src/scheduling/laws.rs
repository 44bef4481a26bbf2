//! What holds of every extraction.
//!
//! The lemmas of this module are stated over [`extraction`], the value that
//! [`itip_snapshot`](crate::scheduling::snapshot::itip_snapshot) is proved to
//! return. Their proofs rest on the invariants of the walk, which the module
//! [`invariants`](crate::scheduling::invariants) holds.

use vstd::prelude::*;
use crate::scheduling::calendar::{
    first_text, Component, Entry, Param, PropertyKind, ScheduleAgent, Uri,
};
use crate::scheduling::email::{classified, classified_uri, classified_uris};
use crate::scheduling::instance::InstanceKey;
use crate::scheduling::invariants::{
    lemma_accepted, lemma_attendee_agent, lemma_components_count, lemma_organizer_agent,
    lemma_scan_delegates,
};
use crate::scheduling::participants::{
    attendee_of, bare_attendee, ordinal, organizer_of, AttendeeView, OrganizerView,
};
use crate::scheduling::snapshot::{
    declares_organizer, extraction, ItipError, ItipSnapshotView, ItipSnapshotsView, Rules,
};
use crate::text::trimmed;

verus! {

/// A calendar none of whose scheduling components holds an ORGANIZER entry
/// has no scheduling information, whatever else it holds.
pub proof fn lemma_without_organizer(components: Seq<Component>, rules: Rules)
    requires
        forall|c: int|
            0 <= c < components.len() && (#[trigger] components[c]).kind.scheduling()
                ==> !declares_organizer(components[c]),
    ensures
        extraction(components, rules) == Err::<ItipSnapshotsView, ItipError>(
            ItipError::NoSchedulingInfo,
        ),
{
}

/// The UID that an entry declares: the trimmed text of a UID entry, unless it
/// is empty.
pub open spec fn declared_uid(entry: Entry) -> Option<Seq<char>> {
    if entry.name == PropertyKind::Uid {
        match first_text(entry) {
            Some(text) => if trimmed(text).len() > 0 {
                Some(trimmed(text))
            } else {
                None
            },
            None => None,
        }
    } else {
        None
    }
}

/// The address of the organizer that an entry at position `entry_id`
/// declares.
pub open spec fn declared_organizer(entry_id: int, entry: Entry, accounts: Seq<Seq<char>>) -> Option<
    Seq<char>,
> {
    if entry.name == PropertyKind::Organizer {
        match organizer_of(entry_id, entry, accounts) {
            Some(o) => Some(o.email.address),
            None => None,
        }
    } else {
        None
    }
}

/// Whether `a` is what an ATTENDEE entry among the first `n` of `entries`
/// declares.
pub open spec fn declared_attendee(
    entries: Seq<Entry>,
    n: int,
    accounts: Seq<Seq<char>>,
    a: AttendeeView,
) -> bool {
    exists|j: int|
        0 <= j < n && j < entries.len() && (#[trigger] entries[j]).name == PropertyKind::Attendee
            && attendee_of(j, entries[j], accounts) == Some(a)
}

/// Whether the snapshot `snapshot` is one of a scheduling component among the
/// first `n` of `components`: each of its attendees is declared there.
pub open spec fn taken_of(
    snapshot: ItipSnapshotView,
    components: Seq<Component>,
    n: int,
    accounts: Seq<Seq<char>>,
) -> bool {
    exists|c: int|
        0 <= c < n && c < components.len() && (#[trigger] components[c]).kind.scheduling()
            && forall|i: int|
            0 <= i < snapshot.attendees.len() ==> declared_attendee(
                components[c].entries@,
                components[c].entries@.len() as int,
                accounts,
                #[trigger] snapshot.attendees[i],
            )
}

/// The number of scheduling components among the first `n` of `components`.
pub open spec fn scheduling_count(components: Seq<Component>, n: int) -> nat
    decreases n,
{
    if n <= 0 {
        0
    } else {
        scheduling_count(components, n - 1) + if components[n - 1].kind.scheduling() {
            1nat
        } else {
            0nat
        }
    }
}

/// The snapshots of an accepted calendar are well formed.
pub proof fn lemma_well_formed(components: Seq<Component>, rules: Rules)
    requires
        extraction(components, rules) is Ok,
    ensures
        extraction(components, rules).unwrap().wf(),
{
    lemma_accepted(components, rules);
}

/// The UID of an accepted calendar is not empty, and it is the UID that any
/// entry of any scheduling component declares.
pub proof fn lemma_one_uid(components: Seq<Component>, rules: Rules)
    requires
        extraction(components, rules) is Ok,
    ensures
        extraction(components, rules).unwrap().uid.len() > 0,
        forall|c: int, j: int|
            0 <= c < components.len() && (#[trigger] components[c]).kind.scheduling() && 0 <= j
                < components[c].entries@.len() && declared_uid(
                #[trigger] components[c].entries@[j],
            ) is Some ==> declared_uid(components[c].entries@[j]) == Some(
                extraction(components, rules).unwrap().uid,
            ),
{
    lemma_accepted(components, rules);
}

/// Of an accepted calendar each snapshot stands under the identity of its own
/// instance, and there are as many snapshots as scheduling components: no
/// two components describe the same instance.
pub proof fn lemma_one_snapshot_for_each_instance(components: Seq<Component>, rules: Rules)
    requires
        extraction(components, rules) is Ok,
    ensures
        forall|k: InstanceKey| #[trigger]
            extraction(components, rules).unwrap().components.contains_key(k) ==> extraction(
                components,
                rules,
            ).unwrap().components[k].instance_id.spec_key() == k,
        extraction(components, rules).unwrap().components.dom().finite(),
        extraction(components, rules).unwrap().components.len() == scheduling_count(
            components,
            components.len() as int,
        ),
{
    lemma_accepted(components, rules);
}

/// Every organizer that an entry of a scheduling component of an accepted
/// calendar declares has the address of the calendar's organizer.
pub proof fn lemma_one_organizer(components: Seq<Component>, rules: Rules)
    requires
        extraction(components, rules) is Ok,
    ensures
        forall|c: int, j: int|
            0 <= c < components.len() && (#[trigger] components[c]).kind.scheduling() && 0 <= j
                < components[c].entries@.len() && declared_organizer(
                j,
                #[trigger] components[c].entries@[j],
                rules.accounts,
            ) is Some ==> declared_organizer(j, components[c].entries@[j], rules.accounts) == Some(
                extraction(components, rules).unwrap().organizer.email.address,
            ),
{
    lemma_accepted(components, rules);
}

/// Every attendee of every snapshot of an accepted calendar is what an
/// ATTENDEE entry of one scheduling component declares.
pub proof fn lemma_attendees_declared(components: Seq<Component>, rules: Rules)
    requires
        extraction(components, rules) is Ok,
    ensures
        forall|k: InstanceKey| #[trigger]
            extraction(components, rules).unwrap().components.contains_key(k) ==> taken_of(
                extraction(components, rules).unwrap().components[k],
                components,
                components.len() as int,
                rules.accounts,
            ),
{
    lemma_accepted(components, rules);
}

/// The URIs of the last DELEGATED-FROM parameter among `params`.
pub open spec fn delegated_from_uris(params: Seq<Param>) -> Seq<Uri>
    decreases params.len(),
{
    if params.len() == 0 {
        Seq::empty()
    } else {
        match params.last() {
            Param::DelegatedFrom(uris) => uris@,
            _ => delegated_from_uris(params.drop_last()),
        }
    }
}

/// The URIs of the last DELEGATED-TO parameter among `params`.
pub open spec fn delegated_to_uris(params: Seq<Param>) -> Seq<Uri>
    decreases params.len(),
{
    if params.len() == 0 {
        Seq::empty()
    } else {
        match params.last() {
            Param::DelegatedTo(uris) => uris@,
            _ => delegated_to_uris(params.drop_last()),
        }
    }
}

/// The two delegation lists of the attendee that an entry declares hold what
/// the URIs of its last DELEGATED-FROM and DELEGATED-TO parameter classify as.
pub proof fn lemma_delegates(entry_id: int, entry: Entry, accounts: Seq<Seq<char>>)
    requires
        attendee_of(entry_id, entry, accounts) is Some,
    ensures
        attendee_of(entry_id, entry, accounts).unwrap().delegated_from == classified_uris(
            delegated_from_uris(entry.params@),
            accounts,
        ),
        attendee_of(entry_id, entry, accounts).unwrap().delegated_to == classified_uris(
            delegated_to_uris(entry.params@),
            accounts,
        ),
{
    let email = classified(first_text(entry).unwrap(), accounts).unwrap();
    lemma_scan_delegates(bare_attendee(entry_id, email), entry.params@, accounts);
}

/// The addresses that a list of URIs classifies as come from URIs of the
/// list, each from one of its own, in the order of the list. The result
/// gives, for each address, the position of its URI.
pub proof fn lemma_classified_in_order(uris: Seq<Uri>, accounts: Seq<Seq<char>>) -> (at: Seq<int>)
    ensures
        at.len() == classified_uris(uris, accounts).len(),
        forall|j: int|
            0 <= j < at.len() ==> 0 <= #[trigger] at[j] < uris.len() && classified_uri(
                uris[at[j]],
                accounts,
            ) == Some(classified_uris(uris, accounts)[j]),
        forall|i: int, j: int| 0 <= i < j < at.len() ==> at[i] < at[j],
    decreases uris.len(),
{
    if uris.len() == 0 {
        Seq::empty()
    } else {
        let before = lemma_classified_in_order(uris.drop_last(), accounts);
        match classified_uri(uris.last(), accounts) {
            Some(email) => {
                let at = before.push(uris.len() - 1);
                assert forall|j: int| 0 <= j < at.len() implies 0 <= #[trigger] at[j] < uris.len()
                    && classified_uri(uris[at[j]], accounts) == Some(
                    classified_uris(uris, accounts)[j],
                ) by {
                    if j < before.len() {
                        assert(uris.drop_last()[before[j]] == uris[before[j]]);
                    }
                }
                at
            },
            None => {
                assert forall|j: int| 0 <= j < before.len() implies 0 <= #[trigger] before[j]
                    < uris.len() && classified_uri(uris[before[j]], accounts) == Some(
                    classified_uris(uris, accounts)[j],
                ) by {
                    assert(uris.drop_last()[before[j]] == uris[before[j]]);
                }
                before
            },
        }
    }
}

/// Whether a local address is among the organizer and the attendees of a
/// document.
pub open spec fn has_local(organizer: Option<OrganizerView>, snapshots: Map<InstanceKey, ItipSnapshotView>) -> bool {
    (organizer is Some && organizer.unwrap().email.is_local) || exists|k: InstanceKey, i: int|
        snapshots.contains_key(k) && 0 <= i < snapshots[k].attendees.len() && (
        #[trigger] snapshots[k].attendees[i]).email.is_local
}

/// Of an accepted calendar the organizer or an attendee of some instance has
/// a local address.
pub proof fn lemma_local_party(components: Seq<Component>, rules: Rules)
    requires
        extraction(components, rules) is Ok,
    ensures
        has_local(
            Some(extraction(components, rules).unwrap().organizer),
            extraction(components, rules).unwrap().components,
        ),
{
    lemma_accepted(components, rules);
}

/// Whether an attendee counts as a local party: the address is local, and
/// the server schedules for the attendee or client scheduling is accepted.
pub open spec fn counts(a: AttendeeView, force_add_client_scheduling: bool) -> bool {
    a.email.is_local && (force_add_client_scheduling || a.is_server_scheduling)
}

/// Whether the organizer is local or an attendee of a snapshot counts as a
/// local party.
pub open spec fn has_local_party(
    organizer: Option<OrganizerView>,
    snapshots: Map<InstanceKey, ItipSnapshotView>,
    force_add_client_scheduling: bool,
) -> bool {
    (organizer is Some && organizer.unwrap().email.is_local) || exists|k: InstanceKey, i: int|
        snapshots.contains_key(k) && 0 <= i < snapshots[k].attendees.len() && counts(
            #[trigger] snapshots[k].attendees[i],
            force_add_client_scheduling,
        )
}

/// Whether no two ATTENDEE entries among `entries` declare the same address.
pub open spec fn distinct_attendees(entries: Seq<Entry>, accounts: Seq<Seq<char>>) -> bool {
    forall|i: int, j: int|
        0 <= i < j < entries.len() && (#[trigger] entries[i]).name == PropertyKind::Attendee && (
        #[trigger] entries[j]).name == PropertyKind::Attendee && attendee_of(
            i,
            entries[i],
            accounts,
        ) is Some && attendee_of(j, entries[j], accounts) is Some ==> attendee_of(
            i,
            entries[i],
            accounts,
        ).unwrap().email.address != attendee_of(j, entries[j], accounts).unwrap().email.address
}

/// Whether no scheduling component among `components` holds two ATTENDEE
/// entries that declare the same address.
pub open spec fn attendees_declared_once(components: Seq<Component>, accounts: Seq<Seq<char>>) -> bool {
    forall|c: int|
        0 <= c < components.len() && (#[trigger] components[c]).kind.scheduling()
            ==> distinct_attendees(components[c].entries@, accounts)
}

/// Of an accepted calendar in which no scheduling component declares an
/// attendee twice, the organizer is local or an attendee of some instance
/// counts as a local party.
pub proof fn lemma_local_party_counts(components: Seq<Component>, rules: Rules)
    requires
        extraction(components, rules) is Ok,
        attendees_declared_once(components, rules.accounts),
    ensures
        has_local_party(
            Some(extraction(components, rules).unwrap().organizer),
            extraction(components, rules).unwrap().components,
            rules.force_add_client_scheduling,
        ),
{
    lemma_accepted(components, rules);
    lemma_components_count(components, components.len() as int, rules);
}

/// Two extractions from the same components under the same rules have the
/// same outcome.
pub proof fn lemma_repeatable(
    components: Seq<Component>,
    rules: Rules,
    first: Result<ItipSnapshotsView, ItipError>,
    second: Result<ItipSnapshotsView, ItipError>,
)
    requires
        first == extraction(components, rules),
        second == extraction(components, rules),
    ensures
        first == second,
{
}

/// Whether one of `params` names the client as the scheduling agent.
pub open spec fn names_client(params: Seq<Param>) -> bool {
    exists|i: int|
        0 <= i < params.len() && #[trigger] params[i] == Param::ScheduleAgent(ScheduleAgent::Client)
}

/// The server schedules for the organizer and for the attendee that an entry
/// declares unless a SCHEDULE-AGENT parameter of the entry names the client,
/// wherever among the parameters it stands.
pub proof fn lemma_server_scheduling(entry_id: int, entry: Entry, accounts: Seq<Seq<char>>)
    ensures
        organizer_of(entry_id, entry, accounts) is Some ==> organizer_of(
            entry_id,
            entry,
            accounts,
        ).unwrap().is_server_scheduling == !names_client(entry.params@),
        attendee_of(entry_id, entry, accounts) is Some ==> attendee_of(
            entry_id,
            entry,
            accounts,
        ).unwrap().is_server_scheduling == !names_client(entry.params@),
{
    if organizer_of(entry_id, entry, accounts) is Some {
        let email = classified(first_text(entry).unwrap(), accounts).unwrap();
        lemma_organizer_agent(
            OrganizerView {
                entry_id: ordinal(entry_id),
                email,
                is_server_scheduling: true,
                force_send: None,
            },
            entry.params@,
        );
        lemma_attendee_agent(bare_attendee(entry_id, email), entry.params@, accounts);
    }
}

} // verus!
