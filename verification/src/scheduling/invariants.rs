//! The invariants of the walk through a calendar, from which the laws of the
//! extraction follow.

use vstd::prelude::*;
use calcard::icalendar::ICalendar;
use crate::scheduling::calendar::{
    first_text, first_tzid, Component, Entry, Param, PropertyKind, ScheduleAgent, Value,
};
use crate::scheduling::email::{classified, classified_uris, EmailView};
use crate::scheduling::entries::{projected, with_entry, with_values, ItipEntryView};
use crate::scheduling::instance::InstanceKey;
use crate::scheduling::laws::{
    attendees_declared_once, counts, declared_attendee, declared_organizer, declared_uid,
    delegated_from_uris, delegated_to_uris, distinct_attendees, has_local, has_local_party,
    names_client, scheduling_count, taken_of,
};
use crate::scheduling::participants::{
    attendee_of, attendee_scan, bare_attendee, ordinal, organizer_of, organizer_scan,
    AttendeeView, OrganizerView,
};
use crate::scheduling::snapshot::{
    distinct_addresses, empty_document, empty_snapshot, extraction, has_attendee, read_component,
    read_components, read_entries, read_entry, with_attendee, DocumentView, ItipSnapshotView,
    Rules, WalkView,
};

verus! {

/// Whether the flag of an address says what the account's addresses say.
pub open spec fn classified_by(email: EmailView, accounts: Seq<Seq<char>>) -> bool {
    email.is_local == accounts.contains(email.address)
}

/// Inserting an attendee leaves the addresses distinct.
pub(crate) proof fn lemma_with_attendee(attendees: Seq<AttendeeView>, a: AttendeeView)
    requires
        distinct_addresses(attendees),
    ensures
        distinct_addresses(with_attendee(attendees, a)),
{
    if !has_attendee(attendees, a.email.address) {
        let after = attendees.push(a);
        assert forall|i: int, j: int| 0 <= i < j < after.len() implies (
        #[trigger] after[i]).email.address != (#[trigger] after[j]).email.address by {
            if j == attendees.len() {
                assert(after[i] == attendees[i]);
            } else {
                assert(after[i] == attendees[i] && after[j] == attendees[j]);
            }
        }
    }
}

/// Inserting the values of a property leaves the entries without duplicates.
pub(crate) proof fn lemma_with_values(
    entries: Seq<ItipEntryView>,
    name: PropertyKind,
    values: Seq<Value>,
    tz_id: Option<Seq<char>>,
    zones: ICalendar,
)
    requires
        entries.no_duplicates(),
    ensures
        with_values(entries, name, values, tz_id, zones).no_duplicates(),
    decreases values.len(),
{
    if values.len() > 0 {
        lemma_with_values(entries, name, values.drop_last(), tz_id, zones);
        let before = with_values(entries, name, values.drop_last(), tz_id, zones);
        match projected(values.last(), tz_id, zones) {
            Some(value) => {
                let e = ItipEntryView { name, value };
                if !before.contains(e) {
                    let after = before.push(e);
                    assert forall|i: int, j: int|
                        0 <= i < after.len() && 0 <= j < after.len() && i != j implies after[i]
                        != after[j] by {
                        if i < before.len() && j < before.len() {
                            assert(after[i] == before[i] && after[j] == before[j]);
                        } else if i < before.len() {
                            assert(before.contains(before[i]));
                        } else {
                            assert(before.contains(before[j]));
                        }
                    }
                }
                assert(with_entry(before, e).no_duplicates());
            },
            None => {},
        }
    }
}

/// What holds of a walk at any point: a UID is not empty, the flags of the
/// organizer and of the attendees say what the account's addresses say, and
/// the snapshot is well formed.
pub open spec fn walk_sound(walk: WalkView, accounts: Seq<Seq<char>>) -> bool {
    &&& walk.snapshot.wf()
    &&& walk.uid is Some ==> walk.uid.unwrap().len() > 0
    &&& walk.organizer is Some ==> classified_by(walk.organizer.unwrap().email, accounts)
    &&& forall|i: int|
        0 <= i < walk.snapshot.attendees.len() ==> classified_by(
            (#[trigger] walk.snapshot.attendees[i]).email,
            accounts,
        )
}

/// Whether a local address is among the organizer and the attendees of a walk.
pub open spec fn walk_has_local(walk: WalkView) -> bool {
    (walk.organizer is Some && walk.organizer.unwrap().email.is_local) || exists|i: int|
        0 <= i < walk.snapshot.attendees.len() && (#[trigger] walk.snapshot.attendees[i]).email.is_local
}

/// Reading parameters leaves the address and the position of an organizer
/// as they are.
pub(crate) proof fn lemma_organizer_scan(o: OrganizerView, params: Seq<Param>)
    ensures
        organizer_scan(o, params).email == o.email,
        organizer_scan(o, params).entry_id == o.entry_id,
    decreases params.len(),
{
    if params.len() > 0 {
        lemma_organizer_scan(o, params.drop_last());
    }
}

/// Reading parameters leaves the address and the position of an attendee as
/// they are.
pub(crate) proof fn lemma_attendee_scan(
    a: AttendeeView,
    params: Seq<Param>,
    accounts: Seq<Seq<char>>,
)
    ensures
        attendee_scan(a, params, accounts).email == a.email,
        attendee_scan(a, params, accounts).entry_id == a.entry_id,
    decreases params.len(),
{
    if params.len() > 0 {
        lemma_attendee_scan(a, params.drop_last(), accounts);
    }
}

/// The organizer that an entry declares has a flag that says what the
/// account's addresses say.
pub(crate) proof fn lemma_organizer_classified(entry_id: int, entry: Entry, accounts: Seq<Seq<char>>)
    ensures
        organizer_of(entry_id, entry, accounts) is Some ==> classified_by(
            organizer_of(entry_id, entry, accounts).unwrap().email,
            accounts,
        ),
{
    match first_text(entry) {
        Some(text) => match classified(text, accounts) {
            Some(email) => {
                lemma_organizer_scan(
                    OrganizerView {
                        entry_id: ordinal(entry_id),
                        email,
                        is_server_scheduling: true,
                        force_send: None,
                    },
                    entry.params@,
                );
            },
            None => {},
        },
        None => {},
    }
}

/// The attendee that an entry declares has a flag that says what the
/// account's addresses say.
pub(crate) proof fn lemma_attendee_classified(entry_id: int, entry: Entry, accounts: Seq<Seq<char>>)
    ensures
        attendee_of(entry_id, entry, accounts) is Some ==> classified_by(
            attendee_of(entry_id, entry, accounts).unwrap().email,
            accounts,
        ),
{
    match first_text(entry) {
        Some(text) => match classified(text, accounts) {
            Some(email) => {
                lemma_attendee_scan(bare_attendee(entry_id, email), entry.params@, accounts);
            },
            None => {},
        },
        None => {},
    }
}

/// What one entry does to a walk that it does not fail.
pub(crate) proof fn lemma_read_entry(walk: WalkView, entry_id: int, entry: Entry, rules: Rules)
    requires
        walk_sound(walk, rules.accounts),
        read_entry(walk, entry_id, entry, rules) is Ok,
    ensures
        ({
            let after = read_entry(walk, entry_id, entry, rules).unwrap();
            &&& walk_sound(after, rules.accounts)
            &&& walk.uid is Some ==> after.uid == walk.uid
            &&& walk.organizer is Some ==> after.organizer == walk.organizer
            &&& after.snapshot.comp_id == walk.snapshot.comp_id
            &&& declared_uid(entry) is Some ==> after.uid == declared_uid(entry)
            &&& declared_organizer(entry_id, entry, rules.accounts) is Some ==> after.organizer
                is Some && Some(after.organizer.unwrap().email.address) == declared_organizer(
                entry_id,
                entry,
                rules.accounts,
            )
            &&& after.has_local_emails ==> walk.has_local_emails || walk_has_local(after)
            &&& walk_has_local(walk) ==> walk_has_local(after)
            &&& forall|i: int|
                0 <= i < after.snapshot.attendees.len() ==> (i < walk.snapshot.attendees.len()
                    && #[trigger] after.snapshot.attendees[i] == walk.snapshot.attendees[i]) || (
                entry.name == PropertyKind::Attendee && attendee_of(
                    entry_id,
                    entry,
                    rules.accounts,
                ) == Some(after.snapshot.attendees[i]))
            &&& walk.snapshot.attendees.len() <= after.snapshot.attendees.len()
        }),
{
    let after = read_entry(walk, entry_id, entry, rules).unwrap();
    lemma_organizer_classified(entry_id, entry, rules.accounts);
    lemma_attendee_classified(entry_id, entry, rules.accounts);
    if entry.name.compared() {
        lemma_with_values(
            walk.snapshot.entries,
            entry.name,
            entry.values@,
            first_tzid(entry.params@),
            rules.zones,
        );
    }
    if entry.name == PropertyKind::Attendee {
        match attendee_of(entry_id, entry, rules.accounts) {
            Some(attendee) => {
                let before = walk.snapshot.attendees;
                lemma_with_attendee(before, attendee);
                assert(after.snapshot.attendees == with_attendee(before, attendee));
                if has_attendee(before, attendee.email.address) {
                    let i = choose|i: int|
                        0 <= i < before.len() && (#[trigger] before[i]).email.address
                            == attendee.email.address;
                    assert(classified_by(before[i].email, rules.accounts));
                    if attendee.email.is_local {
                        assert(after.snapshot.attendees[i].email.is_local);
                    }
                } else {
                    let last = before.len() as int;
                    assert(after.snapshot.attendees[last] == attendee);
                    assert forall|i: int| 0 <= i < after.snapshot.attendees.len() implies classified_by(
                        (#[trigger] after.snapshot.attendees[i]).email,
                        rules.accounts,
                    ) by {
                        if i < last {
                            assert(after.snapshot.attendees[i] == before[i]);
                        }
                    }
                }
                if walk_has_local(walk) && !(walk.organizer is Some
                    && walk.organizer.unwrap().email.is_local) {
                    let i = choose|i: int|
                        0 <= i < before.len() && (#[trigger] before[i]).email.is_local;
                    assert(after.snapshot.attendees[i] == before[i]);
                }
            },
            None => {},
        }
    } else {
        assert(after.snapshot.attendees == walk.snapshot.attendees);
    }
}

/// What reading the first `n` entries does to a walk that they do not fail.
pub(crate) proof fn lemma_read_entries(walk: WalkView, entries: Seq<Entry>, n: int, rules: Rules)
    requires
        0 <= n <= entries.len(),
        walk_sound(walk, rules.accounts),
        read_entries(walk, entries, n, rules) is Ok,
    ensures
        ({
            let after = read_entries(walk, entries, n, rules).unwrap();
            &&& walk_sound(after, rules.accounts)
            &&& walk.uid is Some ==> after.uid == walk.uid
            &&& walk.organizer is Some ==> after.organizer == walk.organizer
            &&& after.snapshot.comp_id == walk.snapshot.comp_id
            &&& forall|j: int|
                0 <= j < n && declared_uid(#[trigger] entries[j]) is Some ==> after.uid
                    == declared_uid(entries[j])
            &&& forall|j: int|
                0 <= j < n && declared_organizer(j, #[trigger] entries[j], rules.accounts) is Some
                    ==> after.organizer is Some && Some(after.organizer.unwrap().email.address)
                    == declared_organizer(j, entries[j], rules.accounts)
            &&& after.has_local_emails ==> walk.has_local_emails || walk_has_local(after)
            &&& walk_has_local(walk) ==> walk_has_local(after)
            &&& forall|i: int|
                0 <= i < after.snapshot.attendees.len() ==> (i < walk.snapshot.attendees.len()
                    && #[trigger] after.snapshot.attendees[i] == walk.snapshot.attendees[i])
                    || declared_attendee(entries, n, rules.accounts, after.snapshot.attendees[i])
            &&& walk.snapshot.attendees.len() <= after.snapshot.attendees.len()
        }),
    decreases n,
{
    if n > 0 {
        let mid = read_entries(walk, entries, n - 1, rules).unwrap();
        lemma_read_entries(walk, entries, n - 1, rules);
        lemma_read_entry(mid, n - 1, entries[n - 1], rules);
        let after = read_entries(walk, entries, n, rules).unwrap();
        assert(after == read_entry(mid, n - 1, entries[n - 1], rules).unwrap());
        assert forall|i: int| 0 <= i < after.snapshot.attendees.len() implies (i
            < walk.snapshot.attendees.len() && #[trigger] after.snapshot.attendees[i]
            == walk.snapshot.attendees[i]) || declared_attendee(
            entries,
            n,
            rules.accounts,
            after.snapshot.attendees[i],
        ) by {
            let a = after.snapshot.attendees[i];
            if i < mid.snapshot.attendees.len() && a == mid.snapshot.attendees[i] {
                if !(i < walk.snapshot.attendees.len() && a == walk.snapshot.attendees[i]) {
                    assert(declared_attendee(entries, n - 1, rules.accounts, a));
                    let j = choose|j: int|
                        0 <= j < n - 1 && j < entries.len() && (#[trigger] entries[j]).name
                            == PropertyKind::Attendee && attendee_of(j, entries[j], rules.accounts)
                            == Some(a);
                    assert(entries[j].name == PropertyKind::Attendee);
                }
            } else {
                assert(entries[n - 1].name == PropertyKind::Attendee);
            }
        }
    }
}

/// What holds of a document after the first `n` components are read.
pub open spec fn document_sound(
    doc: DocumentView,
    components: Seq<Component>,
    n: int,
    accounts: Seq<Seq<char>>,
) -> bool {
    &&& doc.uid is Some ==> doc.uid.unwrap().len() > 0
    &&& doc.organizer is Some ==> classified_by(doc.organizer.unwrap().email, accounts)
    &&& forall|c: int, j: int|
        0 <= c < n && (#[trigger] components[c]).kind.scheduling() && 0 <= j
            < components[c].entries@.len() && declared_uid(#[trigger] components[c].entries@[j])
            is Some ==> doc.uid == declared_uid(components[c].entries@[j])
    &&& forall|c: int, j: int|
        0 <= c < n && (#[trigger] components[c]).kind.scheduling() && 0 <= j
            < components[c].entries@.len() && declared_organizer(
            j,
            #[trigger] components[c].entries@[j],
            accounts,
        ) is Some ==> doc.organizer is Some && Some(doc.organizer.unwrap().email.address)
            == declared_organizer(j, components[c].entries@[j], accounts)
    &&& doc.has_local_emails ==> has_local(doc.organizer, doc.components)
    &&& forall|k: InstanceKey| #[trigger]
        doc.components.contains_key(k) ==> doc.components[k].instance_id.spec_key() == k
            && doc.components[k].wf() && taken_of(doc.components[k], components, n, accounts)
    &&& doc.components.dom().finite()
    &&& doc.components.len() == scheduling_count(components, n)
}

/// What reading one component does to a document that it does not fail.
pub(crate) proof fn lemma_read_component(
    doc: DocumentView,
    components: Seq<Component>,
    n: int,
    rules: Rules,
)
    requires
        0 <= n < components.len(),
        document_sound(doc, components, n, rules.accounts),
        read_component(doc, n, components[n], rules) is Ok,
    ensures
        document_sound(
            read_component(doc, n, components[n], rules).unwrap(),
            components,
            n + 1,
            rules.accounts,
        ),
{
    let comp = components[n];
    let after = read_component(doc, n, comp, rules).unwrap();
    let accounts = rules.accounts;
    if !comp.kind.scheduling() {
        assert forall|k: InstanceKey| #[trigger] after.components.contains_key(k) implies taken_of(
            after.components[k],
            components,
            n + 1,
            accounts,
        ) by {
            lemma_taken_later(after.components[k], components, n, accounts);
        }
    } else {
        let start = WalkView {
            organizer: doc.organizer,
            uid: doc.uid,
            has_local_emails: doc.has_local_emails,
            snapshot: empty_snapshot(n),
        };
        let entries = comp.entries@;
        let len = entries.len() as int;
        lemma_read_entries(start, entries, len, rules);
        let walk = read_entries(start, entries, len, rules).unwrap();
        let key = walk.snapshot.instance_id.spec_key();
        assert(after.components == doc.components.insert(key, walk.snapshot));
        assert(!doc.components.contains_key(key));
        // Each snapshot is of a component read so far.
        assert forall|k: InstanceKey| #[trigger] after.components.contains_key(k) implies
            after.components[k].instance_id.spec_key() == k && after.components[k].wf()
            && taken_of(after.components[k], components, n + 1, accounts) by {
            if k == key {
                assert(components[n].kind.scheduling());
                assert forall|i: int| 0 <= i < walk.snapshot.attendees.len() implies declared_attendee(
                    components[n].entries@,
                    components[n].entries@.len() as int,
                    accounts,
                    #[trigger] walk.snapshot.attendees[i],
                ) by {}
            } else {
                assert(doc.components.contains_key(k));
                lemma_taken_later(doc.components[k], components, n, accounts);
            }
        }
        // A local address stays, and a new one is the organizer's or an
        // attendee's of this component.
        if after.has_local_emails {
            if doc.has_local_emails {
                if !(doc.organizer is Some && doc.organizer.unwrap().email.is_local) {
                    let (k, i) = choose|k: InstanceKey, i: int|
                        doc.components.contains_key(k) && 0 <= i < doc.components[k].attendees.len()
                            && (#[trigger] doc.components[k].attendees[i]).email.is_local;
                    assert(after.components.contains_key(k));
                    assert(after.components[k].attendees[i].email.is_local);
                }
            } else if !(walk.organizer is Some && walk.organizer.unwrap().email.is_local) {
                let i = choose|i: int|
                    0 <= i < walk.snapshot.attendees.len() && (
                    #[trigger] walk.snapshot.attendees[i]).email.is_local;
                assert(after.components.contains_key(key));
                assert(after.components[key].attendees[i].email.is_local);
            }
        }
        assert(after.components.dom() =~= doc.components.dom().insert(key));
    }
}

/// A snapshot taken of one of the first `n` components is taken of one of
/// the first `n + 1`.
pub(crate) proof fn lemma_taken_later(
    snapshot: ItipSnapshotView,
    components: Seq<Component>,
    n: int,
    accounts: Seq<Seq<char>>,
)
    requires
        taken_of(snapshot, components, n, accounts),
    ensures
        taken_of(snapshot, components, n + 1, accounts),
{
    let c = choose|c: int|
        0 <= c < n && c < components.len() && (#[trigger] components[c]).kind.scheduling()
            && forall|i: int|
            0 <= i < snapshot.attendees.len() ==> declared_attendee(
                components[c].entries@,
                components[c].entries@.len() as int,
                accounts,
                #[trigger] snapshot.attendees[i],
            );
    assert(components[c].kind.scheduling());
}

/// What holds of a document after the first `n` components are read without
/// an error.
pub(crate) proof fn lemma_read_components(components: Seq<Component>, n: int, rules: Rules)
    requires
        0 <= n <= components.len(),
        read_components(empty_document(), components, n, rules) is Ok,
    ensures
        document_sound(
            read_components(empty_document(), components, n, rules).unwrap(),
            components,
            n,
            rules.accounts,
        ),
    decreases n,
{
    if n > 0 {
        lemma_read_components(components, n - 1, rules);
        let before = read_components(empty_document(), components, n - 1, rules).unwrap();
        lemma_read_component(before, components, n - 1, rules);
    }
}

/// The document that an accepted calendar leaves is sound.
pub(crate) proof fn lemma_accepted(components: Seq<Component>, rules: Rules)
    requires
        extraction(components, rules) is Ok,
    ensures
        read_components(empty_document(), components, components.len() as int, rules) is Ok,
        ({
            let doc = read_components(
                empty_document(),
                components,
                components.len() as int,
                rules,
            ).unwrap();
            let snapshots = extraction(components, rules).unwrap();
            &&& doc.has_local_emails
            &&& doc.organizer == Some(snapshots.organizer)
            &&& doc.uid == Some(snapshots.uid)
            &&& doc.components == snapshots.components
            &&& document_sound(doc, components, components.len() as int, rules.accounts)
        }),
{
    lemma_read_components(components, components.len() as int, rules);
}

/// After the parameters are read the two delegation lists of an attendee are
/// what the URIs of the last parameter of each kind classify as.
pub(crate) proof fn lemma_scan_delegates(a: AttendeeView, params: Seq<Param>, accounts: Seq<Seq<char>>)
    requires
        a.delegated_from == Seq::<EmailView>::empty(),
        a.delegated_to == Seq::<EmailView>::empty(),
    ensures
        attendee_scan(a, params, accounts).delegated_from == classified_uris(
            delegated_from_uris(params),
            accounts,
        ),
        attendee_scan(a, params, accounts).delegated_to == classified_uris(
            delegated_to_uris(params),
            accounts,
        ),
    decreases params.len(),
{
    if params.len() > 0 {
        lemma_scan_delegates(a, params.drop_last(), accounts);
    }
}

/// Whether the organizer of a walk is local or an attendee of its snapshot
/// counts as a local party.
pub open spec fn walk_has_local_party(walk: WalkView, force_add_client_scheduling: bool) -> bool {
    (walk.organizer is Some && walk.organizer.unwrap().email.is_local) || exists|i: int|
        0 <= i < walk.snapshot.attendees.len() && counts(
            #[trigger] walk.snapshot.attendees[i],
            force_add_client_scheduling,
        )
}

/// An entry that declares no attendee already there makes a walk say that a
/// local address was met only if a local party is there.
pub(crate) proof fn lemma_entry_counts(walk: WalkView, entry_id: int, entry: Entry, rules: Rules)
    requires
        walk_sound(walk, rules.accounts),
        read_entry(walk, entry_id, entry, rules) is Ok,
        entry.name == PropertyKind::Attendee && attendee_of(entry_id, entry, rules.accounts)
            is Some ==> !has_attendee(
            walk.snapshot.attendees,
            attendee_of(entry_id, entry, rules.accounts).unwrap().email.address,
        ),
    ensures
        ({
            let after = read_entry(walk, entry_id, entry, rules).unwrap();
            let force = rules.force_add_client_scheduling;
            &&& after.has_local_emails ==> walk.has_local_emails || walk_has_local_party(
                after,
                force,
            )
            &&& walk_has_local_party(walk, force) ==> walk_has_local_party(after, force)
        }),
{
    let after = read_entry(walk, entry_id, entry, rules).unwrap();
    let force = rules.force_add_client_scheduling;
    lemma_organizer_classified(entry_id, entry, rules.accounts);
    let before = walk.snapshot.attendees;
    if entry.name == PropertyKind::Attendee {
        match attendee_of(entry_id, entry, rules.accounts) {
            Some(attendee) => {
                assert(after.snapshot.attendees == before.push(attendee));
                assert(after.snapshot.attendees[before.len() as int] == attendee);
                if walk_has_local_party(walk, force) && !(walk.organizer is Some
                    && walk.organizer.unwrap().email.is_local) {
                    let i = choose|i: int|
                        0 <= i < before.len() && counts(#[trigger] before[i], force);
                    assert(after.snapshot.attendees[i] == before[i]);
                }
            },
            None => {},
        }
    } else {
        assert(after.snapshot.attendees == before);
    }
}

/// Where no two ATTENDEE entries declare the same address, a walk from an
/// empty snapshot says that a local address was met only if it was said
/// before or a local party is there.
pub(crate) proof fn lemma_entries_count(walk: WalkView, entries: Seq<Entry>, n: int, rules: Rules)
    requires
        0 <= n <= entries.len(),
        walk_sound(walk, rules.accounts),
        walk.snapshot.attendees.len() == 0,
        distinct_attendees(entries, rules.accounts),
        read_entries(walk, entries, n, rules) is Ok,
    ensures
        ({
            let after = read_entries(walk, entries, n, rules).unwrap();
            let force = rules.force_add_client_scheduling;
            &&& after.has_local_emails ==> walk.has_local_emails || walk_has_local_party(
                after,
                force,
            )
            &&& walk_has_local_party(walk, force) ==> walk_has_local_party(after, force)
        }),
    decreases n,
{
    if n > 0 {
        let mid = read_entries(walk, entries, n - 1, rules).unwrap();
        lemma_entries_count(walk, entries, n - 1, rules);
        lemma_read_entries(walk, entries, n - 1, rules);
        let entry = entries[n - 1];
        if entry.name == PropertyKind::Attendee && attendee_of(n - 1, entry, rules.accounts)
            is Some {
            let address = attendee_of(n - 1, entry, rules.accounts).unwrap().email.address;
            if has_attendee(mid.snapshot.attendees, address) {
                let i = choose|i: int|
                    0 <= i < mid.snapshot.attendees.len() && (
                    #[trigger] mid.snapshot.attendees[i]).email.address == address;
                let a = mid.snapshot.attendees[i];
                assert(declared_attendee(entries, n - 1, rules.accounts, a));
                let j = choose|j: int|
                    0 <= j < n - 1 && j < entries.len() && (#[trigger] entries[j]).name
                        == PropertyKind::Attendee && attendee_of(j, entries[j], rules.accounts)
                        == Some(a);
                // The entries at `j` and at `n - 1` declare the same address,
                // which the distinct declarations rule out.
                assert(entries[j].name == PropertyKind::Attendee && entries[n - 1].name
                    == PropertyKind::Attendee);
                assert(a.email.address != address);
            }
        }
        lemma_entry_counts(mid, n - 1, entry, rules);
    }
}

/// Where every attendee is declared once, a document says that a local
/// address was met only if a local party is there.
pub(crate) proof fn lemma_components_count(components: Seq<Component>, n: int, rules: Rules)
    requires
        0 <= n <= components.len(),
        attendees_declared_once(components, rules.accounts),
        read_components(empty_document(), components, n, rules) is Ok,
    ensures
        ({
            let doc = read_components(empty_document(), components, n, rules).unwrap();
            doc.has_local_emails ==> has_local_party(
                doc.organizer,
                doc.components,
                rules.force_add_client_scheduling,
            )
        }),
    decreases n,
{
    if n > 0 {
        lemma_components_count(components, n - 1, rules);
        lemma_read_components(components, n - 1, rules);
        let doc = read_components(empty_document(), components, n - 1, rules).unwrap();
        let comp = components[n - 1];
        let after = read_component(doc, n - 1, comp, rules).unwrap();
        let force = rules.force_add_client_scheduling;
        if comp.kind.scheduling() {
            let start = WalkView {
                organizer: doc.organizer,
                uid: doc.uid,
                has_local_emails: doc.has_local_emails,
                snapshot: empty_snapshot(n - 1),
            };
            let entries = comp.entries@;
            lemma_read_entries(start, entries, entries.len() as int, rules);
            lemma_entries_count(start, entries, entries.len() as int, rules);
            let walk = read_entries(start, entries, entries.len() as int, rules).unwrap();
            let key = walk.snapshot.instance_id.spec_key();
            assert(after.components == doc.components.insert(key, walk.snapshot));
            if after.has_local_emails {
                if doc.has_local_emails {
                    if !(doc.organizer is Some && doc.organizer.unwrap().email.is_local) {
                        let (k, i) = choose|k: InstanceKey, i: int|
                            doc.components.contains_key(k) && 0 <= i
                                < doc.components[k].attendees.len() && counts(
                                #[trigger] doc.components[k].attendees[i],
                                force,
                            );
                        assert(after.components.contains_key(k));
                        assert(counts(after.components[k].attendees[i], force));
                    }
                } else if !(walk.organizer is Some && walk.organizer.unwrap().email.is_local) {
                    let i = choose|i: int|
                        0 <= i < walk.snapshot.attendees.len() && counts(
                            #[trigger] walk.snapshot.attendees[i],
                            force,
                        );
                    assert(after.components.contains_key(key));
                    assert(counts(after.components[key].attendees[i], force));
                }
            }
        }
    }
}

/// After the parameters are read the server schedules for an organizer
/// exactly if it did before and no parameter names the client as the agent.
pub(crate) proof fn lemma_organizer_agent(o: OrganizerView, params: Seq<Param>)
    ensures
        organizer_scan(o, params).is_server_scheduling == (o.is_server_scheduling && !names_client(
            params,
        )),
    decreases params.len(),
{
    if params.len() > 0 {
        let before = params.drop_last();
        lemma_organizer_agent(o, before);
        if names_client(before) {
            let i = choose|i: int|
                0 <= i < before.len() && #[trigger] before[i] == Param::ScheduleAgent(
                    ScheduleAgent::Client,
                );
            assert(params[i] == before[i]);
        }
        if names_client(params) && params.last() != Param::ScheduleAgent(ScheduleAgent::Client) {
            let i = choose|i: int|
                0 <= i < params.len() && #[trigger] params[i] == Param::ScheduleAgent(
                    ScheduleAgent::Client,
                );
            assert(before[i] == params[i]);
        }
    }
}

/// After the parameters are read the server schedules for an attendee
/// exactly if it did before and no parameter names the client as the agent.
pub(crate) proof fn lemma_attendee_agent(a: AttendeeView, params: Seq<Param>, accounts: Seq<Seq<char>>)
    ensures
        attendee_scan(a, params, accounts).is_server_scheduling == (a.is_server_scheduling
            && !names_client(params)),
    decreases params.len(),
{
    if params.len() > 0 {
        let before = params.drop_last();
        lemma_attendee_agent(a, before, accounts);
        if names_client(before) {
            let i = choose|i: int|
                0 <= i < before.len() && #[trigger] before[i] == Param::ScheduleAgent(
                    ScheduleAgent::Client,
                );
            assert(params[i] == before[i]);
        }
        if names_client(params) && params.last() != Param::ScheduleAgent(ScheduleAgent::Client) {
            let i = choose|i: int|
                0 <= i < params.len() && #[trigger] params[i] == Param::ScheduleAgent(
                    ScheduleAgent::Client,
                );
            assert(before[i] == params[i]);
        }
    }
}

} // verus!
