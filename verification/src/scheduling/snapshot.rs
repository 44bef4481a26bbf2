//! The snapshot of a scheduling object: one record for each instance, read
//! from the components of a calendar in document order.

use vstd::prelude::*;
use ahash::AHashMap;
use calcard::icalendar::ICalendar;
use crate::scheduling::calendar::{
    first_date_time, first_integer, first_text, first_tzid, Calendar, Component, ComponentKind,
    Entry, Param, PartialDateTime, PropertyKind,
};
use crate::scheduling::email::texts;
use crate::scheduling::entries::{
    entries_view, insert_values, string_view, with_values, ItipEntry, ItipEntryView,
};
use crate::scheduling::instance::{
    count_instances, get_instance, insert_instance, instances_of, new_instances, InstanceId,
    InstanceKey, RecurrenceId,
};
use crate::scheduling::laws::lemma_well_formed;
use crate::scheduling::participants::{
    attendee_of, ordinal, organizer_of, organizer_view, position, Attendee, AttendeeView,
    Organizer, OrganizerView,
};
use crate::scheduling::time::{text_of, timestamp, timestamp_of};
use crate::text::{trim, trimmed};

verus! {

/// Why no snapshot can be taken of a calendar object.
#[derive(Clone, Copy, Debug, PartialEq, Eq, Structural)]
pub enum ItipError {
    /// No scheduling component declares an organizer.
    NoSchedulingInfo,
    /// Scheduling components of different kinds stand together.
    MultipleObjectTypes,
    /// Two organizers with different addresses.
    MultipleOrganizer,
    /// Two different UIDs.
    MultipleUid,
    /// Two components describe the same instance.
    MultipleObjectInstances,
    /// No component declares a UID.
    MissingUid,
    /// The organizer does its own scheduling and this was not allowed.
    OtherSchedulingAgent,
    /// None of the account's addresses takes part.
    NotOrganizerNorAttendee,
}

/// The values of a list of attendees, in order.
pub open spec fn attendees_view(v: Seq<Attendee>) -> Seq<AttendeeView> {
    v.map_values(|a: Attendee| a@)
}

/// What scheduling reads of one component.
#[derive(Clone, Debug)]
pub struct ItipSnapshot {
    /// The position of the component in its calendar.
    pub comp_id: u16,
    /// The instance that the component describes.
    pub instance_id: InstanceId,
    /// The attendees, each address once, in the order of their first mention.
    pub attendees: Vec<Attendee>,
    pub dtstamp: Option<PartialDateTime>,
    /// The compared property values, each once, in the order of their first
    /// mention.
    pub entries: Vec<ItipEntry>,
    pub sequence: Option<i64>,
    pub request_status: Vec<String>,
}

/// The mathematical value of an [`ItipSnapshot`].
pub struct ItipSnapshotView {
    pub comp_id: u16,
    pub instance_id: InstanceId,
    pub attendees: Seq<AttendeeView>,
    pub dtstamp: Option<PartialDateTime>,
    pub entries: Seq<ItipEntryView>,
    pub sequence: Option<i64>,
    pub request_status: Seq<Seq<char>>,
}

impl View for ItipSnapshot {
    type V = ItipSnapshotView;

    open spec fn view(&self) -> ItipSnapshotView {
        ItipSnapshotView {
            comp_id: self.comp_id,
            instance_id: self.instance_id,
            attendees: attendees_view(self.attendees@),
            dtstamp: self.dtstamp,
            entries: entries_view(self.entries@),
            sequence: self.sequence,
            request_status: texts(self.request_status@),
        }
    }
}

/// Whether no two of `attendees` have the same address.
pub open spec fn distinct_addresses(attendees: Seq<AttendeeView>) -> bool {
    forall|i: int, j: int|
        0 <= i < j < attendees.len() ==> (#[trigger] attendees[i]).email.address != (
        #[trigger] attendees[j]).email.address
}

impl ItipSnapshotView {
    /// Whether the attendees and the entries are sets: no address and no
    /// entry occurs twice.
    pub open spec fn wf(self) -> bool {
        distinct_addresses(self.attendees) && self.entries.no_duplicates()
    }
}

/// The values of the snapshots of a map of instances.
pub open spec fn instances_view(m: Map<InstanceKey, ItipSnapshot>) -> Map<
    InstanceKey,
    ItipSnapshotView,
> {
    m.map_values(|s: ItipSnapshot| s@)
}

/// The snapshots of all instances of one scheduling object.
#[derive(Debug)]
pub struct ItipSnapshots {
    pub organizer: Organizer,
    pub uid: String,
    /// The snapshot of each instance, under the identity of the instance.
    pub components: AHashMap<InstanceKey, ItipSnapshot>,
}

/// The mathematical value of [`ItipSnapshots`].
pub struct ItipSnapshotsView {
    pub organizer: OrganizerView,
    pub uid: Seq<char>,
    pub components: Map<InstanceKey, ItipSnapshotView>,
}

impl View for ItipSnapshots {
    type V = ItipSnapshotsView;

    open spec fn view(&self) -> ItipSnapshotsView {
        ItipSnapshotsView {
            organizer: self.organizer@,
            uid: self.uid@,
            components: instances_view(instances_of(self.components)),
        }
    }
}

impl ItipSnapshotsView {
    /// Whether the snapshots are those of one scheduling object: the UID is
    /// not empty, and each snapshot is well formed and stands under the
    /// identity of its own instance.
    pub open spec fn wf(self) -> bool {
        &&& self.uid.len() > 0
        &&& self.components.dom().finite()
        &&& forall|k: InstanceKey| #[trigger]
            self.components.contains_key(k) ==> self.components[k].instance_id.spec_key() == k
                && self.components[k].wf()
    }
}

/// What governs an extraction: the account's addresses, whether participants
/// that do their own scheduling are accepted, and the document that defines
/// the time zones.
pub struct Rules {
    pub accounts: Seq<Seq<char>>,
    pub force_add_client_scheduling: bool,
    pub zones: ICalendar,
}

/// The state of the walk through a scheduling component: what is known of the
/// whole document so far, and the snapshot of the component being read.
#[derive(Debug)]
pub struct Walk {
    pub organizer: Option<Organizer>,
    pub uid: Option<String>,
    pub has_local_emails: bool,
    pub snapshot: ItipSnapshot,
}

/// The mathematical value of a [`Walk`].
pub struct WalkView {
    pub organizer: Option<OrganizerView>,
    pub uid: Option<Seq<char>>,
    pub has_local_emails: bool,
    pub snapshot: ItipSnapshotView,
}

impl View for Walk {
    type V = WalkView;

    open spec fn view(&self) -> WalkView {
        WalkView {
            organizer: organizer_view(self.organizer),
            uid: string_view(self.uid),
            has_local_emails: self.has_local_emails,
            snapshot: self.snapshot@,
        }
    }
}

/// The value of a walk that may have failed.
pub open spec fn walk_view(r: Result<Walk, ItipError>) -> Result<WalkView, ItipError> {
    match r {
        Ok(walk) => Ok(walk@),
        Err(e) => Err(e),
    }
}

/// Whether one of `attendees` has the address `address`.
pub open spec fn has_attendee(attendees: Seq<AttendeeView>, address: Seq<char>) -> bool {
    exists|i: int| 0 <= i < attendees.len() && (#[trigger] attendees[i]).email.address == address
}

/// The attendees after `a` is inserted: unchanged if one of them has the
/// address of `a` already.
pub open spec fn with_attendee(attendees: Seq<AttendeeView>, a: AttendeeView) -> Seq<AttendeeView> {
    if has_attendee(attendees, a.email.address) {
        attendees
    } else {
        attendees.push(a)
    }
}

/// The identifier of the last TZID parameter among `params`.
pub open spec fn last_tzid(params: Seq<Param>) -> Option<Seq<char>>
    decreases params.len(),
{
    if params.len() == 0 {
        None
    } else {
        match params.last() {
            Param::Tzid(id) => Some(id@),
            _ => last_tzid(params.drop_last()),
        }
    }
}

/// Whether a RANGE parameter is among `params`.
pub open spec fn has_range(params: Seq<Param>) -> bool {
    exists|i: int| 0 <= i < params.len() && #[trigger] params[i] is Range
}

/// The override that a RECURRENCE-ID entry at position `entry_id` names: none
/// unless its first value is a date-time; else the instant of that date-time
/// in the zone of the entry's last TZID parameter, for this and all later
/// occurrences if a RANGE parameter is there.
pub open spec fn recurrence_of(entry_id: int, entry: Entry, zones: ICalendar) -> Option<RecurrenceId> {
    match first_date_time(entry) {
        Some(date) => Some(
            RecurrenceId {
                entry_id: ordinal(entry_id),
                date: timestamp_of(zones, date, last_tzid(entry.params@)),
                this_and_future: has_range(entry.params@),
            },
        ),
        None => None,
    }
}

/// The snapshot of the component at position `comp_id` before any entry is
/// read.
pub open spec fn empty_snapshot(comp_id: int) -> ItipSnapshotView {
    ItipSnapshotView {
        comp_id: ordinal(comp_id),
        instance_id: InstanceId::Main,
        attendees: Seq::empty(),
        dtstamp: None,
        entries: Seq::empty(),
        sequence: None,
        request_status: Seq::empty(),
    }
}

/// The walk after the entry at position `entry_id` of the component is read,
/// or the error that the entry raises.
pub open spec fn read_entry(walk: WalkView, entry_id: int, entry: Entry, rules: Rules) -> Result<
    WalkView,
    ItipError,
> {
    let snapshot = walk.snapshot;
    match entry.name {
        PropertyKind::Organizer => match organizer_of(entry_id, entry, rules.accounts) {
            Some(organizer) => {
                if !organizer.is_server_scheduling && !rules.force_add_client_scheduling {
                    Err(ItipError::OtherSchedulingAgent)
                } else {
                    match walk.organizer {
                        Some(first) => if first.email.address != organizer.email.address {
                            Err(ItipError::MultipleOrganizer)
                        } else {
                            Ok(
                                WalkView {
                                    has_local_emails: walk.has_local_emails
                                        || organizer.email.is_local,
                                    ..walk
                                },
                            )
                        },
                        None => Ok(
                            WalkView {
                                organizer: Some(organizer),
                                has_local_emails: walk.has_local_emails
                                    || organizer.email.is_local,
                                ..walk
                            },
                        ),
                    }
                }
            },
            None => Ok(walk),
        },
        PropertyKind::Attendee => match attendee_of(entry_id, entry, rules.accounts) {
            Some(attendee) => Ok(
                WalkView {
                    has_local_emails: walk.has_local_emails || (attendee.email.is_local && (
                    rules.force_add_client_scheduling || attendee.is_server_scheduling)),
                    snapshot: ItipSnapshotView {
                        attendees: with_attendee(snapshot.attendees, attendee),
                        ..snapshot
                    },
                    ..walk
                },
            ),
            None => Ok(walk),
        },
        PropertyKind::Uid => match first_text(entry) {
            Some(text) => {
                let uid = trimmed(text);
                if uid.len() == 0 {
                    Ok(walk)
                } else {
                    match walk.uid {
                        Some(first) => if first != uid {
                            Err(ItipError::MultipleUid)
                        } else {
                            Ok(walk)
                        },
                        None => Ok(WalkView { uid: Some(uid), ..walk }),
                    }
                }
            },
            None => Ok(walk),
        },
        PropertyKind::Sequence => match first_integer(entry) {
            Some(sequence) => Ok(
                WalkView {
                    snapshot: ItipSnapshotView { sequence: Some(sequence), ..snapshot },
                    ..walk
                },
            ),
            None => Ok(walk),
        },
        PropertyKind::RecurrenceId => match recurrence_of(entry_id, entry, rules.zones) {
            Some(recurrence) => Ok(
                WalkView {
                    snapshot: ItipSnapshotView {
                        instance_id: InstanceId::Recurrence(recurrence),
                        ..snapshot
                    },
                    ..walk
                },
            ),
            None => Ok(walk),
        },
        PropertyKind::RequestStatus => match first_text(entry) {
            Some(text) => Ok(
                WalkView {
                    snapshot: ItipSnapshotView {
                        request_status: snapshot.request_status.push(text),
                        ..snapshot
                    },
                    ..walk
                },
            ),
            None => Ok(walk),
        },
        PropertyKind::Dtstamp => Ok(
            WalkView {
                snapshot: ItipSnapshotView { dtstamp: first_date_time(entry), ..snapshot },
                ..walk
            },
        ),
        name => if name.compared() {
            Ok(
                WalkView {
                    snapshot: ItipSnapshotView {
                        entries: with_values(
                            snapshot.entries,
                            name,
                            entry.values@,
                            first_tzid(entry.params@),
                            rules.zones,
                        ),
                        ..snapshot
                    },
                    ..walk
                },
            )
        } else {
            Ok(walk)
        },
    }
}

/// The walk after the first `n` of `entries` are read in order, or the first
/// error that one of them raises.
pub open spec fn read_entries(walk: WalkView, entries: Seq<Entry>, n: int, rules: Rules) -> Result<
    WalkView,
    ItipError,
>
    decreases n,
{
    if n <= 0 {
        Ok(walk)
    } else {
        match read_entries(walk, entries, n - 1, rules) {
            Ok(before) => read_entry(before, n - 1, entries[n - 1], rules),
            Err(e) => Err(e),
        }
    }
}

/// Whether one of `attendees` has the address `address`.
pub fn holds_attendee(attendees: &Vec<Attendee>, address: &String) -> (r: bool)
    ensures
        r == has_attendee(attendees_view(attendees@), address@),
{
    let mut i: usize = 0;
    while i < attendees.len()
        invariant
            i <= attendees.len(),
            forall|j: int|
                0 <= j < i ==> (#[trigger] attendees_view(attendees@)[j]).email.address
                    != address@,
        decreases attendees.len() - i,
    {
        if attendees[i].email.address == *address {
            assert(attendees_view(attendees@)[i as int].email.address == address@);
            return true;
        }
        i += 1;
    }
    false
}

/// Inserts `a` among `attendees` unless one of them has its address already.
pub fn insert_attendee(attendees: &mut Vec<Attendee>, a: Attendee)
    ensures
        attendees_view(final(attendees)@) == with_attendee(attendees_view(old(attendees)@), a@),
{
    if !holds_attendee(attendees, &a.email.address) {
        let ghost before = attendees@;
        attendees.push(a);
        assert(attendees_view(attendees@) =~= attendees_view(before).push(a@));
    }
}

impl RecurrenceId {
    /// Reads the override that the RECURRENCE-ID entry `entry`, at position
    /// `entry_id` of its component, names.
    pub fn from_entry(entry_id: usize, entry: &Entry, zones: &ICalendar) -> (r: Option<RecurrenceId>)
        ensures
            r == recurrence_of(entry_id as int, *entry, *zones),
    {
        let date = match entry.date_time() {
            Some(date) => date,
            None => {
                return None;
            },
        };
        let mut this_and_future = false;
        let mut tz_id: Option<&str> = None;
        let mut i: usize = 0;
        assert(entry.params@.take(0) =~= Seq::<Param>::empty());
        while i < entry.params.len()
            invariant
                i <= entry.params.len(),
                text_of(tz_id) == last_tzid(entry.params@.take(i as int)),
                this_and_future == has_range(entry.params@.take(i as int)),
            decreases entry.params.len() - i,
        {
            proof {
                let before = entry.params@.take(i as int);
                let next = entry.params@.take(i + 1);
                assert(next.drop_last() =~= before);
                assert(next.last() == entry.params@[i as int]);
                assert(next[i as int] == entry.params@[i as int]);
                if has_range(before) {
                    let j = choose|j: int| 0 <= j < before.len() && #[trigger] before[j] is Range;
                    assert(next[j] is Range);
                }
                if has_range(next) && !(entry.params@[i as int] is Range) {
                    let j = choose|j: int| 0 <= j < next.len() && #[trigger] next[j] is Range;
                    assert(before[j] is Range);
                }
            }
            match &entry.params[i] {
                Param::Tzid(id) => {
                    tz_id = Some(id.as_str());
                },
                Param::Range => {
                    this_and_future = true;
                },
                _ => {},
            }
            i += 1;
        }
        assert(entry.params@.take(entry.params.len() as int) =~= entry.params@);
        Some(
            RecurrenceId {
                entry_id: position(entry_id),
                date: timestamp(zones, &date, tz_id),
                this_and_future,
            },
        )
    }
}

impl Walk {
    /// Reads the entry at position `entry_id` of the component into the walk.
    pub fn read_entry(
        self,
        entry_id: usize,
        entry: &Entry,
        accounts: &[String],
        force_add_client_scheduling: bool,
        zones: &ICalendar,
    ) -> (r: Result<Walk, ItipError>)
        ensures
            walk_view(r) == read_entry(
                self@,
                entry_id as int,
                *entry,
                Rules { accounts: texts(accounts@), force_add_client_scheduling, zones: *zones },
            ),
    {
        let mut walk = self;
        match entry.name {
            PropertyKind::Organizer => {
                match Organizer::from_entry(entry_id, entry, accounts) {
                    Some(part) => {
                        if !part.is_server_scheduling && !force_add_client_scheduling {
                            return Err(ItipError::OtherSchedulingAgent);
                        }
                        let is_local = part.email.is_local;
                        match &walk.organizer {
                            Some(first) => {
                                if !(first.email.address == part.email.address) {
                                    return Err(ItipError::MultipleOrganizer);
                                }
                            },
                            None => {
                                walk.organizer = Some(part);
                            },
                        }
                        walk.has_local_emails = walk.has_local_emails || is_local;
                    },
                    None => {},
                }
            },
            PropertyKind::Attendee => {
                match Attendee::from_entry(entry_id, entry, accounts) {
                    Some(part) => {
                        walk.has_local_emails = walk.has_local_emails || (part.email.is_local && (
                        force_add_client_scheduling || part.is_server_scheduling));
                        insert_attendee(&mut walk.snapshot.attendees, part);
                    },
                    None => {},
                }
            },
            PropertyKind::Uid => {
                match entry.text() {
                    Some(text) => {
                        let uid = trim(text);
                        if uid.as_str().unicode_len() > 0 {
                            match &walk.uid {
                                Some(first) => {
                                    if !(*first == uid) {
                                        return Err(ItipError::MultipleUid);
                                    }
                                },
                                None => {
                                    walk.uid = Some(uid);
                                },
                            }
                        }
                    },
                    None => {},
                }
            },
            PropertyKind::Sequence => {
                match entry.integer() {
                    Some(sequence) => {
                        walk.snapshot.sequence = Some(sequence);
                    },
                    None => {},
                }
            },
            PropertyKind::RecurrenceId => {
                match RecurrenceId::from_entry(entry_id, entry, zones) {
                    Some(recurrence) => {
                        walk.snapshot.instance_id = InstanceId::Recurrence(recurrence);
                    },
                    None => {},
                }
            },
            PropertyKind::RequestStatus => {
                match entry.text() {
                    Some(text) => {
                        let ghost before = walk.snapshot.request_status@;
                        let status = text.to_owned();
                        walk.snapshot.request_status.push(status);
                        assert(texts(walk.snapshot.request_status@) =~= texts(before).push(text@));
                    },
                    None => {},
                }
            },
            PropertyKind::Dtstamp => {
                walk.snapshot.dtstamp = entry.date_time();
            },
            name => {
                if name.is_compared() {
                    insert_values(
                        &mut walk.snapshot.entries,
                        name,
                        &entry.values,
                        entry.tz_id(),
                        zones,
                    );
                }
            },
        }
        Ok(walk)
    }

    /// Reads all entries of a component into the walk, in order, and stops at
    /// the first error.
    pub fn read_entries(
        self,
        entries: &Vec<Entry>,
        accounts: &[String],
        force_add_client_scheduling: bool,
        zones: &ICalendar,
    ) -> (r: Result<Walk, ItipError>)
        ensures
            walk_view(r) == read_entries(
                self@,
                entries@,
                entries@.len() as int,
                Rules { accounts: texts(accounts@), force_add_client_scheduling, zones: *zones },
            ),
    {
        let ghost start = self@;
        let ghost rules = Rules {
            accounts: texts(accounts@),
            force_add_client_scheduling,
            zones: *zones,
        };
        let mut walk = self;
        let mut i: usize = 0;
        while i < entries.len()
            invariant
                i <= entries.len(),
                start == self@,
                rules == (Rules {
                    accounts: texts(accounts@),
                    force_add_client_scheduling,
                    zones: *zones,
                }),
                read_entries(start, entries@, i as int, rules) == Ok::<WalkView, ItipError>(walk@),
            decreases entries.len() - i,
        {
            match walk.read_entry(i, &entries[i], accounts, force_add_client_scheduling, zones) {
                Ok(next) => {
                    walk = next;
                },
                Err(e) => {
                    proof {
                        lemma_error_stays(start, entries@, i + 1, entries@.len() as int, rules);
                    }
                    return Err(e);
                },
            }
            i += 1;
        }
        Ok(walk)
    }
}

/// An error raised among the first `n` entries is the outcome of reading any
/// longer prefix too.
pub proof fn lemma_error_stays(walk: WalkView, entries: Seq<Entry>, n: int, m: int, rules: Rules)
    requires
        0 <= n <= m,
        read_entries(walk, entries, n, rules) is Err,
    ensures
        read_entries(walk, entries, m, rules) == read_entries(walk, entries, n, rules),
    decreases m - n,
{
    if n < m {
        lemma_error_stays(walk, entries, n, m - 1, rules);
    }
}

/// Whether a component holds an ORGANIZER entry.
pub open spec fn declares_organizer(comp: Component) -> bool {
    exists|e: int|
        0 <= e < comp.entries@.len() && (#[trigger] comp.entries@[e]).name
            == PropertyKind::Organizer
}

/// Whether one of `components` is a scheduling component that holds an
/// ORGANIZER entry.
pub open spec fn has_scheduling_info(components: Seq<Component>) -> bool {
    exists|c: int|
        0 <= c < components.len() && (#[trigger] components[c]).kind.scheduling()
            && declares_organizer(components[c])
}

/// The state of the walk through a document: what is known of the scheduling
/// object so far, the kind of its components, and the snapshots taken.
#[derive(Debug)]
pub struct Document {
    pub organizer: Option<Organizer>,
    pub uid: Option<String>,
    pub has_local_emails: bool,
    pub kind: Option<ComponentKind>,
    pub components: AHashMap<InstanceKey, ItipSnapshot>,
}

/// The mathematical value of a [`Document`].
pub struct DocumentView {
    pub organizer: Option<OrganizerView>,
    pub uid: Option<Seq<char>>,
    pub has_local_emails: bool,
    pub kind: Option<ComponentKind>,
    pub components: Map<InstanceKey, ItipSnapshotView>,
}

impl View for Document {
    type V = DocumentView;

    open spec fn view(&self) -> DocumentView {
        DocumentView {
            organizer: organizer_view(self.organizer),
            uid: string_view(self.uid),
            has_local_emails: self.has_local_emails,
            kind: self.kind,
            components: instances_view(instances_of(self.components)),
        }
    }
}

/// The value of a document walk that may have failed.
pub open spec fn document_view(r: Result<Document, ItipError>) -> Result<DocumentView, ItipError> {
    match r {
        Ok(doc) => Ok(doc@),
        Err(e) => Err(e),
    }
}

/// The document of which nothing is read yet.
pub open spec fn empty_document() -> DocumentView {
    DocumentView {
        organizer: None,
        uid: None,
        has_local_emails: false,
        kind: None,
        components: Map::empty(),
    }
}

/// The document after the component at position `comp_id` is read, or the
/// error that the component raises. A component that is no scheduling
/// component changes nothing. A scheduling component must be of the kind of
/// those before it; its entries are read in order; its snapshot must be the
/// first of its instance.
pub open spec fn read_component(doc: DocumentView, comp_id: int, comp: Component, rules: Rules) -> Result<
    DocumentView,
    ItipError,
> {
    if !comp.kind.scheduling() {
        Ok(doc)
    } else if doc.kind is Some && doc.kind != Some(comp.kind) {
        Err(ItipError::MultipleObjectTypes)
    } else {
        let start = WalkView {
            organizer: doc.organizer,
            uid: doc.uid,
            has_local_emails: doc.has_local_emails,
            snapshot: empty_snapshot(comp_id),
        };
        match read_entries(start, comp.entries@, comp.entries@.len() as int, rules) {
            Ok(walk) => {
                let key = walk.snapshot.instance_id.spec_key();
                if doc.components.contains_key(key) {
                    Err(ItipError::MultipleObjectInstances)
                } else {
                    Ok(
                        DocumentView {
                            organizer: walk.organizer,
                            uid: walk.uid,
                            has_local_emails: walk.has_local_emails,
                            kind: Some(comp.kind),
                            components: doc.components.insert(key, walk.snapshot),
                        },
                    )
                }
            },
            Err(e) => Err(e),
        }
    }
}

/// The document after the first `n` of `components` are read in order, or the
/// first error that one of them raises.
pub open spec fn read_components(
    doc: DocumentView,
    components: Seq<Component>,
    n: int,
    rules: Rules,
) -> Result<DocumentView, ItipError>
    decreases n,
{
    if n <= 0 {
        Ok(doc)
    } else {
        match read_components(doc, components, n - 1, rules) {
            Ok(before) => read_component(before, n - 1, components[n - 1], rules),
            Err(e) => Err(e),
        }
    }
}

/// What the extraction from `components` yields under `rules`.
///
/// Without a scheduling component that holds an ORGANIZER entry there is
/// nothing to extract. Else the components are read in document order and
/// the first error among them is the outcome. After that one of the account's
/// addresses must have been met, an organizer must have been read, and a UID.
pub open spec fn extraction(components: Seq<Component>, rules: Rules) -> Result<
    ItipSnapshotsView,
    ItipError,
> {
    if !has_scheduling_info(components) {
        Err(ItipError::NoSchedulingInfo)
    } else {
        match read_components(empty_document(), components, components.len() as int, rules) {
            Ok(doc) => {
                if !doc.has_local_emails {
                    Err(ItipError::NotOrganizerNorAttendee)
                } else if doc.organizer is None {
                    Err(ItipError::NoSchedulingInfo)
                } else if doc.uid is None {
                    Err(ItipError::MissingUid)
                } else {
                    Ok(
                        ItipSnapshotsView {
                            organizer: doc.organizer.unwrap(),
                            uid: doc.uid.unwrap(),
                            components: doc.components,
                        },
                    )
                }
            },
            Err(e) => Err(e),
        }
    }
}

/// The value of an extraction that may have failed.
pub open spec fn snapshots_view(r: Result<ItipSnapshots, ItipError>) -> Result<
    ItipSnapshotsView,
    ItipError,
> {
    match r {
        Ok(s) => Ok(s@),
        Err(e) => Err(e),
    }
}

/// An error raised among the first `n` components is the outcome of reading
/// any longer prefix too.
pub proof fn lemma_component_error_stays(
    doc: DocumentView,
    components: Seq<Component>,
    n: int,
    m: int,
    rules: Rules,
)
    requires
        0 <= n <= m,
        read_components(doc, components, n, rules) is Err,
    ensures
        read_components(doc, components, m, rules) == read_components(doc, components, n, rules),
    decreases m - n,
{
    if n < m {
        lemma_component_error_stays(doc, components, n, m - 1, rules);
    }
}

impl Component {
    /// Whether the component holds an ORGANIZER entry.
    pub fn has_organizer(&self) -> (r: bool)
        ensures
            r == declares_organizer(*self),
    {
        let mut i: usize = 0;
        while i < self.entries.len()
            invariant
                i <= self.entries.len(),
                forall|e: int|
                    0 <= e < i ==> (#[trigger] self.entries@[e]).name != PropertyKind::Organizer,
            decreases self.entries.len() - i,
        {
            if self.entries[i].name == PropertyKind::Organizer {
                return true;
            }
            i += 1;
        }
        false
    }
}

impl Calendar {
    /// Whether a scheduling component of the calendar holds an ORGANIZER entry.
    pub fn has_scheduling_info(&self) -> (r: bool)
        ensures
            r == has_scheduling_info(self.components@),
    {
        let mut i: usize = 0;
        while i < self.components.len()
            invariant
                i <= self.components.len(),
                forall|c: int|
                    0 <= c < i ==> !((#[trigger] self.components@[c]).kind.scheduling()
                        && declares_organizer(self.components@[c])),
            decreases self.components.len() - i,
        {
            if self.components[i].kind.is_scheduling_object() && self.components[i].has_organizer() {
                return true;
            }
            i += 1;
        }
        false
    }
}

impl ItipSnapshot {
    /// The snapshot of the component at position `comp_id`, of which no entry
    /// is read yet.
    pub fn new(comp_id: usize) -> (r: ItipSnapshot)
        ensures
            r@ == empty_snapshot(comp_id as int),
    {
        let r = ItipSnapshot {
            comp_id: position(comp_id),
            instance_id: InstanceId::Main,
            attendees: Vec::new(),
            dtstamp: None,
            entries: Vec::new(),
            sequence: None,
            request_status: Vec::new(),
        };
        assert(attendees_view(r.attendees@) =~= Seq::<AttendeeView>::empty());
        assert(entries_view(r.entries@) =~= Seq::<ItipEntryView>::empty());
        assert(texts(r.request_status@) =~= Seq::<Seq<char>>::empty());
        r
    }
}

impl Document {
    /// The document of which nothing is read yet.
    pub fn new() -> (r: Document)
        ensures
            r@ == empty_document(),
    {
        let r = Document {
            organizer: None,
            uid: None,
            has_local_emails: false,
            kind: None,
            components: new_instances(),
        };
        assert(r@.components =~= Map::<InstanceKey, ItipSnapshotView>::empty());
        r
    }

    /// Reads the component at position `comp_id` of the calendar into the
    /// document.
    pub fn read_component(
        self,
        comp_id: usize,
        comp: &Component,
        accounts: &[String],
        force_add_client_scheduling: bool,
        zones: &ICalendar,
    ) -> (r: Result<Document, ItipError>)
        ensures
            document_view(r) == read_component(
                self@,
                comp_id as int,
                *comp,
                Rules { accounts: texts(accounts@), force_add_client_scheduling, zones: *zones },
            ),
    {
        if !comp.kind.is_scheduling_object() {
            return Ok(self);
        }
        match self.kind {
            Some(kind) => {
                if !(kind == comp.kind) {
                    return Err(ItipError::MultipleObjectTypes);
                }
            },
            None => {},
        }
        let ghost before = self@;
        let mut components = self.components;
        let walk = Walk {
            organizer: self.organizer,
            uid: self.uid,
            has_local_emails: self.has_local_emails,
            snapshot: ItipSnapshot::new(comp_id),
        };
        match walk.read_entries(&comp.entries, accounts, force_add_client_scheduling, zones) {
            Ok(walk) => {
                let key = walk.snapshot.instance_id.key();
                let ghost held = instances_of(components);
                let ghost snapshot = walk.snapshot;
                match insert_instance(&mut components, key, walk.snapshot) {
                    Some(_) => Err(ItipError::MultipleObjectInstances),
                    None => {
                        let doc = Document {
                            organizer: walk.organizer,
                            uid: walk.uid,
                            has_local_emails: walk.has_local_emails,
                            kind: Some(comp.kind),
                            components,
                        };
                        assert(doc@.components =~= before.components.insert(key, snapshot@));
                        Ok(doc)
                    },
                }
            },
            Err(e) => Err(e),
        }
    }
}

/// Takes the snapshot of the scheduling object that `ical` holds.
///
/// `account_emails` are the addresses of the account, in normalized form;
/// `force_add_client_scheduling` accepts participants that do their own
/// scheduling. The outcome is exactly [`extraction`]: the snapshots of all
/// instances, or the first reason in document order why there is none. The
/// snapshots are well formed.
pub fn itip_snapshot(
    ical: &Calendar,
    account_emails: &[String],
    force_add_client_scheduling: bool,
) -> (r: Result<ItipSnapshots, ItipError>)
    ensures
        snapshots_view(r) == extraction(
            ical.components@,
            Rules {
                accounts: texts(account_emails@),
                force_add_client_scheduling,
                zones: ical.zones,
            },
        ),
        r matches Ok(snapshots) ==> snapshots@.wf(),
{
    if !ical.has_scheduling_info() {
        return Err(ItipError::NoSchedulingInfo);
    }
    let ghost rules = Rules {
        accounts: texts(account_emails@),
        force_add_client_scheduling,
        zones: ical.zones,
    };
    let mut doc = Document::new();
    let mut i: usize = 0;
    while i < ical.components.len()
        invariant
            i <= ical.components.len(),
            has_scheduling_info(ical.components@),
            rules == (Rules {
                accounts: texts(account_emails@),
                force_add_client_scheduling,
                zones: ical.zones,
            }),
            read_components(empty_document(), ical.components@, i as int, rules) == Ok::<
                DocumentView,
                ItipError,
            >(doc@),
        decreases ical.components.len() - i,
    {
        match doc.read_component(
            i,
            &ical.components[i],
            account_emails,
            force_add_client_scheduling,
            &ical.zones,
        ) {
            Ok(next) => {
                doc = next;
            },
            Err(e) => {
                proof {
                    lemma_component_error_stays(
                        empty_document(),
                        ical.components@,
                        i + 1,
                        ical.components@.len() as int,
                        rules,
                    );
                }
                return Err(e);
            },
        }
        i += 1;
    }
    if !doc.has_local_emails {
        return Err(ItipError::NotOrganizerNorAttendee);
    }
    let organizer = match doc.organizer {
        Some(organizer) => organizer,
        None => {
            return Err(ItipError::NoSchedulingInfo);
        },
    };
    let uid = match doc.uid {
        Some(uid) => uid,
        None => {
            return Err(ItipError::MissingUid);
        },
    };
    proof {
        lemma_well_formed(ical.components@, rules);
    }
    Ok(ItipSnapshots { organizer, uid, components: doc.components })
}

impl ItipSnapshot {
    /// The first attendee whose address is `email`, if there is one.
    pub fn attendee_by_email(&self, email: &str) -> (r: Option<&Attendee>)
        ensures
            match r {
                Some(attendee) => exists|i: int|
                    0 <= i < self.attendees@.len() && *attendee == #[trigger] self.attendees@[i]
                        && attendee.email.address@ == email@ && forall|j: int|
                        0 <= j < i ==> (#[trigger] self.attendees@[j]).email.address@ != email@,
                None => forall|i: int|
                    0 <= i < self.attendees@.len() ==> (#[trigger] self.attendees@[i]).email.address@
                        != email@,
            },
    {
        let address = email.to_owned();
        let mut i: usize = 0;
        while i < self.attendees.len()
            invariant
                i <= self.attendees.len(),
                address@ == email@,
                forall|j: int|
                    0 <= j < i ==> (#[trigger] self.attendees@[j]).email.address@ != email@,
            decreases self.attendees.len() - i,
        {
            if self.attendees[i].email.address == address {
                return Some(&self.attendees[i]);
            }
            i += 1;
        }
        None
    }

    /// The component of `ical` that this snapshot was taken of, if `ical`
    /// has a component at the recorded position.
    pub fn component<'a>(&self, ical: &'a Calendar) -> (r: Option<&'a Component>)
        ensures
            r == (if (self.comp_id as int) < ical.components@.len() {
                Some(&ical.components@[self.comp_id as int])
            } else {
                None
            }),
    {
        let i = self.comp_id as usize;
        if i < ical.components.len() {
            Some(&ical.components[i])
        } else {
            None
        }
    }
}

impl ItipSnapshots {
    /// The snapshot of the instance with the identity of `id`, if one was
    /// taken.
    pub fn instance(&self, id: &InstanceId) -> (r: Option<&ItipSnapshot>)
        ensures
            match r {
                Some(snapshot) => self@.components.contains_key(id.spec_key())
                    && self@.components[id.spec_key()] == snapshot@,
                None => !self@.components.contains_key(id.spec_key()),
            },
    {
        let key = id.key();
        get_instance(&self.components, &key)
    }

    /// The number of instances of which a snapshot was taken.
    pub fn len(&self) -> (r: usize)
        ensures
            r == self@.components.len(),
    {
        proof {
            let held = instances_of(self.components);
            assert(instances_view(held).dom() =~= held.dom());
        }
        count_instances(&self.components)
    }
}

} // verus!
