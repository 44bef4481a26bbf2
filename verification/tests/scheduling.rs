use calcard::icalendar::{
    ICalendar, ICalendarComponentType, ICalendarEntry, ICalendarParameter,
    ICalendarParticipationRole, ICalendarParticipationStatus, ICalendarPeriod,
    ICalendarProperty, ICalendarScheduleAgentValue, ICalendarScheduleForceSendValue,
    ICalendarStatus, ICalendarUserTypes, ICalendarValue,
};
use groupware::scheduling::calendar::{
    Calendar, Component, ComponentKind, CuType, Duration, Entry, ForceSend, Param, PartStat,
    PartialDateTime, Period, PropertyKind, Role, ScheduleAgent, Status, Uri, Value,
};
use groupware::scheduling::email::Email;
use groupware::scheduling::entries::{ItipEntry, ItipEntryValue};
use groupware::scheduling::instance::{InstanceId, RecurrenceId};
use groupware::scheduling::snapshot::{itip_snapshot, ItipError, ItipSnapshot, ItipSnapshots};

// ---------------------------------------------------------------------------
// Reading a parsed document into the library's model
// ---------------------------------------------------------------------------

fn date_of(d: &calcard::common::PartialDateTime) -> PartialDateTime {
    PartialDateTime {
        year: d.year,
        month: d.month,
        day: d.day,
        hour: d.hour,
        minute: d.minute,
        second: d.second,
        tz_hour: d.tz_hour,
        tz_minute: d.tz_minute,
        tz_minus: d.tz_minus,
    }
}

fn duration_of(d: &calcard::icalendar::ICalendarDuration) -> Duration {
    Duration {
        neg: d.neg,
        weeks: d.weeks,
        days: d.days,
        hours: d.hours,
        minutes: d.minutes,
        seconds: d.seconds,
    }
}

fn uri_of(uri: &calcard::icalendar::Uri) -> Uri {
    match uri {
        calcard::icalendar::Uri::Location(s) => Uri::Location(s.clone()),
        calcard::icalendar::Uri::Data(_) => Uri::Data,
    }
}

fn value_of(value: &ICalendarValue) -> Value {
    match value {
        ICalendarValue::Text(s) => Value::Text(s.clone()),
        ICalendarValue::Uri(uri) => Value::Uri(uri_of(uri)),
        ICalendarValue::PartialDateTime(d) => Value::DateTime(date_of(d)),
        ICalendarValue::Duration(d) => Value::Duration(duration_of(d)),
        ICalendarValue::RecurrenceRule(r) => Value::RecurrenceRule(r.to_string()),
        ICalendarValue::Period(ICalendarPeriod::Range { start, end }) => Value::Period(Period::Range {
            start: date_of(start),
            end: date_of(end),
        }),
        ICalendarValue::Period(ICalendarPeriod::Duration { start, duration }) => {
            Value::Period(Period::Duration { start: date_of(start), duration: duration_of(duration) })
        }
        ICalendarValue::Integer(n) => Value::Integer(*n),
        ICalendarValue::Status(s) => Value::Status(match s {
            ICalendarStatus::Tentative => Status::Tentative,
            ICalendarStatus::Confirmed => Status::Confirmed,
            ICalendarStatus::Cancelled => Status::Cancelled,
            ICalendarStatus::NeedsAction => Status::NeedsAction,
            ICalendarStatus::Completed => Status::Completed,
            ICalendarStatus::InProcess => Status::InProcess,
            ICalendarStatus::Draft => Status::Draft,
            ICalendarStatus::Final => Status::Final,
            ICalendarStatus::Other(_) => Status::Other,
        }),
        _ => Value::Other,
    }
}

fn param_of(param: &ICalendarParameter) -> Param {
    match param {
        ICalendarParameter::ScheduleAgent(agent) => Param::ScheduleAgent(match agent {
            ICalendarScheduleAgentValue::Server => ScheduleAgent::Server,
            ICalendarScheduleAgentValue::Client => ScheduleAgent::Client,
            ICalendarScheduleAgentValue::None => ScheduleAgent::NoAgent,
            ICalendarScheduleAgentValue::Other(_) => ScheduleAgent::Other,
        }),
        ICalendarParameter::ScheduleForceSend(force) => Param::ScheduleForceSend(match force {
            ICalendarScheduleForceSendValue::Request => ForceSend::Request,
            ICalendarScheduleForceSendValue::Reply => ForceSend::Reply,
            ICalendarScheduleForceSendValue::Other(_) => ForceSend::Other,
        }),
        ICalendarParameter::Rsvp(rsvp) => Param::Rsvp(*rsvp),
        ICalendarParameter::Partstat(stat) => Param::Partstat(match stat {
            ICalendarParticipationStatus::NeedsAction => PartStat::NeedsAction,
            ICalendarParticipationStatus::Accepted => PartStat::Accepted,
            ICalendarParticipationStatus::Declined => PartStat::Declined,
            ICalendarParticipationStatus::Tentative => PartStat::Tentative,
            ICalendarParticipationStatus::Delegated => PartStat::Delegated,
            ICalendarParticipationStatus::Completed => PartStat::Completed,
            ICalendarParticipationStatus::InProcess => PartStat::InProcess,
            ICalendarParticipationStatus::Other(_) => PartStat::Other,
        }),
        ICalendarParameter::Cutype(kind) => Param::Cutype(match kind {
            ICalendarUserTypes::Individual => CuType::Individual,
            ICalendarUserTypes::Group => CuType::Group,
            ICalendarUserTypes::Resource => CuType::Resource,
            ICalendarUserTypes::Room => CuType::Room,
            ICalendarUserTypes::Unknown => CuType::Unknown,
            ICalendarUserTypes::Other(_) => CuType::Other,
        }),
        ICalendarParameter::Role(role) => Param::Role(match role {
            ICalendarParticipationRole::Chair => Role::Chair,
            ICalendarParticipationRole::ReqParticipant => Role::ReqParticipant,
            ICalendarParticipationRole::OptParticipant => Role::OptParticipant,
            ICalendarParticipationRole::NonParticipant => Role::NonParticipant,
            ICalendarParticipationRole::Other(_) => Role::Other,
        }),
        ICalendarParameter::DelegatedFrom(uris) => Param::DelegatedFrom(uris.iter().map(uri_of).collect()),
        ICalendarParameter::DelegatedTo(uris) => Param::DelegatedTo(uris.iter().map(uri_of).collect()),
        ICalendarParameter::SentBy(uri) => Param::SentBy(uri_of(uri)),
        ICalendarParameter::Tzid(id) => Param::Tzid(id.clone()),
        ICalendarParameter::Range => Param::Range,
        _ => Param::Other,
    }
}

fn name_of(name: &ICalendarProperty) -> PropertyKind {
    match name {
        ICalendarProperty::Organizer => PropertyKind::Organizer,
        ICalendarProperty::Attendee => PropertyKind::Attendee,
        ICalendarProperty::Uid => PropertyKind::Uid,
        ICalendarProperty::Sequence => PropertyKind::Sequence,
        ICalendarProperty::RecurrenceId => PropertyKind::RecurrenceId,
        ICalendarProperty::RequestStatus => PropertyKind::RequestStatus,
        ICalendarProperty::Dtstamp => PropertyKind::Dtstamp,
        ICalendarProperty::Dtstart => PropertyKind::Dtstart,
        ICalendarProperty::Dtend => PropertyKind::Dtend,
        ICalendarProperty::Duration => PropertyKind::Duration,
        ICalendarProperty::Due => PropertyKind::Due,
        ICalendarProperty::Rrule => PropertyKind::Rrule,
        ICalendarProperty::Rdate => PropertyKind::Rdate,
        ICalendarProperty::Exdate => PropertyKind::Exdate,
        ICalendarProperty::Status => PropertyKind::Status,
        ICalendarProperty::Location => PropertyKind::Location,
        ICalendarProperty::Summary => PropertyKind::Summary,
        ICalendarProperty::Description => PropertyKind::Description,
        ICalendarProperty::Priority => PropertyKind::Priority,
        ICalendarProperty::PercentComplete => PropertyKind::PercentComplete,
        ICalendarProperty::Completed => PropertyKind::Completed,
        _ => PropertyKind::Other,
    }
}

fn kind_of(kind: &ICalendarComponentType) -> ComponentKind {
    match kind {
        ICalendarComponentType::VCalendar => ComponentKind::Calendar,
        ICalendarComponentType::VEvent => ComponentKind::Event,
        ICalendarComponentType::VTodo => ComponentKind::Todo,
        ICalendarComponentType::VJournal => ComponentKind::Journal,
        ICalendarComponentType::VFreebusy => ComponentKind::FreeBusy,
        ICalendarComponentType::VTimezone => ComponentKind::TimeZone,
        ICalendarComponentType::VAlarm => ComponentKind::Alarm,
        _ => ComponentKind::Other,
    }
}

fn entry_of(entry: &ICalendarEntry) -> Entry {
    Entry {
        name: name_of(&entry.name),
        params: entry.params.iter().map(param_of).collect(),
        values: entry.values.iter().map(value_of).collect(),
    }
}

fn read(text: &str) -> Calendar {
    let ical = ICalendar::parse(text).expect("the text is a calendar");
    Calendar {
        components: ical
            .components
            .iter()
            .map(|c| Component {
                kind: kind_of(&c.component_type),
                entries: c.entries.iter().map(entry_of).collect(),
            })
            .collect(),
        zones: ICalendar { components: ical.timezones().cloned().collect() },
    }
}

// ---------------------------------------------------------------------------
// Building values by hand
// ---------------------------------------------------------------------------

fn accounts() -> Vec<String> {
    vec!["me@example.com".to_string(), "alias@example.com".to_string()]
}

fn text_entry(name: PropertyKind, text: &str) -> Entry {
    Entry { name, params: vec![], values: vec![Value::Text(text.to_string())] }
}

fn address_entry(name: PropertyKind, address: &str, params: Vec<Param>) -> Entry {
    Entry { name, params, values: vec![Value::Uri(Uri::Location(address.to_string()))] }
}

fn utc(year: u16, month: u8, day: u8, hour: u8, minute: u8, second: u8) -> PartialDateTime {
    PartialDateTime {
        year: Some(year),
        month: Some(month),
        day: Some(day),
        hour: Some(hour),
        minute: Some(minute),
        second: Some(second),
        tz_hour: Some(0),
        tz_minute: Some(0),
        tz_minus: false,
    }
}

fn local(year: u16, month: u8, day: u8, hour: u8, minute: u8, second: u8) -> PartialDateTime {
    PartialDateTime {
        year: Some(year),
        month: Some(month),
        day: Some(day),
        hour: Some(hour),
        minute: Some(minute),
        second: Some(second),
        tz_hour: None,
        tz_minute: None,
        tz_minus: false,
    }
}

fn event(entries: Vec<Entry>) -> Component {
    Component { kind: ComponentKind::Event, entries }
}

fn calendar(components: Vec<Component>) -> Calendar {
    Calendar { components, zones: ICalendar::default() }
}

fn main_of(snapshots: &ItipSnapshots) -> &ItipSnapshot {
    snapshots.instance(&InstanceId::Main).expect("the main instance is there")
}

fn simple_event() -> Component {
    event(vec![
        text_entry(PropertyKind::Uid, "a@x"),
        address_entry(PropertyKind::Organizer, "mailto:me@example.com", vec![]),
        address_entry(PropertyKind::Attendee, "mailto:me@example.com", vec![]),
        address_entry(PropertyKind::Attendee, "mailto:you@elsewhere.org", vec![]),
    ])
}

// ---------------------------------------------------------------------------
// Addresses
// ---------------------------------------------------------------------------

#[test]
fn classify_strips_scheme_and_case() {
    let email = Email::classify("  MAILTO:Me@Example.COM ", &accounts()).unwrap();
    assert_eq!(email.address, "me@example.com");
    assert!(email.is_local);
}

#[test]
fn classify_bare_remote_address() {
    let email = Email::classify("you@elsewhere.org", &accounts()).unwrap();
    assert_eq!(email.address, "you@elsewhere.org");
    assert!(!email.is_local);
}

#[test]
fn classify_trims_inside_the_scheme() {
    let email = Email::classify("mailto: alias@example.com", &accounts()).unwrap();
    assert_eq!(email.address, "alias@example.com");
    assert!(email.is_local);
}

#[test]
fn classify_rejects_empty_and_unparsable() {
    assert!(Email::classify("", &accounts()).is_none());
    assert!(Email::classify("   ", &accounts()).is_none());
    assert!(Email::classify("mailto:", &accounts()).is_none());
    assert!(Email::classify("not an address", &accounts()).is_none());
}

#[test]
fn classify_lowercases_beyond_ascii() {
    let email = Email::classify("ÄRGER@Example.com", &accounts()).unwrap();
    assert_eq!(email.address, "ärger@example.com");
}

#[test]
fn classify_compares_accounts_exactly() {
    let accounts = vec!["Me@Example.com".to_string()];
    let email = Email::classify("me@example.com", &accounts).unwrap();
    assert!(!email.is_local);
}

#[test]
fn from_uri_reads_locations_only() {
    let email = Email::from_uri(&Uri::Location("mailto:me@example.com".to_string()), &accounts());
    assert_eq!(email.unwrap().address, "me@example.com");
    assert!(Email::from_uri(&Uri::Data, &accounts()).is_none());
}

#[test]
fn from_uris_keeps_order_and_drops_failures() {
    let uris = vec![
        Uri::Location("mailto:b@x.org".to_string()),
        Uri::Location("nonsense".to_string()),
        Uri::Data,
        Uri::Location("mailto:ME@example.com".to_string()),
    ];
    let emails = Email::from_uris(&uris, &accounts());
    assert_eq!(emails.len(), 2);
    assert_eq!(emails[0].address, "b@x.org");
    assert!(!emails[0].is_local);
    assert_eq!(emails[1].address, "me@example.com");
    assert!(emails[1].is_local);
}

// ---------------------------------------------------------------------------
// Scenarios
// ---------------------------------------------------------------------------

#[test]
fn single_event_with_local_organizer() {
    let snapshots = itip_snapshot(&calendar(vec![simple_event()]), &accounts(), false).unwrap();
    assert_eq!(snapshots.uid, "a@x");
    assert!(snapshots.organizer.email.is_local);
    assert_eq!(snapshots.organizer.email.address, "me@example.com");
    assert_eq!(snapshots.organizer.entry_id, 1);
    assert!(snapshots.organizer.is_server_scheduling);
    assert_eq!(snapshots.len(), 1);
    let main = main_of(&snapshots);
    assert_eq!(main.comp_id, 0);
    assert_eq!(main.attendees.len(), 2);
    assert!(main.attendees[0].email.is_local);
    assert!(!main.attendees[1].email.is_local);
    assert_eq!(main.attendees[0].entry_id, 2);
    assert_eq!(main.attendees[1].entry_id, 3);
}

#[test]
fn override_is_keyed_by_its_instant() {
    let mut second = simple_event();
    second.entries.push(Entry {
        name: PropertyKind::RecurrenceId,
        params: vec![],
        values: vec![Value::DateTime(utc(2024, 1, 1, 9, 0, 0))],
    });
    let snapshots =
        itip_snapshot(&calendar(vec![simple_event(), second]), &accounts(), false).unwrap();
    assert_eq!(snapshots.len(), 2);
    assert!(snapshots.instance(&InstanceId::Main).is_some());
    let id = InstanceId::Recurrence(RecurrenceId {
        entry_id: 0,
        date: 1704099600,
        this_and_future: false,
    });
    let instance = snapshots.instance(&id).expect("the override is there");
    assert_eq!(instance.comp_id, 1);
    assert_eq!(
        instance.instance_id,
        InstanceId::Recurrence(RecurrenceId { entry_id: 4, date: 1704099600, this_and_future: false })
    );
    let other = InstanceId::Recurrence(RecurrenceId {
        entry_id: 4,
        date: 1704099600,
        this_and_future: true,
    });
    assert!(snapshots.instance(&other).is_none());
}

#[test]
fn differing_uids_are_refused() {
    let mut second = simple_event();
    second.entries[0] = text_entry(PropertyKind::Uid, "b@x");
    second.entries.push(Entry {
        name: PropertyKind::RecurrenceId,
        params: vec![],
        values: vec![Value::DateTime(utc(2024, 1, 1, 9, 0, 0))],
    });
    let r = itip_snapshot(&calendar(vec![simple_event(), second]), &accounts(), false);
    assert_eq!(r.err(), Some(ItipError::MultipleUid));
}

#[test]
fn mixed_kinds_are_refused() {
    let mut todo = simple_event();
    todo.kind = ComponentKind::Todo;
    let r = itip_snapshot(&calendar(vec![simple_event(), todo]), &accounts(), false);
    assert_eq!(r.err(), Some(ItipError::MultipleObjectTypes));
}

#[test]
fn client_scheduled_organizer_needs_the_flag() {
    let comp = || {
        event(vec![
            text_entry(PropertyKind::Uid, "a@x"),
            address_entry(
                PropertyKind::Organizer,
                "mailto:me@example.com",
                vec![Param::ScheduleAgent(ScheduleAgent::Client)],
            ),
        ])
    };
    let r = itip_snapshot(&calendar(vec![comp()]), &accounts(), false);
    assert_eq!(r.err(), Some(ItipError::OtherSchedulingAgent));
    let snapshots = itip_snapshot(&calendar(vec![comp()]), &accounts(), true).unwrap();
    assert!(!snapshots.organizer.is_server_scheduling);
}

#[test]
fn remote_parties_only_are_refused() {
    let comp = event(vec![
        text_entry(PropertyKind::Uid, "a@x"),
        address_entry(PropertyKind::Organizer, "mailto:boss@elsewhere.org", vec![]),
        address_entry(PropertyKind::Attendee, "mailto:you@elsewhere.org", vec![]),
    ]);
    let r = itip_snapshot(&calendar(vec![comp]), &accounts(), false);
    assert_eq!(r.err(), Some(ItipError::NotOrganizerNorAttendee));
}

// ---------------------------------------------------------------------------
// Boundaries and errors
// ---------------------------------------------------------------------------

#[test]
fn empty_uid_counts_as_missing() {
    let comp = event(vec![
        text_entry(PropertyKind::Uid, "   "),
        address_entry(PropertyKind::Organizer, "mailto:me@example.com", vec![]),
    ]);
    let r = itip_snapshot(&calendar(vec![comp]), &accounts(), false);
    assert_eq!(r.err(), Some(ItipError::MissingUid));
}

#[test]
fn uid_is_trimmed() {
    let comp = event(vec![
        text_entry(PropertyKind::Uid, "  a@x \t"),
        text_entry(PropertyKind::Uid, "a@x"),
        address_entry(PropertyKind::Organizer, "mailto:me@example.com", vec![]),
    ]);
    let snapshots = itip_snapshot(&calendar(vec![comp]), &accounts(), false).unwrap();
    assert_eq!(snapshots.uid, "a@x");
}

#[test]
fn no_organizer_means_no_scheduling_info() {
    let comp = event(vec![
        text_entry(PropertyKind::Uid, "a@x"),
        address_entry(PropertyKind::Attendee, "mailto:me@example.com", vec![]),
    ]);
    let r = itip_snapshot(&calendar(vec![comp]), &accounts(), false);
    assert_eq!(r.err(), Some(ItipError::NoSchedulingInfo));
}

#[test]
fn organizer_outside_scheduling_components_does_not_count() {
    let comp = Component {
        kind: ComponentKind::Alarm,
        entries: vec![
            text_entry(PropertyKind::Uid, "a@x"),
            address_entry(PropertyKind::Organizer, "mailto:me@example.com", vec![]),
        ],
    };
    let r = itip_snapshot(&calendar(vec![comp]), &accounts(), false);
    assert_eq!(r.err(), Some(ItipError::NoSchedulingInfo));
}

#[test]
fn unparsable_organizer_leaves_none() {
    let comp = event(vec![
        text_entry(PropertyKind::Uid, "a@x"),
        text_entry(PropertyKind::Organizer, "nobody"),
        address_entry(PropertyKind::Attendee, "mailto:me@example.com", vec![]),
    ]);
    let r = itip_snapshot(&calendar(vec![comp]), &accounts(), false);
    assert_eq!(r.err(), Some(ItipError::NoSchedulingInfo));
}

#[test]
fn two_organizers_are_refused() {
    let comp = event(vec![
        text_entry(PropertyKind::Uid, "a@x"),
        address_entry(PropertyKind::Organizer, "mailto:me@example.com", vec![]),
        address_entry(PropertyKind::Organizer, "mailto:boss@elsewhere.org", vec![]),
    ]);
    let r = itip_snapshot(&calendar(vec![comp]), &accounts(), false);
    assert_eq!(r.err(), Some(ItipError::MultipleOrganizer));
}

#[test]
fn repeated_organizer_keeps_the_first() {
    let comp = event(vec![
        text_entry(PropertyKind::Uid, "a@x"),
        address_entry(PropertyKind::Organizer, "mailto:me@example.com", vec![]),
        address_entry(
            PropertyKind::Organizer,
            "MAILTO:ME@EXAMPLE.COM",
            vec![Param::ScheduleForceSend(ForceSend::Request)],
        ),
    ]);
    let snapshots = itip_snapshot(&calendar(vec![comp]), &accounts(), false).unwrap();
    assert_eq!(snapshots.organizer.entry_id, 1);
    assert_eq!(snapshots.organizer.force_send, None);
}

#[test]
fn two_components_of_one_instance_are_refused() {
    let r = itip_snapshot(&calendar(vec![simple_event(), simple_event()]), &accounts(), false);
    assert_eq!(r.err(), Some(ItipError::MultipleObjectInstances));
}

#[test]
fn overrides_differ_by_range() {
    let with = |params: Vec<Param>| {
        let mut comp = simple_event();
        comp.entries.push(Entry {
            name: PropertyKind::RecurrenceId,
            params,
            values: vec![Value::DateTime(utc(2024, 1, 1, 9, 0, 0))],
        });
        comp
    };
    let both = calendar(vec![with(vec![]), with(vec![Param::Range])]);
    let snapshots = itip_snapshot(&both, &accounts(), false).unwrap();
    assert_eq!(snapshots.len(), 2);
    let same = calendar(vec![with(vec![Param::Range]), with(vec![Param::Range])]);
    let r = itip_snapshot(&same, &accounts(), false);
    assert_eq!(r.err(), Some(ItipError::MultipleObjectInstances));
}

#[test]
fn last_recurrence_id_wins() {
    let mut comp = simple_event();
    for hour in [9, 10] {
        comp.entries.push(Entry {
            name: PropertyKind::RecurrenceId,
            params: vec![],
            values: vec![Value::DateTime(utc(2024, 1, 1, hour, 0, 0))],
        });
    }
    let snapshots = itip_snapshot(&calendar(vec![comp]), &accounts(), false).unwrap();
    let id = InstanceId::Recurrence(RecurrenceId {
        entry_id: 5,
        date: 1704103200,
        this_and_future: false,
    });
    assert_eq!(snapshots.instance(&id).unwrap().instance_id, id);
    assert_eq!(snapshots.len(), 1);
}

#[test]
fn unknown_time_zone_falls_back_to_floating() {
    let mut comp = simple_event();
    comp.entries.push(Entry {
        name: PropertyKind::RecurrenceId,
        params: vec![Param::Tzid("Nowhere/Special".to_string())],
        values: vec![Value::DateTime(local(2024, 1, 1, 9, 0, 0))],
    });
    let snapshots = itip_snapshot(&calendar(vec![comp]), &accounts(), false).unwrap();
    let id = InstanceId::Recurrence(RecurrenceId {
        entry_id: 4,
        date: 1704099600,
        this_and_future: false,
    });
    assert!(snapshots.instance(&id).is_some());
}

#[test]
fn known_time_zone_moves_the_instant() {
    let mut comp = simple_event();
    comp.entries.push(Entry {
        name: PropertyKind::RecurrenceId,
        params: vec![Param::Tzid("Europe/Berlin".to_string())],
        values: vec![Value::DateTime(local(2024, 1, 1, 9, 0, 0))],
    });
    let snapshots = itip_snapshot(&calendar(vec![comp]), &accounts(), false).unwrap();
    let id = InstanceId::Recurrence(RecurrenceId {
        entry_id: 4,
        date: 1704096000,
        this_and_future: false,
    });
    assert!(snapshots.instance(&id).is_some());
}

#[test]
fn date_without_a_year_has_instant_zero() {
    let mut comp = simple_event();
    comp.entries.push(Entry {
        name: PropertyKind::RecurrenceId,
        params: vec![],
        values: vec![Value::DateTime(PartialDateTime {
            year: None,
            month: Some(1),
            day: Some(1),
            hour: Some(9),
            minute: Some(0),
            second: Some(0),
            tz_hour: None,
            tz_minute: None,
            tz_minus: false,
        })],
    });
    let snapshots = itip_snapshot(&calendar(vec![comp]), &accounts(), false).unwrap();
    let id = InstanceId::Recurrence(RecurrenceId { entry_id: 4, date: 0, this_and_future: false });
    assert!(snapshots.instance(&id).is_some());
}

#[test]
fn duplicate_attendees_collapse_to_the_first() {
    let comp = event(vec![
        text_entry(PropertyKind::Uid, "a@x"),
        address_entry(PropertyKind::Organizer, "mailto:me@example.com", vec![]),
        address_entry(
            PropertyKind::Attendee,
            "mailto:you@elsewhere.org",
            vec![Param::Partstat(PartStat::Accepted)],
        ),
        address_entry(
            PropertyKind::Attendee,
            "MAILTO:You@Elsewhere.org",
            vec![Param::Partstat(PartStat::Declined)],
        ),
    ]);
    let snapshots = itip_snapshot(&calendar(vec![comp]), &accounts(), false).unwrap();
    let main = main_of(&snapshots);
    assert_eq!(main.attendees.len(), 1);
    assert_eq!(main.attendees[0].part_stat, Some(PartStat::Accepted));
    assert_eq!(main.attendees[0].entry_id, 2);
}

#[test]
fn attendee_parameters_are_read() {
    let comp = event(vec![
        text_entry(PropertyKind::Uid, "a@x"),
        address_entry(PropertyKind::Organizer, "mailto:me@example.com", vec![]),
        address_entry(
            PropertyKind::Attendee,
            "mailto:you@elsewhere.org",
            vec![
                Param::Rsvp(true),
                Param::Partstat(PartStat::Tentative),
                Param::Partstat(PartStat::Accepted),
                Param::Cutype(CuType::Room),
                Param::Role(Role::Chair),
                Param::ScheduleForceSend(ForceSend::Reply),
                Param::DelegatedFrom(vec![
                    Uri::Location("mailto:one@x.org".to_string()),
                    Uri::Location("broken".to_string()),
                    Uri::Location("mailto:ME@example.com".to_string()),
                ]),
                Param::DelegatedTo(vec![Uri::Data]),
                Param::SentBy(Uri::Location("mailto:alias@example.com".to_string())),
                Param::Other,
            ],
        ),
    ]);
    let snapshots = itip_snapshot(&calendar(vec![comp]), &accounts(), false).unwrap();
    let attendee = &main_of(&snapshots).attendees[0];
    assert_eq!(attendee.rsvp, Some(true));
    assert_eq!(attendee.part_stat, Some(PartStat::Accepted));
    assert_eq!(attendee.cu_type, Some(CuType::Room));
    assert_eq!(attendee.role, Some(Role::Chair));
    assert_eq!(attendee.force_send, Some(ForceSend::Reply));
    assert!(attendee.is_server_scheduling);
    assert_eq!(attendee.delegated_from.len(), 2);
    assert_eq!(attendee.delegated_from[0].address, "one@x.org");
    assert_eq!(attendee.delegated_from[1].address, "me@example.com");
    assert!(attendee.delegated_from[1].is_local);
    assert!(attendee.delegated_to.is_empty());
    let sent_by = attendee.sent_by.as_ref().unwrap();
    assert_eq!(sent_by.address, "alias@example.com");
    assert!(sent_by.is_local);
}

#[test]
fn schedule_agent_other_than_client_keeps_server_scheduling() {
    let comp = event(vec![
        text_entry(PropertyKind::Uid, "a@x"),
        address_entry(
            PropertyKind::Organizer,
            "mailto:me@example.com",
            vec![Param::ScheduleAgent(ScheduleAgent::NoAgent)],
        ),
        address_entry(
            PropertyKind::Attendee,
            "mailto:you@elsewhere.org",
            vec![
                Param::ScheduleAgent(ScheduleAgent::Client),
                Param::ScheduleAgent(ScheduleAgent::Server),
            ],
        ),
    ]);
    let snapshots = itip_snapshot(&calendar(vec![comp]), &accounts(), false).unwrap();
    assert!(snapshots.organizer.is_server_scheduling);
    assert!(!main_of(&snapshots).attendees[0].is_server_scheduling);
}

#[test]
fn client_scheduled_local_attendee_does_not_count_without_the_flag() {
    let comp = || {
        event(vec![
            text_entry(PropertyKind::Uid, "a@x"),
            address_entry(PropertyKind::Organizer, "mailto:boss@elsewhere.org", vec![]),
            address_entry(
                PropertyKind::Attendee,
                "mailto:me@example.com",
                vec![Param::ScheduleAgent(ScheduleAgent::Client)],
            ),
        ])
    };
    let r = itip_snapshot(&calendar(vec![comp()]), &accounts(), false);
    assert_eq!(r.err(), Some(ItipError::NotOrganizerNorAttendee));
    let snapshots = itip_snapshot(&calendar(vec![comp()]), &accounts(), true).unwrap();
    assert_eq!(main_of(&snapshots).attendees.len(), 1);
}

#[test]
fn sequence_dtstamp_and_request_status() {
    let stamp = |day: u8| Entry {
        name: PropertyKind::Dtstamp,
        params: vec![],
        values: vec![Value::DateTime(utc(2024, 1, day, 0, 0, 0))],
    };
    let sequence = |value: Value| Entry { name: PropertyKind::Sequence, params: vec![], values: vec![value] };
    let mut comp = simple_event();
    comp.entries.push(sequence(Value::Integer(3)));
    comp.entries.push(sequence(Value::Integer(7)));
    comp.entries.push(sequence(Value::Text("x".to_string())));
    comp.entries.push(stamp(1));
    comp.entries.push(stamp(2));
    comp.entries.push(text_entry(PropertyKind::RequestStatus, "2.0;Success"));
    comp.entries.push(Entry {
        name: PropertyKind::RequestStatus,
        params: vec![],
        values: vec![Value::Integer(1)],
    });
    comp.entries.push(text_entry(PropertyKind::RequestStatus, "3.1;Invalid"));
    let snapshots = itip_snapshot(&calendar(vec![comp]), &accounts(), false).unwrap();
    let main = main_of(&snapshots);
    assert_eq!(main.sequence, Some(7));
    assert_eq!(main.dtstamp, Some(utc(2024, 1, 2, 0, 0, 0)));
    assert_eq!(main.request_status, vec!["2.0;Success".to_string(), "3.1;Invalid".to_string()]);
}

#[test]
fn dtstamp_without_a_date_clears_it() {
    let mut comp = simple_event();
    comp.entries.push(Entry {
        name: PropertyKind::Dtstamp,
        params: vec![],
        values: vec![Value::DateTime(utc(2024, 1, 1, 0, 0, 0))],
    });
    comp.entries.push(text_entry(PropertyKind::Dtstamp, "later"));
    let snapshots = itip_snapshot(&calendar(vec![comp]), &accounts(), false).unwrap();
    assert_eq!(main_of(&snapshots).dtstamp, None);
}

fn entry_values(snapshot: &ItipSnapshot) -> Vec<(PropertyKind, String)> {
    snapshot
        .entries
        .iter()
        .map(|e: &ItipEntry| {
            let value = match &e.value {
                ItipEntryValue::Text(t) => format!("text:{t}"),
                ItipEntryValue::Integer(n) => format!("int:{n}"),
                ItipEntryValue::RRule(r) => format!("rrule:{r}"),
                ItipEntryValue::Status(s) => format!("status:{s:?}"),
                ItipEntryValue::Duration(d) => format!("duration:{}", d.hours),
                ItipEntryValue::Period(_) => "period".to_string(),
                ItipEntryValue::DateTime(d) => format!("date:{}:{:?}", d.timestamp, d.tz_id),
            };
            (e.name, value)
        })
        .collect()
}

#[test]
fn compared_values_are_projected_and_collapse() {
    let hour = Duration { neg: false, weeks: 0, days: 0, hours: 1, minutes: 0, seconds: 0 };
    let mut comp = simple_event();
    comp.entries.push(text_entry(PropertyKind::Summary, "Lunch"));
    comp.entries.push(text_entry(PropertyKind::Summary, "Lunch"));
    comp.entries.push(text_entry(PropertyKind::Description, "Lunch"));
    comp.entries.push(Entry {
        name: PropertyKind::Location,
        params: vec![],
        values: vec![Value::Uri(Uri::Location("geo:1,2".to_string())), Value::Uri(Uri::Data)],
    });
    comp.entries.push(Entry {
        name: PropertyKind::Dtstart,
        params: vec![Param::Tzid("Europe/Berlin".to_string()), Param::Tzid("UTC".to_string())],
        values: vec![Value::DateTime(local(2024, 7, 1, 12, 0, 0))],
    });
    comp.entries.push(Entry {
        name: PropertyKind::Duration,
        params: vec![],
        values: vec![Value::Duration(hour)],
    });
    comp.entries.push(Entry {
        name: PropertyKind::Rrule,
        params: vec![],
        values: vec![Value::RecurrenceRule("FREQ=DAILY".to_string())],
    });
    comp.entries.push(Entry {
        name: PropertyKind::Priority,
        params: vec![],
        values: vec![Value::Integer(5), Value::Other, Value::Integer(5), Value::Integer(6)],
    });
    comp.entries.push(Entry {
        name: PropertyKind::Status,
        params: vec![],
        values: vec![Value::Status(Status::Confirmed)],
    });
    comp.entries.push(Entry {
        name: PropertyKind::Rdate,
        params: vec![],
        values: vec![Value::Period(Period::Duration {
            start: utc(2024, 1, 1, 0, 0, 0),
            duration: hour,
        })],
    });
    comp.entries.push(text_entry(PropertyKind::Other, "ignored"));
    let snapshots = itip_snapshot(&calendar(vec![comp]), &accounts(), false).unwrap();
    let found = entry_values(main_of(&snapshots));
    let expected = vec![
        (PropertyKind::Summary, "text:Lunch".to_string()),
        (PropertyKind::Description, "text:Lunch".to_string()),
        (PropertyKind::Location, "text:geo:1,2".to_string()),
        (PropertyKind::Dtstart, "date:1719828000:Some(\"Europe/Berlin\")".to_string()),
        (PropertyKind::Duration, "duration:1".to_string()),
        (PropertyKind::Rrule, "rrule:FREQ=DAILY".to_string()),
        (PropertyKind::Priority, "int:5".to_string()),
        (PropertyKind::Priority, "int:6".to_string()),
        (PropertyKind::Status, "status:Confirmed".to_string()),
        (PropertyKind::Rdate, "period".to_string()),
    ];
    assert_eq!(found, expected);
}

#[test]
fn components_that_do_not_schedule_are_skipped() {
    let zone = Component {
        kind: ComponentKind::TimeZone,
        entries: vec![text_entry(PropertyKind::Uid, "other@x")],
    };
    let snapshots =
        itip_snapshot(&calendar(vec![zone, simple_event()]), &accounts(), false).unwrap();
    assert_eq!(snapshots.uid, "a@x");
    assert_eq!(main_of(&snapshots).comp_id, 1);
}

#[test]
fn first_error_in_document_order_wins() {
    let mut first = simple_event();
    first.entries.push(text_entry(PropertyKind::Uid, "b@x"));
    first.entries.push(address_entry(PropertyKind::Organizer, "mailto:boss@elsewhere.org", vec![]));
    let r = itip_snapshot(&calendar(vec![first]), &accounts(), false);
    assert_eq!(r.err(), Some(ItipError::MultipleUid));
}

#[test]
fn extraction_is_repeatable() {
    let cal = calendar(vec![simple_event()]);
    let a = itip_snapshot(&cal, &accounts(), false).unwrap();
    let b = itip_snapshot(&cal, &accounts(), false).unwrap();
    assert_eq!(format!("{:?}", a.organizer), format!("{:?}", b.organizer));
    assert_eq!(a.uid, b.uid);
    assert_eq!(format!("{:?}", main_of(&a)), format!("{:?}", main_of(&b)));
}

#[test]
fn a_repeated_attendee_may_count_though_the_first_does_not() {
    let comp = event(vec![
        text_entry(PropertyKind::Uid, "a@x"),
        address_entry(PropertyKind::Organizer, "mailto:boss@elsewhere.org", vec![]),
        address_entry(
            PropertyKind::Attendee,
            "mailto:me@example.com",
            vec![Param::ScheduleAgent(ScheduleAgent::Client)],
        ),
        address_entry(PropertyKind::Attendee, "mailto:me@example.com", vec![]),
    ]);
    let snapshots = itip_snapshot(&calendar(vec![comp]), &accounts(), false).unwrap();
    let main = main_of(&snapshots);
    assert_eq!(main.attendees.len(), 1);
    assert!(main.attendees[0].email.is_local);
    assert!(!main.attendees[0].is_server_scheduling);
}

#[test]
fn attendee_by_email_finds_the_normalized_address() {
    let snapshots = itip_snapshot(&calendar(vec![simple_event()]), &accounts(), false).unwrap();
    let main = main_of(&snapshots);
    assert_eq!(main.attendee_by_email("you@elsewhere.org").unwrap().entry_id, 3);
    assert!(main.attendee_by_email("YOU@elsewhere.org").is_none());
    assert!(main.attendee_by_email("nobody@elsewhere.org").is_none());
}

#[test]
fn snapshot_points_back_at_its_component() {
    let cal = calendar(vec![simple_event()]);
    let snapshots = itip_snapshot(&cal, &accounts(), false).unwrap();
    let comp = main_of(&snapshots).component(&cal).unwrap();
    assert_eq!(comp.entries.len(), 4);
    let empty = calendar(vec![]);
    assert!(main_of(&snapshots).component(&empty).is_none());
}

// ---------------------------------------------------------------------------
// Parsed documents
// ---------------------------------------------------------------------------

const INVITE: &str = "BEGIN:VCALENDAR\r\n\
VERSION:2.0\r\n\
PRODID:-//Example//EN\r\n\
BEGIN:VTIMEZONE\r\n\
TZID:Office\r\n\
X-LIC-LOCATION:America/New_York\r\n\
END:VTIMEZONE\r\n\
BEGIN:VEVENT\r\n\
UID:meeting-1\r\n\
DTSTAMP:20240101T000000Z\r\n\
DTSTART;TZID=Office:20240115T100000\r\n\
SEQUENCE:2\r\n\
SUMMARY:Planning\r\n\
ORGANIZER;CN=Boss:mailto:boss@elsewhere.org\r\n\
ATTENDEE;PARTSTAT=NEEDS-ACTION;RSVP=TRUE:mailto:Me@Example.com\r\n\
ATTENDEE;PARTSTAT=ACCEPTED;ROLE=CHAIR:mailto:boss@elsewhere.org\r\n\
END:VEVENT\r\n\
BEGIN:VEVENT\r\n\
UID:meeting-1\r\n\
RECURRENCE-ID;TZID=Office;RANGE=THISANDFUTURE:20240122T100000\r\n\
DTSTART;TZID=Office:20240122T110000\r\n\
ORGANIZER:mailto:boss@elsewhere.org\r\n\
ATTENDEE:mailto:me@example.com\r\n\
END:VEVENT\r\n\
END:VCALENDAR\r\n";

#[test]
fn parsed_invitation_with_a_time_zone() {
    let cal = read(INVITE);
    let snapshots = itip_snapshot(&cal, &accounts(), false).unwrap();
    assert_eq!(snapshots.uid, "meeting-1");
    assert_eq!(snapshots.organizer.email.address, "boss@elsewhere.org");
    assert!(!snapshots.organizer.email.is_local);
    assert_eq!(snapshots.len(), 2);
    let main = main_of(&snapshots);
    assert_eq!(main.comp_id, 2);
    assert_eq!(main.sequence, Some(2));
    assert_eq!(main.attendees.len(), 2);
    assert_eq!(main.attendees[0].email.address, "me@example.com");
    assert_eq!(main.attendees[0].rsvp, Some(true));
    assert_eq!(main.attendees[0].part_stat, Some(PartStat::NeedsAction));
    assert_eq!(main.attendees[1].role, Some(Role::Chair));
    let starts: Vec<i64> = main
        .entries
        .iter()
        .filter_map(|e| match &e.value {
            ItipEntryValue::DateTime(d) if e.name == PropertyKind::Dtstart => Some(d.timestamp),
            _ => None,
        })
        .collect();
    // 10:00 in New York in January is 15:00 UTC.
    assert_eq!(starts, vec![1705330800]);
    let id = InstanceId::Recurrence(RecurrenceId {
        entry_id: 0,
        date: 1705935600,
        this_and_future: true,
    });
    let instance = snapshots.instance(&id).expect("the override is there");
    assert_eq!(instance.comp_id, 3);
    assert_eq!(instance.attendees.len(), 1);
}

#[test]
fn parsed_reply_from_a_stranger() {
    let text = INVITE.replace("Me@Example.com", "x@elsewhere.org").replace("me@example.com", "y@elsewhere.org");
    let r = itip_snapshot(&read(&text), &accounts(), false);
    assert_eq!(r.err(), Some(ItipError::NotOrganizerNorAttendee));
}

#[test]
fn local_time_that_does_not_exist_is_read_as_floating() {
    // At 02:30 on the last Sunday of March the clocks in Berlin show 03:30.
    let mut comp = simple_event();
    comp.entries.push(Entry {
        name: PropertyKind::RecurrenceId,
        params: vec![Param::Tzid("Europe/Berlin".to_string())],
        values: vec![Value::DateTime(local(2024, 3, 31, 2, 30, 0))],
    });
    let snapshots = itip_snapshot(&calendar(vec![comp]), &accounts(), false).unwrap();
    let id = InstanceId::Recurrence(RecurrenceId {
        entry_id: 4,
        date: 1711852200,
        this_and_future: false,
    });
    assert!(snapshots.instance(&id).is_some());
}

#[test]
fn an_offset_in_the_value_beats_the_time_zone() {
    let mut date = local(2024, 1, 1, 9, 0, 0);
    date.tz_hour = Some(2);
    date.tz_minute = Some(30);
    let mut comp = simple_event();
    comp.entries.push(Entry {
        name: PropertyKind::RecurrenceId,
        params: vec![Param::Tzid("Europe/Berlin".to_string())],
        values: vec![Value::DateTime(date)],
    });
    let snapshots = itip_snapshot(&calendar(vec![comp]), &accounts(), false).unwrap();
    let id = InstanceId::Recurrence(RecurrenceId {
        entry_id: 4,
        date: 1704099600 - 9000,
        this_and_future: false,
    });
    assert!(snapshots.instance(&id).is_some());
}

#[test]
fn entry_positions_wrap_at_sixteen_bits() {
    let mut entries = vec![text_entry(PropertyKind::Uid, "a@x")];
    for _ in 0..65536 {
        entries.push(text_entry(PropertyKind::Other, ""));
    }
    entries.push(address_entry(PropertyKind::Organizer, "mailto:me@example.com", vec![]));
    let snapshots = itip_snapshot(&calendar(vec![event(entries)]), &accounts(), false).unwrap();
    assert_eq!(snapshots.organizer.entry_id, 1);
}

#[test]
fn strange_dates_and_zones_are_read_without_failure() {
    let dates = [
        PartialDateTime {
            year: Some(u16::MAX),
            month: Some(u8::MAX),
            day: Some(u8::MAX),
            hour: Some(u8::MAX),
            minute: Some(u8::MAX),
            second: Some(u8::MAX),
            tz_hour: Some(u8::MAX),
            tz_minute: Some(u8::MAX),
            tz_minus: true,
        },
        PartialDateTime {
            year: Some(0),
            month: Some(0),
            day: Some(0),
            hour: Some(0),
            minute: Some(0),
            second: None,
            tz_hour: None,
            tz_minute: Some(59),
            tz_minus: false,
        },
        local(u16::MAX, 12, 31, 23, 59, 59),
        local(2024, 2, 30, 25, 61, 61),
        local(2024, 10, 27, 2, 30, 0),
    ];
    let zones = [
        "",
        " ",
        "(UTC+99999999999999999999) Nowhere",
        "(GMT-05:00) Eastern Time (US & Canada)",
        "(",
        "/",
        "/a/b/c/d/e",
        "/softwarestudio.org/Olson_20011030_5/America/Chicago",
        "Europe/Berlin",
        "Pacific Standard Time",
        "\u{0}\u{ffff}",
    ];
    for date in dates {
        for zone in zones {
            let mut comp = simple_event();
            comp.entries.push(Entry {
                name: PropertyKind::RecurrenceId,
                params: vec![Param::Tzid(zone.to_string())],
                values: vec![Value::DateTime(date)],
            });
            comp.entries.push(Entry {
                name: PropertyKind::Dtstart,
                params: vec![Param::Tzid(zone.to_string())],
                values: vec![Value::DateTime(date)],
            });
            let snapshots = itip_snapshot(&calendar(vec![comp]), &accounts(), false).unwrap();
            assert_eq!(snapshots.len(), 1);
        }
    }
}

#[test]
fn a_time_that_occurs_twice_is_read_as_floating() {
    // At 03:00 on the last Sunday of October the clocks in Berlin go back to
    // 02:00, so 02:30 occurs twice.
    let mut comp = simple_event();
    comp.entries.push(Entry {
        name: PropertyKind::RecurrenceId,
        params: vec![Param::Tzid("Europe/Berlin".to_string())],
        values: vec![Value::DateTime(local(2024, 10, 27, 2, 30, 0))],
    });
    let snapshots = itip_snapshot(&calendar(vec![comp]), &accounts(), false).unwrap();
    let id = InstanceId::Recurrence(RecurrenceId {
        entry_id: 4,
        date: 1729996200,
        this_and_future: false,
    });
    assert!(snapshots.instance(&id).is_some());
}
