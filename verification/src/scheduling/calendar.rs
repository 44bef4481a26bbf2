//! The parsed calendar object as the snapshot extractor reads it.
//!
//! A calendar is an ordered list of components; a component is an ordered
//! list of entries; an entry has a property kind, parameters and values.
//! Only what scheduling needs is kept apart: every other property, parameter
//! or value is one of the `Other` variants.

use vstd::prelude::*;
use calcard::icalendar::ICalendar;

verus! {

/// The kind of a calendar component.
#[derive(Clone, Copy, Debug, PartialEq, Eq, Structural)]
pub enum ComponentKind {
    Calendar,
    Event,
    Todo,
    Journal,
    FreeBusy,
    TimeZone,
    Alarm,
    Other,
}

impl ComponentKind {
    /// Whether components of this kind take part in scheduling.
    pub open spec fn scheduling(self) -> bool {
        self == ComponentKind::Event || self == ComponentKind::Todo || self
            == ComponentKind::Journal || self == ComponentKind::FreeBusy
    }

    /// Whether components of this kind take part in scheduling.
    pub fn is_scheduling_object(&self) -> (r: bool)
        ensures
            r == self.scheduling(),
    {
        match self {
            ComponentKind::Event
            | ComponentKind::Todo
            | ComponentKind::Journal
            | ComponentKind::FreeBusy => true,
            _ => false,
        }
    }
}

/// The name of a property.
#[derive(Clone, Copy, Debug, PartialEq, Eq, Structural)]
pub enum PropertyKind {
    Organizer,
    Attendee,
    Uid,
    Sequence,
    RecurrenceId,
    RequestStatus,
    Dtstamp,
    Dtstart,
    Dtend,
    Duration,
    Due,
    Rrule,
    Rdate,
    Exdate,
    Status,
    Location,
    Summary,
    Description,
    Priority,
    PercentComplete,
    Completed,
    Other,
}

impl PropertyKind {
    /// Whether the values of this property are kept as snapshot entries.
    pub open spec fn compared(self) -> bool {
        match self {
            PropertyKind::Dtstart
            | PropertyKind::Dtend
            | PropertyKind::Duration
            | PropertyKind::Due
            | PropertyKind::Rrule
            | PropertyKind::Rdate
            | PropertyKind::Exdate
            | PropertyKind::Status
            | PropertyKind::Location
            | PropertyKind::Summary
            | PropertyKind::Description
            | PropertyKind::Priority
            | PropertyKind::PercentComplete
            | PropertyKind::Completed => true,
            _ => false,
        }
    }

    /// Whether the values of this property are kept as snapshot entries.
    pub fn is_compared(&self) -> (r: bool)
        ensures
            r == self.compared(),
    {
        match self {
            PropertyKind::Dtstart
            | PropertyKind::Dtend
            | PropertyKind::Duration
            | PropertyKind::Due
            | PropertyKind::Rrule
            | PropertyKind::Rdate
            | PropertyKind::Exdate
            | PropertyKind::Status
            | PropertyKind::Location
            | PropertyKind::Summary
            | PropertyKind::Description
            | PropertyKind::Priority
            | PropertyKind::PercentComplete
            | PropertyKind::Completed => true,
            _ => false,
        }
    }
}

/// Who delivers the scheduling messages of a participant.
#[derive(Clone, Copy, Debug, PartialEq, Eq, Structural)]
pub enum ScheduleAgent {
    Server,
    Client,
    NoAgent,
    Other,
}

/// A request to send a scheduling message whatever the usual rules say.
#[derive(Clone, Copy, Debug, PartialEq, Eq, Structural)]
pub enum ForceSend {
    Request,
    Reply,
    Other,
}

/// The participation status of an attendee.
#[derive(Clone, Copy, Debug, PartialEq, Eq, Structural)]
pub enum PartStat {
    NeedsAction,
    Accepted,
    Declined,
    Tentative,
    Delegated,
    Completed,
    InProcess,
    Other,
}

/// The kind of calendar user an attendee is.
#[derive(Clone, Copy, Debug, PartialEq, Eq, Structural)]
pub enum CuType {
    Individual,
    Group,
    Resource,
    Room,
    Unknown,
    Other,
}

/// The role of an attendee.
#[derive(Clone, Copy, Debug, PartialEq, Eq, Structural)]
pub enum Role {
    Chair,
    ReqParticipant,
    OptParticipant,
    NonParticipant,
    Other,
}

/// The status of a component.
#[derive(Clone, Copy, Debug, PartialEq, Eq, Structural)]
pub enum Status {
    Tentative,
    Confirmed,
    Cancelled,
    NeedsAction,
    Completed,
    InProcess,
    Draft,
    Final,
    Other,
}

/// A date-time of which any part may be missing.
#[derive(Clone, Copy, Debug, PartialEq, Eq, Structural)]
pub struct PartialDateTime {
    pub year: Option<u16>,
    pub month: Option<u8>,
    pub day: Option<u8>,
    pub hour: Option<u8>,
    pub minute: Option<u8>,
    pub second: Option<u8>,
    pub tz_hour: Option<u8>,
    pub tz_minute: Option<u8>,
    pub tz_minus: bool,
}

/// A signed span of time.
#[derive(Clone, Copy, Debug, PartialEq, Eq, Structural)]
pub struct Duration {
    pub neg: bool,
    pub weeks: u32,
    pub days: u32,
    pub hours: u32,
    pub minutes: u32,
    pub seconds: u32,
}

/// A period of time, given by its two ends or by its start and length.
#[derive(Clone, Copy, Debug, PartialEq, Eq, Structural)]
pub enum Period {
    Range { start: PartialDateTime, end: PartialDateTime },
    Duration { start: PartialDateTime, duration: Duration },
}

/// A URI value: a location, or inline data.
#[derive(Clone, Debug)]
pub enum Uri {
    Location(String),
    Data,
}

/// A parameter of an entry.
#[derive(Clone, Debug)]
pub enum Param {
    ScheduleAgent(ScheduleAgent),
    ScheduleForceSend(ForceSend),
    Rsvp(bool),
    Partstat(PartStat),
    Cutype(CuType),
    Role(Role),
    DelegatedFrom(Vec<Uri>),
    DelegatedTo(Vec<Uri>),
    SentBy(Uri),
    Tzid(String),
    Range,
    Other,
}

/// A value of an entry. A recurrence rule is held in its iCalendar text form.
#[derive(Clone, Debug)]
pub enum Value {
    Text(String),
    Uri(Uri),
    DateTime(PartialDateTime),
    Duration(Duration),
    RecurrenceRule(String),
    Period(Period),
    Integer(i64),
    Status(Status),
    Other,
}

/// One property line of a component.
#[derive(Clone, Debug)]
pub struct Entry {
    pub name: PropertyKind,
    pub params: Vec<Param>,
    pub values: Vec<Value>,
}

/// One component of a calendar object.
#[derive(Clone, Debug)]
pub struct Component {
    pub kind: ComponentKind,
    pub entries: Vec<Entry>,
}

/// The text that a value holds: a text itself, or the location of a URI.
pub open spec fn value_text(v: Value) -> Option<Seq<char>> {
    match v {
        Value::Text(s) => Some(s@),
        Value::Uri(Uri::Location(s)) => Some(s@),
        _ => None,
    }
}

impl Value {
    /// The text that this value holds, if it is a text or a location.
    pub fn as_text(&self) -> (r: Option<&str>)
        ensures
            match r {
                Some(s) => value_text(*self) == Some(s@),
                None => value_text(*self) is None,
            },
    {
        match self {
            Value::Text(s) => Some(s.as_str()),
            Value::Uri(Uri::Location(s)) => Some(s.as_str()),
            _ => None,
        }
    }

    /// The integer that this value holds, if it is one.
    pub fn as_integer(&self) -> (r: Option<i64>)
        ensures
            r == (match *self {
                Value::Integer(n) => Some(n),
                _ => None,
            }),
    {
        match self {
            Value::Integer(n) => Some(*n),
            _ => None,
        }
    }

    /// The date-time that this value holds, if it is one.
    pub fn as_partial_date_time(&self) -> (r: Option<PartialDateTime>)
        ensures
            r == (match *self {
                Value::DateTime(d) => Some(d),
                _ => None,
            }),
    {
        match self {
            Value::DateTime(d) => Some(*d),
            _ => None,
        }
    }
}

/// The text of the first value of an entry, if that value holds a text.
pub open spec fn first_text(entry: Entry) -> Option<Seq<char>> {
    if entry.values@.len() > 0 {
        value_text(entry.values@[0])
    } else {
        None
    }
}

/// The first value of an entry, if it is an integer.
pub open spec fn first_integer(entry: Entry) -> Option<i64> {
    if entry.values@.len() > 0 {
        match entry.values@[0] {
            Value::Integer(n) => Some(n),
            _ => None,
        }
    } else {
        None
    }
}

/// The first value of an entry, if it is a date-time.
pub open spec fn first_date_time(entry: Entry) -> Option<PartialDateTime> {
    if entry.values@.len() > 0 {
        match entry.values@[0] {
            Value::DateTime(d) => Some(d),
            _ => None,
        }
    } else {
        None
    }
}

/// The identifier of the first TZID parameter among `params`.
pub open spec fn first_tzid(params: Seq<Param>) -> Option<Seq<char>>
    decreases params.len(),
{
    if params.len() == 0 {
        None
    } else {
        match params.first() {
            Param::Tzid(id) => Some(id@),
            _ => first_tzid(params.drop_first()),
        }
    }
}

impl Entry {
    /// The text of the first value, if that value holds a text.
    pub fn text(&self) -> (r: Option<&str>)
        ensures
            match r {
                Some(s) => first_text(*self) == Some(s@),
                None => first_text(*self) is None,
            },
    {
        if self.values.len() > 0 {
            self.values[0].as_text()
        } else {
            None
        }
    }

    /// The first value, if it is an integer.
    pub fn integer(&self) -> (r: Option<i64>)
        ensures
            r == first_integer(*self),
    {
        if self.values.len() > 0 {
            self.values[0].as_integer()
        } else {
            None
        }
    }

    /// The first value, if it is a date-time.
    pub fn date_time(&self) -> (r: Option<PartialDateTime>)
        ensures
            r == first_date_time(*self),
    {
        if self.values.len() > 0 {
            self.values[0].as_partial_date_time()
        } else {
            None
        }
    }

    /// The time-zone identifier that the entry's first TZID parameter gives.
    pub fn tz_id(&self) -> (r: Option<&str>)
        ensures
            match r {
                Some(s) => first_tzid(self.params@) == Some(s@),
                None => first_tzid(self.params@) is None,
            },
    {
        let mut i: usize = 0;
        assert(self.params@.subrange(0, self.params@.len() as int) =~= self.params@);
        while i < self.params.len()
            invariant
                i <= self.params.len(),
                first_tzid(self.params@) == first_tzid(
                    self.params@.subrange(i as int, self.params@.len() as int),
                ),
            decreases self.params.len() - i,
        {
            let ghost rest = self.params@.subrange(i as int, self.params@.len() as int);
            assert(rest.first() == self.params@[i as int]);
            assert(rest.drop_first() =~= self.params@.subrange(
                i + 1,
                self.params@.len() as int,
            ));
            match &self.params[i] {
                Param::Tzid(id) => {
                    return Some(id.as_str());
                },
                _ => {},
            }
            i += 1;
        }
        None
    }
}

/// A calendar object: its components in document order, and the parsed
/// document from which `calcard` resolves the time zones it defines.
#[derive(Debug)]
pub struct Calendar {
    pub components: Vec<Component>,
    pub zones: ICalendar,
}

} // verus!
