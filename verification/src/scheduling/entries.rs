//! The property values that a snapshot keeps for comparison.

use vstd::prelude::*;
use calcard::icalendar::ICalendar;
use crate::scheduling::calendar::{
    Duration, PartialDateTime, Period, PropertyKind, Status, Uri, Value,
};
use crate::scheduling::time::{text_of, timestamp, timestamp_of};

verus! {

/// A date-time value together with the instant it resolves to.
#[derive(Clone, Debug)]
pub struct ItipDateTime {
    pub date: PartialDateTime,
    pub tz_id: Option<String>,
    /// The instant in Unix seconds.
    pub timestamp: i64,
}

/// The mathematical value of an [`ItipDateTime`].
pub struct ItipDateTimeView {
    pub date: PartialDateTime,
    pub tz_id: Option<Seq<char>>,
    pub timestamp: i64,
}

/// The text of an optional string.
pub open spec fn string_view(s: Option<String>) -> Option<Seq<char>> {
    match s {
        Some(s) => Some(s@),
        None => None,
    }
}

impl View for ItipDateTime {
    type V = ItipDateTimeView;

    open spec fn view(&self) -> ItipDateTimeView {
        ItipDateTimeView {
            date: self.date,
            tz_id: string_view(self.tz_id),
            timestamp: self.timestamp,
        }
    }
}

/// A property value in the reduced form that scheduling compares.
#[derive(Clone, Debug)]
pub enum ItipEntryValue {
    DateTime(ItipDateTime),
    Period(Period),
    Duration(Duration),
    Status(Status),
    RRule(String),
    Text(String),
    Integer(i64),
}

/// The mathematical value of an [`ItipEntryValue`].
pub enum ItipEntryValueView {
    DateTime(ItipDateTimeView),
    Period(Period),
    Duration(Duration),
    Status(Status),
    RRule(Seq<char>),
    Text(Seq<char>),
    Integer(i64),
}

impl View for ItipEntryValue {
    type V = ItipEntryValueView;

    open spec fn view(&self) -> ItipEntryValueView {
        match *self {
            ItipEntryValue::DateTime(d) => ItipEntryValueView::DateTime(d@),
            ItipEntryValue::Period(p) => ItipEntryValueView::Period(p),
            ItipEntryValue::Duration(d) => ItipEntryValueView::Duration(d),
            ItipEntryValue::Status(s) => ItipEntryValueView::Status(s),
            ItipEntryValue::RRule(r) => ItipEntryValueView::RRule(r@),
            ItipEntryValue::Text(t) => ItipEntryValueView::Text(t@),
            ItipEntryValue::Integer(n) => ItipEntryValueView::Integer(n),
        }
    }
}

/// One compared property value of a component.
#[derive(Clone, Debug)]
pub struct ItipEntry {
    pub name: PropertyKind,
    pub value: ItipEntryValue,
}

/// The mathematical value of an [`ItipEntry`].
pub struct ItipEntryView {
    pub name: PropertyKind,
    pub value: ItipEntryValueView,
}

impl View for ItipEntry {
    type V = ItipEntryView;

    open spec fn view(&self) -> ItipEntryView {
        ItipEntryView { name: self.name, value: self.value@ }
    }
}

/// The values of a list of entries, in order.
pub open spec fn entries_view(v: Seq<ItipEntry>) -> Seq<ItipEntryView> {
    v.map_values(|e: ItipEntry| e@)
}

/// The reduced form of a value of a property with time-zone identifier
/// `tz_id`: a location or a text as text, a date-time with its instant, a
/// duration, recurrence rule, period, integer or status as it is, and nothing
/// for any other value.
pub open spec fn projected(v: Value, tz_id: Option<Seq<char>>, zones: ICalendar) -> Option<
    ItipEntryValueView,
> {
    match v {
        Value::Uri(Uri::Location(s)) => Some(ItipEntryValueView::Text(s@)),
        Value::DateTime(date) => Some(
            ItipEntryValueView::DateTime(
                ItipDateTimeView { date, tz_id, timestamp: timestamp_of(zones, date, tz_id) },
            ),
        ),
        Value::Duration(d) => Some(ItipEntryValueView::Duration(d)),
        Value::RecurrenceRule(r) => Some(ItipEntryValueView::RRule(r@)),
        Value::Period(p) => Some(ItipEntryValueView::Period(p)),
        Value::Integer(n) => Some(ItipEntryValueView::Integer(n)),
        Value::Text(s) => Some(ItipEntryValueView::Text(s@)),
        Value::Status(s) => Some(ItipEntryValueView::Status(s)),
        _ => None,
    }
}

/// A set of entries, in the order of their first insertion, after `e` is
/// inserted: unchanged if `e` is in it already.
pub open spec fn with_entry(entries: Seq<ItipEntryView>, e: ItipEntryView) -> Seq<ItipEntryView> {
    if entries.contains(e) {
        entries
    } else {
        entries.push(e)
    }
}

/// The set `entries` after the values of a property `name` are projected and
/// inserted in order.
pub open spec fn with_values(
    entries: Seq<ItipEntryView>,
    name: PropertyKind,
    values: Seq<Value>,
    tz_id: Option<Seq<char>>,
    zones: ICalendar,
) -> Seq<ItipEntryView>
    decreases values.len(),
{
    if values.len() == 0 {
        entries
    } else {
        let before = with_values(entries, name, values.drop_last(), tz_id, zones);
        match projected(values.last(), tz_id, zones) {
            Some(value) => with_entry(before, ItipEntryView { name, value }),
            None => before,
        }
    }
}

/// The value of an optional reduced value.
pub open spec fn value_view(v: Option<ItipEntryValue>) -> Option<ItipEntryValueView> {
    match v {
        Some(v) => Some(v@),
        None => None,
    }
}

/// Whether two optional strings hold the same text.
fn same_text(a: &Option<String>, b: &Option<String>) -> (r: bool)
    ensures
        r == (string_view(*a) == string_view(*b)),
{
    match (a, b) {
        (Some(a), Some(b)) => *a == *b,
        (None, None) => true,
        _ => false,
    }
}

/// A copy of an optional string slice.
fn owned(s: Option<&str>) -> (r: Option<String>)
    ensures
        string_view(r) == text_of(s),
{
    match s {
        Some(s) => Some(s.to_owned()),
        None => None,
    }
}

impl ItipEntryValue {
    /// Projects a value of a property whose time-zone identifier is `tz_id`
    /// to the form that scheduling compares.
    pub fn project(v: &Value, tz_id: Option<&str>, zones: &ICalendar) -> (r: Option<ItipEntryValue>)
        ensures
            value_view(r) == projected(*v, text_of(tz_id), *zones),
    {
        match v {
            Value::Uri(Uri::Location(s)) => Some(ItipEntryValue::Text(s.clone())),
            Value::DateTime(date) => Some(
                ItipEntryValue::DateTime(
                    ItipDateTime {
                        date: *date,
                        tz_id: owned(tz_id),
                        timestamp: timestamp(zones, date, tz_id),
                    },
                ),
            ),
            Value::Duration(d) => Some(ItipEntryValue::Duration(*d)),
            Value::RecurrenceRule(r) => Some(ItipEntryValue::RRule(r.clone())),
            Value::Period(p) => Some(ItipEntryValue::Period(*p)),
            Value::Integer(n) => Some(ItipEntryValue::Integer(*n)),
            Value::Text(s) => Some(ItipEntryValue::Text(s.clone())),
            Value::Status(s) => Some(ItipEntryValue::Status(*s)),
            _ => None,
        }
    }

    /// Whether two values are equal.
    pub fn same(&self, other: &ItipEntryValue) -> (r: bool)
        ensures
            r == (self@ == other@),
    {
        match (self, other) {
            (ItipEntryValue::DateTime(a), ItipEntryValue::DateTime(b)) => a.date == b.date
                && a.timestamp == b.timestamp && same_text(&a.tz_id, &b.tz_id),
            (ItipEntryValue::Period(a), ItipEntryValue::Period(b)) => *a == *b,
            (ItipEntryValue::Duration(a), ItipEntryValue::Duration(b)) => *a == *b,
            (ItipEntryValue::Status(a), ItipEntryValue::Status(b)) => *a == *b,
            (ItipEntryValue::RRule(a), ItipEntryValue::RRule(b)) => *a == *b,
            (ItipEntryValue::Text(a), ItipEntryValue::Text(b)) => *a == *b,
            (ItipEntryValue::Integer(a), ItipEntryValue::Integer(b)) => *a == *b,
            _ => false,
        }
    }
}

impl ItipEntry {
    /// Whether two entries are equal: the same property with the same value.
    pub fn same(&self, other: &ItipEntry) -> (r: bool)
        ensures
            r == (self@ == other@),
    {
        self.name == other.name && self.value.same(&other.value)
    }
}

/// Whether `entries` holds an entry equal to `e`.
pub fn holds_entry(entries: &Vec<ItipEntry>, e: &ItipEntry) -> (r: bool)
    ensures
        r == entries_view(entries@).contains(e@),
{
    let mut i: usize = 0;
    while i < entries.len()
        invariant
            i <= entries.len(),
            forall|j: int| 0 <= j < i ==> entries_view(entries@)[j] != e@,
        decreases entries.len() - i,
    {
        if entries[i].same(e) {
            assert(entries_view(entries@)[i as int] == e@);
            return true;
        }
        i += 1;
    }
    false
}

/// Inserts `e` into the set `entries`; an entry that is there already stays
/// where it is.
pub fn insert_entry(entries: &mut Vec<ItipEntry>, e: ItipEntry)
    ensures
        entries_view(final(entries)@) == with_entry(entries_view(old(entries)@), e@),
{
    if !holds_entry(entries, &e) {
        let ghost before = entries@;
        entries.push(e);
        assert(entries_view(entries@) =~= entries_view(before).push(e@));
    }
}

/// Projects the values of a property `name` and inserts them into `entries`
/// in order.
pub fn insert_values(
    entries: &mut Vec<ItipEntry>,
    name: PropertyKind,
    values: &Vec<Value>,
    tz_id: Option<&str>,
    zones: &ICalendar,
)
    ensures
        entries_view(final(entries)@) == with_values(
            entries_view(old(entries)@),
            name,
            values@,
            text_of(tz_id),
            *zones,
        ),
{
    let mut i: usize = 0;
    assert(values@.take(0) =~= Seq::<Value>::empty());
    while i < values.len()
        invariant
            i <= values.len(),
            entries_view(entries@) == with_values(
                entries_view(old(entries)@),
                name,
                values@.take(i as int),
                text_of(tz_id),
                *zones,
            ),
        decreases values.len() - i,
    {
        proof {
            let next = values@.take(i + 1);
            assert(next.drop_last() =~= values@.take(i as int));
            assert(next.last() == values@[i as int]);
        }
        match ItipEntryValue::project(&values[i], tz_id, zones) {
            Some(value) => {
                insert_entry(entries, ItipEntry { name, value });
            },
            None => {},
        }
        i += 1;
    }
    assert(values@.take(values.len() as int) =~= values@);
}

} // verus!
