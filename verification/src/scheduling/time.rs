//! Absolute instants of calendar date-times.
//!
//! The conversion of a date-time to Unix seconds, with the rules of a named
//! time zone or without any zone, is the work of the `calcard` crate. This
//! module declares what the rest of the library relies on.

use vstd::prelude::*;
use calcard::icalendar::ICalendar;
use crate::scheduling::calendar::PartialDateTime;

verus! {

/// The parsed iCalendar document of `calcard`, of which this library reads
/// nothing but hands it back to `calcard` to resolve time zones.
#[verifier::external_type_specification]
#[verifier::external_body]
pub struct ExICalendar(ICalendar);

/// The time zones that a document defines: for each of its VTIMEZONE
/// components of which `calcard` can tell the zone, in document order, the
/// identifier that the component declares and the zone, as the number that
/// `calcard` gives to it.
///
/// This is what `ICalendar::build_tz_resolver` collects.
pub uninterp spec fn zone_definitions(zones: ICalendar) -> Seq<(Seq<char>, u16)>;

/// The instant, in Unix seconds, that `date` denotes in the time zone that
/// `tz_id` names among the zones `definitions`; `None` where `date` denotes
/// no single instant there.
///
/// This is what `calcard` computes: it resolves `tz_id` among the
/// definitions, a later definition of an identifier replacing an earlier one
/// (an identifier that is not defined is read as the name of a zone, and an
/// unknown or missing one resolves to floating time) and converts `date` in
/// the zone found. An offset that `date` itself carries takes precedence
/// over the zone.
pub uninterp spec fn zoned_timestamp(
    definitions: Seq<(Seq<char>, u16)>,
    date: PartialDateTime,
    tz_id: Option<Seq<char>>,
) -> Option<i64>;

/// The instant, in Unix seconds, that `date` denotes when read without a time
/// zone of the document: `None` unless year, month, day, hour and minute are
/// all there; else what `calcard` computes from its fields and the offset it
/// carries.
pub uninterp spec fn floating_timestamp(date: PartialDateTime) -> Option<i64>;

/// The text that an optional string slice holds.
pub open spec fn text_of(s: Option<&str>) -> Option<Seq<char>> {
    match s {
        Some(s) => Some(s@),
        None => None,
    }
}

/// Trusted: `ICalendar::build_tz_resolver`, `TzResolver::resolve`,
/// `PartialDateTime::to_date_time_with_tz` of `calcard` and `DateTime::timestamp`
/// of `chrono`, called in this order. The result depends on the zones that
/// the document defines, on the date and on the identifier alone, and is
/// named [`zoned_timestamp`]; nothing more is claimed of it.
#[verifier::external_body]
pub(crate) fn resolve_timestamp(zones: &ICalendar, date: &PartialDateTime, tz_id: Option<&str>) -> (r:
    Option<i64>)
    ensures
        r == zoned_timestamp(zone_definitions(*zones), *date, text_of(tz_id)),
{
    let date = calcard::common::PartialDateTime {
        year: date.year,
        month: date.month,
        day: date.day,
        hour: date.hour,
        minute: date.minute,
        second: date.second,
        tz_hour: date.tz_hour,
        tz_minute: date.tz_minute,
        tz_minus: date.tz_minus,
    };
    date.to_date_time_with_tz(zones.build_tz_resolver().resolve(tz_id)).map(|dt| dt.timestamp())
}

/// Trusted: `PartialDateTime::to_timestamp` of `calcard`. The result depends
/// on the date alone and is named [`floating_timestamp`].
#[verifier::external_body]
pub(crate) fn to_timestamp(date: &PartialDateTime) -> (r: Option<i64>)
    ensures
        r == floating_timestamp(*date),
{
    let date = calcard::common::PartialDateTime {
        year: date.year,
        month: date.month,
        day: date.day,
        hour: date.hour,
        minute: date.minute,
        second: date.second,
        tz_hour: date.tz_hour,
        tz_minute: date.tz_minute,
        tz_minus: date.tz_minus,
    };
    date.to_timestamp()
}

/// The instant of `date` as the snapshot records it: the instant in the zone
/// that `tz_id` names; where there is none, the instant without a zone; where
/// there is none either, zero.
pub open spec fn timestamp_of(zones: ICalendar, date: PartialDateTime, tz_id: Option<Seq<char>>) -> i64 {
    fallback(zoned_timestamp(zone_definitions(zones), date, tz_id), floating_timestamp(date))
}

/// The instant to record, given the two conversions of a date-time: the
/// zoned one where it exists, else the floating one, else zero.
pub open spec fn fallback(zoned: Option<i64>, floating: Option<i64>) -> i64 {
    match zoned {
        Some(t) => t,
        None => match floating {
            Some(t) => t,
            None => 0,
        },
    }
}

/// Chooses the instant to record from the two conversions of a date-time:
/// the zoned one where it exists, else the floating one, else zero.
pub fn choose_timestamp(zoned: Option<i64>, floating: Option<i64>) -> (r: i64)
    ensures
        r == fallback(zoned, floating),
{
    match zoned {
        Some(t) => t,
        None => match floating {
            Some(t) => t,
            None => 0,
        },
    }
}

/// The instant of `date` in the zone that `tz_id` names in `zones`, with the
/// fall-back to floating time and then to zero.
pub fn timestamp(zones: &ICalendar, date: &PartialDateTime, tz_id: Option<&str>) -> (r: i64)
    ensures
        r == timestamp_of(*zones, *date, text_of(tz_id)),
{
    let zoned = resolve_timestamp(zones, date, tz_id);
    let floating = if zoned.is_none() {
        to_timestamp(date)
    } else {
        None
    };
    choose_timestamp(zoned, floating)
}

} // verus!
