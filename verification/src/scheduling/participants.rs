//! The organizer and the attendees of a scheduling component.

use vstd::prelude::*;
use crate::scheduling::calendar::{
    first_text, CuType, Entry, ForceSend, Param, PartStat, Role, ScheduleAgent,
};
use crate::scheduling::email::{
    classified, classified_uri, classified_uris, emails_view, texts, Email, EmailView,
};

verus! {

/// The position of an item in its list, as the snapshot records it: the index
/// reduced to sixteen bits.
pub open spec fn ordinal(i: int) -> u16 {
    (i % 65536) as u16
}

/// The position `i` as the snapshot records it.
pub fn position(i: usize) -> (r: u16)
    ensures
        r == ordinal(i as int),
{
    (i % 65536) as u16
}

/// The organizer of a scheduling object.
#[derive(Clone, Debug)]
pub struct Organizer {
    /// The position of the ORGANIZER property in its component.
    pub entry_id: u16,
    pub email: Email,
    pub is_server_scheduling: bool,
    pub force_send: Option<ForceSend>,
}

/// The mathematical value of an [`Organizer`].
pub struct OrganizerView {
    pub entry_id: u16,
    pub email: EmailView,
    pub is_server_scheduling: bool,
    pub force_send: Option<ForceSend>,
}

impl View for Organizer {
    type V = OrganizerView;

    open spec fn view(&self) -> OrganizerView {
        OrganizerView {
            entry_id: self.entry_id,
            email: self.email@,
            is_server_scheduling: self.is_server_scheduling,
            force_send: self.force_send,
        }
    }
}

/// An attendee of one instance of a scheduling object.
#[derive(Clone, Debug)]
pub struct Attendee {
    /// The position of the ATTENDEE property in its component.
    pub entry_id: u16,
    pub email: Email,
    pub rsvp: Option<bool>,
    pub is_server_scheduling: bool,
    pub force_send: Option<ForceSend>,
    pub part_stat: Option<PartStat>,
    pub delegated_from: Vec<Email>,
    pub delegated_to: Vec<Email>,
    pub cu_type: Option<CuType>,
    pub role: Option<Role>,
    pub sent_by: Option<Email>,
}

/// The mathematical value of an [`Attendee`].
pub struct AttendeeView {
    pub entry_id: u16,
    pub email: EmailView,
    pub rsvp: Option<bool>,
    pub is_server_scheduling: bool,
    pub force_send: Option<ForceSend>,
    pub part_stat: Option<PartStat>,
    pub delegated_from: Seq<EmailView>,
    pub delegated_to: Seq<EmailView>,
    pub cu_type: Option<CuType>,
    pub role: Option<Role>,
    pub sent_by: Option<EmailView>,
}

/// The value of an optional address.
pub open spec fn email_view(e: Option<Email>) -> Option<EmailView> {
    match e {
        Some(e) => Some(e@),
        None => None,
    }
}

impl View for Attendee {
    type V = AttendeeView;

    open spec fn view(&self) -> AttendeeView {
        AttendeeView {
            entry_id: self.entry_id,
            email: self.email@,
            rsvp: self.rsvp,
            is_server_scheduling: self.is_server_scheduling,
            force_send: self.force_send,
            part_stat: self.part_stat,
            delegated_from: emails_view(self.delegated_from@),
            delegated_to: emails_view(self.delegated_to@),
            cu_type: self.cu_type,
            role: self.role,
            sent_by: email_view(self.sent_by),
        }
    }
}

/// The organizer after one more parameter is read. A scheduling agent other
/// than the client leaves server scheduling as it is; the client ends it for
/// good.
pub open spec fn organizer_with(o: OrganizerView, p: Param) -> OrganizerView {
    match p {
        Param::ScheduleAgent(agent) => OrganizerView {
            is_server_scheduling: o.is_server_scheduling && agent != ScheduleAgent::Client,
            ..o
        },
        Param::ScheduleForceSend(force_send) => OrganizerView { force_send: Some(force_send), ..o },
        _ => o,
    }
}

/// The organizer after `params` are read in order, starting from `o`.
pub open spec fn organizer_scan(o: OrganizerView, params: Seq<Param>) -> OrganizerView
    decreases params.len(),
{
    if params.len() == 0 {
        o
    } else {
        organizer_with(organizer_scan(o, params.drop_last()), params.last())
    }
}

/// The organizer that an ORGANIZER entry at position `entry_id` declares:
/// none unless its first value is a text that classifies as an address.
pub open spec fn organizer_of(entry_id: int, entry: Entry, accounts: Seq<Seq<char>>) -> Option<
    OrganizerView,
> {
    match first_text(entry) {
        Some(text) => match classified(text, accounts) {
            Some(email) => Some(
                organizer_scan(
                    OrganizerView {
                        entry_id: ordinal(entry_id),
                        email,
                        is_server_scheduling: true,
                        force_send: None,
                    },
                    entry.params@,
                ),
            ),
            None => None,
        },
        None => None,
    }
}

/// The attendee after one more parameter is read. Each parameter sets its own
/// field, a later one replacing an earlier one; only the scheduling agent is
/// cumulative, as for the organizer.
pub open spec fn attendee_with(a: AttendeeView, p: Param, accounts: Seq<Seq<char>>) -> AttendeeView {
    match p {
        Param::ScheduleAgent(agent) => AttendeeView {
            is_server_scheduling: a.is_server_scheduling && agent != ScheduleAgent::Client,
            ..a
        },
        Param::Rsvp(rsvp) => AttendeeView { rsvp: Some(rsvp), ..a },
        Param::ScheduleForceSend(force_send) => AttendeeView { force_send: Some(force_send), ..a },
        Param::Partstat(part_stat) => AttendeeView { part_stat: Some(part_stat), ..a },
        Param::Cutype(cu_type) => AttendeeView { cu_type: Some(cu_type), ..a },
        Param::DelegatedFrom(uris) => AttendeeView {
            delegated_from: classified_uris(uris@, accounts),
            ..a
        },
        Param::DelegatedTo(uris) => AttendeeView {
            delegated_to: classified_uris(uris@, accounts),
            ..a
        },
        Param::Role(role) => AttendeeView { role: Some(role), ..a },
        Param::SentBy(uri) => AttendeeView { sent_by: classified_uri(uri, accounts), ..a },
        _ => a,
    }
}

/// The attendee after `params` are read in order, starting from `a`.
pub open spec fn attendee_scan(a: AttendeeView, params: Seq<Param>, accounts: Seq<Seq<char>>) -> AttendeeView
    decreases params.len(),
{
    if params.len() == 0 {
        a
    } else {
        attendee_with(attendee_scan(a, params.drop_last(), accounts), params.last(), accounts)
    }
}

/// An attendee of whom nothing but position and address is known.
pub open spec fn bare_attendee(entry_id: int, email: EmailView) -> AttendeeView {
    AttendeeView {
        entry_id: ordinal(entry_id),
        email,
        rsvp: None,
        is_server_scheduling: true,
        force_send: None,
        part_stat: None,
        delegated_from: Seq::empty(),
        delegated_to: Seq::empty(),
        cu_type: None,
        role: None,
        sent_by: None,
    }
}

/// The attendee that an ATTENDEE entry at position `entry_id` declares: none
/// unless its first value is a text that classifies as an address.
pub open spec fn attendee_of(entry_id: int, entry: Entry, accounts: Seq<Seq<char>>) -> Option<
    AttendeeView,
> {
    match first_text(entry) {
        Some(text) => match classified(text, accounts) {
            Some(email) => Some(
                attendee_scan(bare_attendee(entry_id, email), entry.params@, accounts),
            ),
            None => None,
        },
        None => None,
    }
}

/// The value of an optional organizer.
pub open spec fn organizer_view(o: Option<Organizer>) -> Option<OrganizerView> {
    match o {
        Some(o) => Some(o@),
        None => None,
    }
}

/// The value of an optional attendee.
pub open spec fn attendee_view(a: Option<Attendee>) -> Option<AttendeeView> {
    match a {
        Some(a) => Some(a@),
        None => None,
    }
}

impl Organizer {
    /// Reads the organizer that the ORGANIZER entry `entry`, at position
    /// `entry_id` of its component, declares.
    pub fn from_entry(entry_id: usize, entry: &Entry, accounts: &[String]) -> (r: Option<Organizer>)
        ensures
            organizer_view(r) == organizer_of(entry_id as int, *entry, texts(accounts@)),
    {
        let text = match entry.text() {
            Some(text) => text,
            None => {
                return None;
            },
        };
        let email = match Email::classify(text, accounts) {
            Some(email) => email,
            None => {
                return None;
            },
        };
        let mut part = Organizer {
            entry_id: position(entry_id),
            email,
            is_server_scheduling: true,
            force_send: None,
        };
        let ghost start = part@;
        let mut i: usize = 0;
        assert(entry.params@.take(0) =~= Seq::<Param>::empty());
        while i < entry.params.len()
            invariant
                i <= entry.params.len(),
                part@ == organizer_scan(start, entry.params@.take(i as int)),
            decreases entry.params.len() - i,
        {
            proof {
                let next = entry.params@.take(i + 1);
                assert(next.drop_last() =~= entry.params@.take(i as int));
                assert(next.last() == entry.params@[i as int]);
            }
            match &entry.params[i] {
                Param::ScheduleAgent(agent) => {
                    part.is_server_scheduling = part.is_server_scheduling && !(*agent
                        == ScheduleAgent::Client);
                },
                Param::ScheduleForceSend(force_send) => {
                    part.force_send = Some(*force_send);
                },
                _ => {},
            }
            i += 1;
        }
        assert(entry.params@.take(entry.params.len() as int) =~= entry.params@);
        Some(part)
    }
}

impl Attendee {
    /// Reads the attendee that the ATTENDEE entry `entry`, at position
    /// `entry_id` of its component, declares.
    pub fn from_entry(entry_id: usize, entry: &Entry, accounts: &[String]) -> (r: Option<Attendee>)
        ensures
            attendee_view(r) == attendee_of(entry_id as int, *entry, texts(accounts@)),
    {
        let text = match entry.text() {
            Some(text) => text,
            None => {
                return None;
            },
        };
        let email = match Email::classify(text, accounts) {
            Some(email) => email,
            None => {
                return None;
            },
        };
        let mut part = Attendee {
            entry_id: position(entry_id),
            email,
            rsvp: None,
            is_server_scheduling: true,
            force_send: None,
            part_stat: None,
            delegated_from: Vec::new(),
            delegated_to: Vec::new(),
            cu_type: None,
            role: None,
            sent_by: None,
        };
        assert(emails_view(part.delegated_from@) =~= Seq::<EmailView>::empty());
        assert(emails_view(part.delegated_to@) =~= Seq::<EmailView>::empty());
        let ghost start = part@;
        let mut i: usize = 0;
        assert(entry.params@.take(0) =~= Seq::<Param>::empty());
        while i < entry.params.len()
            invariant
                i <= entry.params.len(),
                part@ == attendee_scan(start, entry.params@.take(i as int), texts(accounts@)),
            decreases entry.params.len() - i,
        {
            proof {
                let next = entry.params@.take(i + 1);
                assert(next.drop_last() =~= entry.params@.take(i as int));
                assert(next.last() == entry.params@[i as int]);
            }
            match &entry.params[i] {
                Param::ScheduleAgent(agent) => {
                    part.is_server_scheduling = part.is_server_scheduling && !(*agent
                        == ScheduleAgent::Client);
                },
                Param::Rsvp(rsvp) => {
                    part.rsvp = Some(*rsvp);
                },
                Param::ScheduleForceSend(force_send) => {
                    part.force_send = Some(*force_send);
                },
                Param::Partstat(part_stat) => {
                    part.part_stat = Some(*part_stat);
                },
                Param::Cutype(cu_type) => {
                    part.cu_type = Some(*cu_type);
                },
                Param::DelegatedFrom(uris) => {
                    part.delegated_from = Email::from_uris(uris, accounts);
                },
                Param::DelegatedTo(uris) => {
                    part.delegated_to = Email::from_uris(uris, accounts);
                },
                Param::Role(role) => {
                    part.role = Some(*role);
                },
                Param::SentBy(uri) => {
                    part.sent_by = Email::from_uri(uri, accounts);
                },
                _ => {},
            }
            i += 1;
        }
        assert(entry.params@.take(entry.params.len() as int) =~= entry.params@);
        Some(part)
    }
}

} // verus!
