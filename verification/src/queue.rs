//! The timing rules of the outbound message queue: when a message is next
//! due, which message on hold may go, and how long the queue may sleep.

use vstd::prelude::*;
use std::sync::atomic::{AtomicU64, Ordering};
use std::sync::Arc;

verus! {

/// The delivery state of the recipients of one domain.
#[derive(Clone, Copy, Debug, PartialEq, Eq, Structural)]
pub enum Status {
    Scheduled,
    Completed,
    TemporaryFailure,
    PermanentFailure,
}

/// The instant, in Unix seconds, at which something is due.
#[derive(Clone, Copy, Debug, PartialEq, Eq, Structural)]
pub struct Schedule {
    pub due: u64,
}

/// The recipients of a message at one domain.
#[derive(Clone, Copy, Debug, PartialEq, Eq, Structural)]
pub struct Domain {
    pub status: Status,
    /// When delivery is tried next.
    pub retry: Schedule,
    /// When the sender is next told of a delay.
    pub notify: Schedule,
    /// When delivery is given up.
    pub expires: u64,
}

impl Domain {
    /// Whether delivery to this domain is still under way.
    pub open spec fn active(self) -> bool {
        self.status == Status::Scheduled || self.status == Status::TemporaryFailure
    }

    /// Whether delivery to this domain is still under way.
    pub fn is_active(&self) -> (r: bool)
        ensures
            r == self.active(),
    {
        match self.status {
            Status::Scheduled | Status::TemporaryFailure => true,
            _ => false,
        }
    }
}

/// A queued message, as far as its timing goes.
#[derive(Clone, Debug)]
pub struct Message {
    pub domains: Vec<Domain>,
}

/// Whether a domain of `domains` is still under way.
pub open spec fn any_active(domains: Seq<Domain>) -> bool {
    exists|i: int| 0 <= i < domains.len() && (#[trigger] domains[i]).active()
}

/// The three instants that a domain awaits.
#[derive(Clone, Copy, Debug, PartialEq, Eq, Structural)]
pub enum Due {
    Retry,
    Notify,
    Expiry,
}

impl Domain {
    /// The instant of the given kind.
    pub open spec fn due(self, kind: Due) -> u64 {
        match kind {
            Due::Retry => self.retry.due,
            Due::Notify => self.notify.due,
            Due::Expiry => self.expires,
        }
    }

    /// The instant of the given kind.
    pub fn due_at(&self, kind: Due) -> (r: u64)
        ensures
            r == self.due(kind),
    {
        match kind {
            Due::Retry => self.retry.due,
            Due::Notify => self.notify.due,
            Due::Expiry => self.expires,
        }
    }
}

/// Whether `t` is the instant of the given kind of an active domain.
pub open spec fn is_due(domains: Seq<Domain>, kind: Due, t: u64) -> bool {
    exists|i: int|
        0 <= i < domains.len() && (#[trigger] domains[i]).active() && domains[i].due(kind) == t
}

/// Whether `t` is the instant of an event of an active domain: a retry, a
/// notification or the expiry.
pub open spec fn is_event(domains: Seq<Domain>, t: u64) -> bool {
    is_due(domains, Due::Retry, t) || is_due(domains, Due::Notify, t) || is_due(
        domains,
        Due::Expiry,
        t,
    )
}

/// The current time in Unix seconds, zero if the clock stands before 1970.
///
/// Trusted: reads `SystemTime::now`. Nothing is claimed of the result.
#[verifier::external_body]
pub(crate) fn now() -> u64 {
    std::time::SystemTime::now().duration_since(std::time::UNIX_EPOCH).map_or(0, |d| d.as_secs())
}

/// The earlier of an instant found so far, if any, and `t`.
fn earlier(found: Option<u64>, t: u64) -> (r: u64)
    ensures
        r == (match found {
            Some(f) => if t < f {
                t
            } else {
                f
            },
            None => t,
        }),
{
    match found {
        Some(f) => if t < f {
            t
        } else {
            f
        },
        None => t,
    }
}

impl Message {
    /// The earliest event of the active domains, if a domain is active.
    pub fn next_event(&self) -> (r: Option<u64>)
        ensures
            match r {
                Some(t) => is_event(self.domains@, t) && forall|u: u64|
                    is_event(self.domains@, u) ==> t <= u,
                None => !any_active(self.domains@),
            },
    {
        let mut next_event: Option<u64> = None;
        let mut i: usize = 0;
        while i < self.domains.len()
            invariant
                i <= self.domains.len(),
                match next_event {
                    Some(t) => is_event(self.domains@.take(i as int), t) && forall|u: u64|
                        is_event(self.domains@.take(i as int), u) ==> t <= u,
                    None => !any_active(self.domains@.take(i as int)),
                },
            decreases self.domains.len() - i,
        {
            let domain = &self.domains[i];
            let ghost before = self.domains@.take(i as int);
            let ghost after = self.domains@.take(i + 1);
            let ghost held = next_event;
            proof {
                assert(after[i as int] == *domain);
                assert forall|j: int| 0 <= j < i implies before[j] == after[j] by {}
            }
            if domain.is_active() {
                let mut t = earlier(next_event, domain.retry.due);
                t = earlier(Some(t), domain.notify.due);
                t = earlier(Some(t), domain.expires);
                next_event = Some(t);
                proof {
                    assert(is_event(after, t)) by {
                        if t == domain.retry.due || t == domain.notify.due || t == domain.expires {
                            assert(after[i as int].active());
                        } else {
                            let u = held.unwrap();
                            assert(is_event(before, u));
                            lemma_events_grow(before, after, u);
                        }
                    }
                    assert forall|u: u64| is_event(after, u) implies t <= u by {
                        lemma_events_split(before, after, *domain, u);
                        if is_event(before, u) {
                            assert(held is Some) by {
                                lemma_event_needs_active(before, u);
                            }
                        }
                    }
                }
            } else {
                proof {
                    match held {
                        Some(t) => {
                            lemma_events_grow(before, after, t);
                            assert forall|u: u64| is_event(after, u) implies t <= u by {
                                lemma_events_split(before, after, *domain, u);
                            }
                        },
                        None => {
                            if any_active(after) {
                                let j = choose|j: int|
                                    0 <= j < after.len() && (#[trigger] after[j]).active();
                                assert(before[j].active());
                            }
                        },
                    }
                }
            }
            i += 1;
        }
        assert(self.domains@.take(self.domains.len() as int) =~= self.domains@);
        next_event
    }

    /// The earliest event of the active domains that lies after `instant`, if
    /// there is one.
    pub fn next_event_after(&self, instant: u64) -> (r: Option<u64>)
        ensures
            match r {
                Some(t) => t > instant && is_event(self.domains@, t) && forall|u: u64|
                    is_event(self.domains@, u) && u > instant ==> t <= u,
                None => forall|u: u64| is_event(self.domains@, u) ==> u <= instant,
            },
    {
        let mut next_event: Option<u64> = None;
        let mut i: usize = 0;
        while i < self.domains.len()
            invariant
                i <= self.domains.len(),
                match next_event {
                    Some(t) => t > instant && is_event(self.domains@.take(i as int), t)
                        && forall|u: u64|
                        is_event(self.domains@.take(i as int), u) && u > instant ==> t <= u,
                    None => forall|u: u64|
                        is_event(self.domains@.take(i as int), u) ==> u <= instant,
                },
            decreases self.domains.len() - i,
        {
            let domain = &self.domains[i];
            let ghost before = self.domains@.take(i as int);
            let ghost after = self.domains@.take(i + 1);
            let ghost held = next_event;
            proof {
                assert(after[i as int] == *domain);
                assert forall|j: int| 0 <= j < i implies before[j] == after[j] by {}
            }
            if domain.is_active() {
                if domain.retry.due > instant {
                    next_event = Some(earlier(next_event, domain.retry.due));
                }
                if domain.notify.due > instant {
                    next_event = Some(earlier(next_event, domain.notify.due));
                }
                if domain.expires > instant {
                    next_event = Some(earlier(next_event, domain.expires));
                }
            }
            proof {
                match next_event {
                    Some(t) => {
                        assert(is_event(after, t)) by {
                            if domain.active() && (t == domain.retry.due || t == domain.notify.due
                                || t == domain.expires) {
                                assert(after[i as int].active());
                            } else {
                                lemma_events_grow(before, after, held.unwrap());
                            }
                        }
                        assert forall|u: u64| is_event(after, u) && u > instant implies t <= u by {
                            lemma_events_split(before, after, *domain, u);
                        }
                    },
                    None => {
                        assert forall|u: u64| is_event(after, u) implies u <= instant by {
                            lemma_events_split(before, after, *domain, u);
                        }
                    },
                }
            }
            i += 1;
        }
        assert(self.domains@.take(self.domains.len() as int) =~= self.domains@);
        next_event
    }
}

/// An instant due in a list of domains is due in the list with one more
/// domain.
proof fn lemma_due_grows(before: Seq<Domain>, after: Seq<Domain>, kind: Due, t: u64)
    requires
        after.len() == before.len() + 1,
        forall|j: int| 0 <= j < before.len() ==> before[j] == after[j],
        is_due(before, kind, t),
    ensures
        is_due(after, kind, t),
{
    let j = choose|j: int|
        0 <= j < before.len() && (#[trigger] before[j]).active() && before[j].due(kind) == t;
    assert(after[j].active() && after[j].due(kind) == t);
}

/// An instant due in a list with one more domain is due in the shorter list
/// or is that of the last domain.
proof fn lemma_due_splits(before: Seq<Domain>, after: Seq<Domain>, last: Domain, kind: Due, t: u64)
    requires
        after.len() == before.len() + 1,
        forall|j: int| 0 <= j < before.len() ==> before[j] == after[j],
        after[before.len() as int] == last,
        is_due(after, kind, t),
    ensures
        is_due(before, kind, t) || (last.active() && t == last.due(kind)),
{
    let j = choose|j: int|
        0 <= j < after.len() && (#[trigger] after[j]).active() && after[j].due(kind) == t;
    if j < before.len() {
        assert(before[j].active() && before[j].due(kind) == t);
    }
}

/// An event of a list of domains is an event of the list with one more domain.
proof fn lemma_events_grow(before: Seq<Domain>, after: Seq<Domain>, t: u64)
    requires
        after.len() == before.len() + 1,
        forall|j: int| 0 <= j < before.len() ==> before[j] == after[j],
        is_event(before, t),
    ensures
        is_event(after, t),
{
    if is_due(before, Due::Retry, t) {
        lemma_due_grows(before, after, Due::Retry, t);
    } else if is_due(before, Due::Notify, t) {
        lemma_due_grows(before, after, Due::Notify, t);
    } else {
        lemma_due_grows(before, after, Due::Expiry, t);
    }
}

/// An event of a list with one more domain is an event of the shorter list or
/// of the last domain.
proof fn lemma_events_split(before: Seq<Domain>, after: Seq<Domain>, last: Domain, t: u64)
    requires
        after.len() == before.len() + 1,
        forall|j: int| 0 <= j < before.len() ==> before[j] == after[j],
        after[before.len() as int] == last,
        is_event(after, t),
    ensures
        is_event(before, t) || (last.active() && (t == last.retry.due || t == last.notify.due || t
            == last.expires)),
{
    if is_due(after, Due::Retry, t) {
        lemma_due_splits(before, after, last, Due::Retry, t);
    } else if is_due(after, Due::Notify, t) {
        lemma_due_splits(before, after, last, Due::Notify, t);
    } else {
        lemma_due_splits(before, after, last, Due::Expiry, t);
    }
}

/// Where an instant is due there is an active domain.
proof fn lemma_due_needs_active(domains: Seq<Domain>, kind: Due, t: u64)
    requires
        is_due(domains, kind, t),
    ensures
        any_active(domains),
{
    let j = choose|j: int|
        0 <= j < domains.len() && (#[trigger] domains[j]).active() && domains[j].due(kind) == t;
    assert(domains[j].active());
}

/// Where there is an event there is an active domain.
proof fn lemma_event_needs_active(domains: Seq<Domain>, t: u64)
    requires
        is_event(domains, t),
    ensures
        any_active(domains),
{
    if is_due(domains, Due::Retry, t) {
        lemma_due_needs_active(domains, Due::Retry, t);
    } else if is_due(domains, Due::Notify, t) {
        lemma_due_needs_active(domains, Due::Notify, t);
    } else {
        lemma_due_needs_active(domains, Due::Expiry, t);
    }
}

/// Whether `r` is the earliest instant of the given kind among the active
/// domains.
pub open spec fn is_earliest(domains: Seq<Domain>, kind: Due, r: u64) -> bool {
    is_due(domains, kind, r) && forall|u: u64| is_due(domains, kind, u) ==> r <= u
}

impl Message {
    /// The earliest instant of the given kind among the active domains; `now`
    /// where no domain is active.
    pub fn earliest(&self, kind: Due, now: u64) -> (r: u64)
        ensures
            if any_active(self.domains@) {
                is_earliest(self.domains@, kind, r)
            } else {
                r == now
            },
    {
        let mut found: Option<u64> = None;
        let mut i: usize = 0;
        while i < self.domains.len()
            invariant
                i <= self.domains.len(),
                match found {
                    Some(t) => is_due(self.domains@.take(i as int), kind, t) && forall|u: u64|
                        is_due(self.domains@.take(i as int), kind, u) ==> t <= u,
                    None => !any_active(self.domains@.take(i as int)),
                },
            decreases self.domains.len() - i,
        {
            let domain = &self.domains[i];
            let ghost before = self.domains@.take(i as int);
            let ghost after = self.domains@.take(i + 1);
            let ghost held = found;
            proof {
                assert(after[i as int] == *domain);
                assert forall|j: int| 0 <= j < i implies before[j] == after[j] by {}
            }
            if domain.is_active() {
                let t = earlier(found, domain.due_at(kind));
                found = Some(t);
                proof {
                    assert(is_due(after, kind, t)) by {
                        if t == domain.due(kind) {
                            assert(after[i as int].active());
                        } else {
                            lemma_due_grows(before, after, kind, held.unwrap());
                        }
                    }
                    assert forall|u: u64| is_due(after, kind, u) implies t <= u by {
                        lemma_due_splits(before, after, *domain, kind, u);
                        if is_due(before, kind, u) {
                            lemma_due_needs_active(before, kind, u);
                        }
                    }
                }
            } else {
                proof {
                    match held {
                        Some(t) => {
                            lemma_due_grows(before, after, kind, t);
                            assert forall|u: u64| is_due(after, kind, u) implies t <= u by {
                                lemma_due_splits(before, after, *domain, kind, u);
                            }
                        },
                        None => {
                            if any_active(after) {
                                let j = choose|j: int|
                                    0 <= j < after.len() && (#[trigger] after[j]).active();
                                assert(before[j].active());
                            }
                        },
                    }
                }
            }
            i += 1;
        }
        assert(self.domains@.take(self.domains.len() as int) =~= self.domains@);
        match found {
            Some(t) => {
                proof {
                    lemma_due_needs_active(self.domains@, kind, t);
                }
                t
            },
            None => now,
        }
    }

    /// When delivery is next tried: the earliest retry of the active domains,
    /// or the current time where no domain is active.
    pub fn next_delivery_event(&self) -> (r: u64)
        ensures
            any_active(self.domains@) ==> is_earliest(self.domains@, Due::Retry, r),
    {
        let r = self.earliest(Due::Retry, now());
        r
    }

    /// When the sender is next told of a delay: the earliest notification of
    /// the active domains, or the current time where no domain is active.
    pub fn next_dsn(&self) -> (r: u64)
        ensures
            any_active(self.domains@) ==> is_earliest(self.domains@, Due::Notify, r),
    {
        let r = self.earliest(Due::Notify, now());
        r
    }

    /// When the message expires: the earliest expiry of the active domains,
    /// or the current time where no domain is active.
    pub fn expires(&self) -> (r: u64)
        ensures
            any_active(self.domains@) ==> is_earliest(self.domains@, Due::Expiry, r),
    {
        let r = self.earliest(Due::Expiry, now());
        r
    }
}

/// How long the queue sleeps, as seconds and nanoseconds.
#[derive(Clone, Copy, Debug, PartialEq, Eq, Structural)]
pub struct Wait {
    pub secs: u64,
    pub nanos: u32,
}

/// The wait of one millisecond.
pub open spec fn short_wait() -> Wait {
    Wait { secs: 0, nanos: 1_000_000 }
}

/// The wait of a year.
pub open spec fn long_wait() -> Wait {
    Wait { secs: 31_536_000, nanos: 0 }
}

/// The claim of a message on the queue: when it is due and until when the
/// claim holds.
#[derive(Clone, Copy, Debug, PartialEq, Eq, Structural)]
pub struct QueueEventLock {
    pub due: u64,
    pub queue_id: u64,
    pub lock_expiry: u64,
}

/// A limit on the deliveries that run at one time, with the counter of
/// those that run now.
#[derive(Clone, Debug)]
pub struct ConcurrencyLimiter {
    pub max_concurrent: u64,
    pub concurrent: Arc<AtomicU64>,
}

/// A message that waits for a limiter to have room or for an instant.
#[derive(Clone, Debug)]
pub struct OnHold<T> {
    pub next_due: Option<u64>,
    pub limiters: Vec<ConcurrencyLimiter>,
    pub message: T,
}

impl<T> OnHold<T> {
    /// Whether the instant that the message waits for has come at `now`.
    pub open spec fn due_by(self, now: u64) -> bool {
        self.next_due is Some && self.next_due.unwrap() <= now
    }
}

/// The number of deliveries that run now under `limiter`. Other threads
/// change the counter, so nothing is known of the result.
pub fn in_flight(limiter: &ConcurrencyLimiter) -> u64 {
    limiter.concurrent.load(Ordering::Relaxed)
}

/// Whether a message on hold may go: a limiter of its own has room, given the
/// number of deliveries counted for each, or its instant has come.
pub open spec fn ready<T>(counts: Seq<u64>, on_hold: OnHold<T>, now: u64) -> bool {
    (exists|i: int|
        0 <= i < counts.len() && i < on_hold.limiters@.len() && #[trigger] counts[i]
            < on_hold.limiters@[i].max_concurrent) || on_hold.due_by(now)
}

impl ConcurrencyLimiter {
    /// Whether the limiter has room when `count` deliveries run.
    pub fn has_room(&self, count: u64) -> (r: bool)
        ensures
            r == (count < self.max_concurrent),
    {
        count < self.max_concurrent
    }
}

impl<T> OnHold<T> {
    /// Asks each limiter of the message how many deliveries run under it.
    pub fn counts(&self) -> (r: Vec<u64>)
        ensures
            r@.len() == self.limiters@.len(),
    {
        let mut r: Vec<u64> = Vec::new();
        let mut i: usize = 0;
        while i < self.limiters.len()
            invariant
                i <= self.limiters.len(),
                r@.len() == i,
            decreases self.limiters.len() - i,
        {
            r.push(in_flight(&self.limiters[i]));
            i += 1;
        }
        r
    }

    /// Whether the message may go at `now`, when `counts` holds the number of
    /// deliveries that run under each of its limiters.
    pub fn ready_with(&self, counts: &Vec<u64>, now: u64) -> (r: bool)
        ensures
            r == ready(counts@, *self, now),
    {
        let mut i: usize = 0;
        while i < counts.len() && i < self.limiters.len()
            invariant
                forall|j: int|
                    0 <= j < i && j < counts@.len() && j < self.limiters@.len()
                        ==> #[trigger] counts@[j] >= self.limiters@[j].max_concurrent,
            decreases counts.len() - i,
        {
            if self.limiters[i].has_room(counts[i]) {
                return true;
            }
            i += 1;
        }
        match self.next_due {
            Some(due) => due <= now,
            None => false,
        }
    }

    /// Whether the message may go at `now`: its limiters are asked, and the
    /// answer follows from what they say and from the instant it waits for.
    pub fn is_ready(&self, now: u64) -> (r: bool)
        ensures
            self.due_by(now) ==> r,
            r ==> self.due_by(now) || self.limiters@.len() > 0,
    {
        let counts = self.counts();
        self.ready_with(&counts, now)
    }
}

/// The queue of a server `core`: the messages on hold and the time until the
/// queue wakes up next.
#[derive(Debug)]
pub struct Queue<C> {
    pub core: Arc<C>,
    pub on_hold: Vec<OnHold<QueueEventLock>>,
    pub next_wake_up: Wait,
}

impl<C> Queue<C> {
    /// A queue with nothing on hold, which wakes up after a millisecond.
    pub fn new(core: Arc<C>) -> (r: Queue<C>)
        ensures
            r.core == core,
            r.on_hold@ == Seq::<OnHold<QueueEventLock>>::empty(),
            r.next_wake_up == short_wait(),
    {
        Queue {
            core,
            on_hold: Vec::with_capacity(128),
            next_wake_up: Wait { secs: 0, nanos: 1_000_000 },
        }
    }

    /// Puts a message on hold, behind those that are on hold already.
    pub fn on_hold(&mut self, message: OnHold<QueueEventLock>)
        ensures
            final(self).on_hold@ == old(self).on_hold@.push(message),
            final(self).next_wake_up == old(self).next_wake_up,
            final(self).core == old(self).core,
    {
        self.on_hold.push(
            OnHold {
                next_due: message.next_due,
                limiters: message.limiters,
                message: message.message,
            },
        );
    }

    /// Takes the first message on hold that may go at `now`, if there is one.
    ///
    /// No message before the one taken had its instant come; the one taken
    /// had its instant come or has a limiter, which then had room. Where none
    /// is taken, no message on hold had its instant come.
    pub fn next_on_hold_at(&mut self, now: u64) -> (r: Option<QueueEventLock>)
        ensures
            final(self).next_wake_up == old(self).next_wake_up,
            final(self).core == old(self).core,
            match r {
                Some(message) => exists|p: int|
                    0 <= p < old(self).on_hold@.len() && message == (
                    #[trigger] old(self).on_hold@[p]).message && final(self).on_hold@ == old(
                        self,
                    ).on_hold@.remove(p) && (old(self).on_hold@[p].due_by(now) || old(
                        self,
                    ).on_hold@[p].limiters@.len() > 0) && forall|j: int|
                        0 <= j < p ==> !(#[trigger] old(self).on_hold@[j]).due_by(now),
                None => final(self).on_hold@ == old(self).on_hold@ && forall|j: int|
                    0 <= j < old(self).on_hold@.len() ==> !(#[trigger] old(self).on_hold@[j]).due_by(
                        now,
                    ),
            },
    {
        let mut i: usize = 0;
        while i < self.on_hold.len()
            invariant
                i <= self.on_hold.len(),
                *self == *old(self),
                forall|j: int| 0 <= j < i ==> !(#[trigger] self.on_hold@[j]).due_by(now),
            decreases self.on_hold.len() - i,
        {
            if self.on_hold[i].is_ready(now) {
                let taken = self.on_hold.remove(i);
                return Some(taken.message);
            }
            i += 1;
        }
        None
    }

    /// Takes the first message on hold that may go now, if there is one.
    ///
    /// The clock is read once, and the outcome is that of
    /// [`next_on_hold_at`](Queue::next_on_hold_at) at the instant read. So a
    /// message is taken whenever one on hold waits for the instant zero,
    /// which has come at any time, and none is taken from an empty queue.
    pub fn next_on_hold(&mut self) -> (r: Option<QueueEventLock>)
        ensures
            final(self).next_wake_up == old(self).next_wake_up,
            final(self).core == old(self).core,
            exists|now: u64| #[trigger] taken_at(old(self).on_hold@, final(self).on_hold@, r, now),
            always_due(old(self).on_hold@) ==> r is Some,
            old(self).on_hold@.len() == 0 ==> r is None,
    {
        let now = now();
        let r = self.next_on_hold_at(now);
        proof {
            assert(taken_at(old(self).on_hold@, self.on_hold@, r, now));
            if always_due(old(self).on_hold@) {
                let j = choose|j: int|
                    0 <= j < old(self).on_hold@.len() && (#[trigger] old(self).on_hold@[j]).due_by(0);
                assert(old(self).on_hold@[j].due_by(now));
            }
        }
        r
    }

    /// Starts a round over the scheduled messages: until one of them says
    /// otherwise, the queue may sleep for a year.
    pub fn begin_round(&mut self)
        ensures
            final(self).on_hold@ == old(self).on_hold@,
            final(self).core == old(self).core,
            final(self).next_wake_up == long_wait(),
    {
        self.next_wake_up = Wait { secs: 31_536_000, nanos: 0 };
    }

    /// Decides on a scheduled message that is due at `due` when the time is
    /// `now`: it is delivered if it is due, else the queue wakes up when it
    /// is.
    pub fn schedule(&mut self, due: u64, now: u64) -> (deliver: bool)
        ensures
            deliver == (due <= now),
            final(self).on_hold@ == old(self).on_hold@,
            final(self).core == old(self).core,
            final(self).next_wake_up == (if due <= now {
                old(self).next_wake_up
            } else {
                Wait { secs: (due - now) as u64, nanos: 0 }
            }),
    {
        if due <= now {
            true
        } else {
            self.next_wake_up = Wait { secs: due - now, nanos: 0 };
            false
        }
    }
}

/// Whether `r` is what taking the first message that may go at `now` gives,
/// when `before` is on hold and `after` is left on hold.
///
/// Where a message is taken, it stood at some position of `before`, `after`
/// is `before` without it, its instant had come or it has a limiter, and no
/// message before it had its instant come. Where none is taken, nothing
/// changes and no message on hold had its instant come.
pub open spec fn taken_at(
    before: Seq<OnHold<QueueEventLock>>,
    after: Seq<OnHold<QueueEventLock>>,
    r: Option<QueueEventLock>,
    now: u64,
) -> bool {
    match r {
        Some(message) => exists|p: int|
            0 <= p < before.len() && message == (#[trigger] before[p]).message && after
                == before.remove(p) && (before[p].due_by(now) || before[p].limiters@.len() > 0)
                && forall|j: int| 0 <= j < p ==> !(#[trigger] before[j]).due_by(now),
        None => after == before && forall|j: int|
            0 <= j < before.len() ==> !(#[trigger] before[j]).due_by(now),
    }
}

/// Whether a message on hold waits for the instant zero, which has come
/// whatever the clock says.
pub open spec fn always_due(on_hold: Seq<OnHold<QueueEventLock>>) -> bool {
    exists|j: int| 0 <= j < on_hold.len() && (#[trigger] on_hold[j]).due_by(0)
}

} // verus!
