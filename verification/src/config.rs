//! The groupware settings and the plain key-value configuration they are
//! read from.

use vstd::prelude::*;
use crate::scheduling::email::texts;
use crate::text::{chars_of, eq_ignore_ascii_case, same_chars, same_ignoring_case};

verus! {

/// Whether `c` is a decimal digit.
pub open spec fn is_digit(c: char) -> bool {
    '0' <= c <= '9'
}

/// The value of a decimal digit.
pub open spec fn digit_value(c: char) -> nat {
    (c as int - '0' as int) as nat
}

/// Whether `s` holds decimal digits only.
pub open spec fn all_digits(s: Seq<char>) -> bool {
    forall|i: int| 0 <= i < s.len() ==> is_digit(#[trigger] s[i])
}

/// The number that a string of decimal digits denotes.
pub open spec fn digits_value(s: Seq<char>) -> nat
    decreases s.len(),
{
    if s.len() == 0 {
        0
    } else {
        digits_value(s.drop_last()) * 10 + digit_value(s.last())
    }
}

/// `s` without a leading plus sign.
pub open spec fn unsigned(s: Seq<char>) -> Seq<char> {
    if s.len() > 0 && s[0] == '+' {
        s.drop_first()
    } else {
        s
    }
}

/// The number that a text denotes: one or more decimal digits, which a plus
/// sign may precede. Any other text denotes no number.
pub open spec fn number_of(s: Seq<char>) -> Option<nat> {
    let digits = unsigned(s);
    if digits.len() > 0 && all_digits(digits) {
        Some(digits_value(digits))
    } else {
        None
    }
}

/// The number that a text denotes, if it is at most `max`.
pub open spec fn number_within(s: Seq<char>, max: nat) -> Option<nat> {
    match number_of(s) {
        Some(n) => if n <= max {
            Some(n)
        } else {
            None
        },
        None => None,
    }
}

/// The value of a prefix of a string of digits is at most the value of the
/// whole string.
proof fn lemma_digits_grow(s: Seq<char>, k: int)
    requires
        0 <= k <= s.len(),
    ensures
        digits_value(s.take(k)) <= digits_value(s),
    decreases s.len() - k,
{
    if k == s.len() {
        assert(s.take(k) =~= s);
    } else {
        lemma_digits_grow(s.drop_last(), k);
        assert(s.drop_last().take(k) =~= s.take(k));
    }
}

/// Reads the number that `s` denotes, if it denotes one that is at most `max`.
pub fn parse_number(s: &str, max: u64) -> (r: Option<u64>)
    ensures
        match r {
            Some(n) => number_within(s@, max as nat) == Some(n as nat),
            None => number_within(s@, max as nat) is None,
        },
{
    let v = chars_of(s);
    let start: usize = if v.len() > 0 && v[0] == '+' {
        1
    } else {
        0
    };
    if start == v.len() {
        return None;
    }
    let ghost digits = unsigned(v@);
    assert(digits =~= v@.subrange(start as int, v@.len() as int));
    let mut acc: u64 = 0;
    let mut i: usize = start;
    assert(digits.take(0) =~= Seq::<char>::empty());
    while i < v.len()
        invariant
            start <= i <= v.len(),
            v@ == s@,
            digits == unsigned(v@),
            digits == v@.subrange(start as int, v@.len() as int),
            all_digits(digits.take(i - start)),
            acc == digits_value(digits.take(i - start)),
            acc <= max,
        decreases v.len() - i,
    {
        let c = v[i];
        let ghost k = i - start;
        proof {
            assert(digits[k] == c);
            assert(digits.take(k + 1).drop_last() =~= digits.take(k));
            assert(digits.take(k + 1).last() == c);
        }
        if !('0' <= c && c <= '9') {
            assert(!is_digit(digits[k]));
            return None;
        }
        let d: u64 = ((c as u8) - 48) as u64;
        assert(d == digit_value(c));
        if acc > max / 10 || d > max - acc * 10 {
            proof {
                assert(digits_value(digits.take(k + 1)) > max);
                lemma_digits_grow(digits, k + 1);
            }
            return None;
        }
        acc = acc * 10 + d;
        i += 1;
        assert forall|j: int| 0 <= j < i - start implies is_digit(
            #[trigger] digits.take(i - start)[j],
        ) by {
            if j < k {
                assert(digits.take(k)[j] == digits.take(k + 1)[j]);
            }
        }
    }
    assert(digits.take(v.len() - start) =~= digits);
    Some(acc)
}

/// One setting: a key and its value.
#[derive(Clone, Debug)]
pub struct Setting {
    pub key: String,
    pub value: String,
}

/// A configuration: the settings in the order they were given, and the keys
/// whose values could not be read.
#[derive(Clone, Debug)]
pub struct Config {
    pub settings: Vec<Setting>,
    pub errors: Vec<String>,
}

/// The value of the first of `settings` with the key `key`.
pub open spec fn value_of(settings: Seq<Setting>, key: Seq<char>) -> Option<Seq<char>>
    decreases settings.len(),
{
    if settings.len() == 0 {
        None
    } else if settings.first().key@ == key {
        Some(settings.first().value@)
    } else {
        value_of(settings.drop_first(), key)
    }
}

/// Whether a value switches a setting off: the empty text, one of `false`,
/// `disable`, `disabled` and `never` in any letter case, or `0`.
pub open spec fn switched_off(v: Seq<char>) -> bool {
    v.len() == 0 || same_ignoring_case(v, "false"@) || same_ignoring_case(v, "disable"@)
        || same_ignoring_case(v, "disabled"@) || same_ignoring_case(v, "never"@) || v == "0"@
}

/// The value that `settings` give to `key`, or `default` where they give none.
pub open spec fn value_or(settings: Seq<Setting>, key: Seq<char>, default: Seq<char>) -> Seq<char> {
    match value_of(settings, key) {
        Some(v) => v,
        None => default,
    }
}

/// The number that `settings` give to `key`: none where the key is missing
/// or its value denotes no number up to `max`.
pub open spec fn number_at(settings: Seq<Setting>, key: Seq<char>, max: nat) -> Option<nat> {
    match value_of(settings, key) {
        Some(v) => number_within(v, max),
        None => None,
    }
}

/// The limit that `settings` give to `key`, with `default` as the value of a
/// missing key: no limit where the value switches the setting off, else the
/// number it denotes; nothing where it denotes no number up to `max`.
pub open spec fn limit_at(settings: Seq<Setting>, key: Seq<char>, default: Seq<char>, max: nat) -> Option<
    Option<nat>,
> {
    let v = value_or(settings, key, default);
    if switched_off(v) {
        Some(None)
    } else {
        match number_within(v, max) {
            Some(n) => Some(Some(n)),
            None => None,
        }
    }
}

/// The name that `settings` give to `key`, with `default` as the value of a
/// missing key: none where the value switches the setting off.
pub open spec fn name_at(settings: Seq<Setting>, key: Seq<char>, default: Seq<char>) -> Option<
    Seq<char>,
> {
    let v = value_or(settings, key, default);
    if switched_off(v) {
        None
    } else {
        Some(v)
    }
}

/// The keys recorded for a number that could not be read: `key` itself where
/// it has a value that denotes no number up to `max`.
pub open spec fn number_errors(settings: Seq<Setting>, key: Seq<char>, max: nat) -> Seq<Seq<char>> {
    if value_of(settings, key) is Some && number_at(settings, key, max) is None {
        seq![key]
    } else {
        Seq::empty()
    }
}

/// The keys recorded for a limit that could not be read.
pub open spec fn limit_errors(settings: Seq<Setting>, key: Seq<char>, default: Seq<char>, max: nat) -> Seq<
    Seq<char>,
> {
    if limit_at(settings, key, default, max) is None {
        seq![key]
    } else {
        Seq::empty()
    }
}

/// Whether a value switches a setting off.
pub fn is_switched_off(v: &str) -> (r: bool)
    ensures
        r == switched_off(v@),
{
    let c = chars_of(v);
    c.len() == 0 || eq_ignore_ascii_case(&c, &chars_of("false")) || eq_ignore_ascii_case(
        &c,
        &chars_of("disable"),
    ) || eq_ignore_ascii_case(&c, &chars_of("disabled")) || eq_ignore_ascii_case(
        &c,
        &chars_of("never"),
    ) || same_chars(&c, &chars_of("0"))
}

/// The largest `usize` as a `u64`.
pub fn usize_max() -> (r: u64)
    ensures
        r == usize::MAX,
{
    usize::MAX as u64
}

impl Config {
    /// The value of the first setting with the key `key`.
    pub fn value(&self, key: &str) -> (r: Option<&str>)
        ensures
            match r {
                Some(v) => value_of(self.settings@, key@) == Some(v@),
                None => value_of(self.settings@, key@) is None,
            },
    {
        let wanted = key.to_owned();
        let mut i: usize = 0;
        assert(self.settings@.subrange(0, self.settings@.len() as int) =~= self.settings@);
        while i < self.settings.len()
            invariant
                i <= self.settings.len(),
                wanted@ == key@,
                value_of(self.settings@, key@) == value_of(
                    self.settings@.subrange(i as int, self.settings@.len() as int),
                    key@,
                ),
            decreases self.settings.len() - i,
        {
            let ghost rest = self.settings@.subrange(i as int, self.settings@.len() as int);
            assert(rest.first() == self.settings@[i as int]);
            assert(rest.drop_first() =~= self.settings@.subrange(
                i + 1,
                self.settings@.len() as int,
            ));
            if self.settings[i].key == wanted {
                return Some(self.settings[i].value.as_str());
            }
            i += 1;
        }
        None
    }

    /// Records that the value of `key` could not be read.
    pub fn new_parse_error(&mut self, key: &str)
        ensures
            final(self).settings@ == old(self).settings@,
            texts(final(self).errors@) == texts(old(self).errors@).push(key@),
    {
        let ghost before = self.errors@;
        self.errors.push(key.to_owned());
        assert(texts(self.errors@) =~= texts(before).push(key@));
    }

    /// Reads the number that the settings give to `key`, and records the key
    /// where its value denotes no number up to `max`.
    pub fn number(&mut self, key: &str, max: u64) -> (r: Option<u64>)
        ensures
            final(self).settings@ == old(self).settings@,
            match r {
                Some(n) => number_at(old(self).settings@, key@, max as nat) == Some(n as nat),
                None => number_at(old(self).settings@, key@, max as nat) is None,
            },
            texts(final(self).errors@) == texts(old(self).errors@) + number_errors(
                old(self).settings@,
                key@,
                max as nat,
            ),
    {
        let r = match self.value(key) {
            Some(v) => parse_number(v, max),
            None => {
                assert(texts(self.errors@) + Seq::<Seq<char>>::empty() =~= texts(self.errors@));
                return None;
            },
        };
        if r.is_none() {
            let ghost before = texts(self.errors@);
            self.new_parse_error(key);
            assert(before + seq![key@] =~= before.push(key@));
        } else {
            assert(texts(self.errors@) + Seq::<Seq<char>>::empty() =~= texts(self.errors@));
        }
        r
    }

    /// Reads the limit that the settings give to `key`, with `default` as the
    /// value of a missing key, and records the key where the value neither
    /// switches the limit off nor denotes a number up to `max`.
    pub fn limit(&mut self, key: &str, default: &str, max: u64) -> (r: Option<Option<u64>>)
        ensures
            final(self).settings@ == old(self).settings@,
            match r {
                Some(Some(n)) => limit_at(old(self).settings@, key@, default@, max as nat) == Some(
                    Some(n as nat),
                ),
                Some(None) => limit_at(old(self).settings@, key@, default@, max as nat) == Some(
                    None::<nat>,
                ),
                None => limit_at(old(self).settings@, key@, default@, max as nat) is None,
            },
            texts(final(self).errors@) == texts(old(self).errors@) + limit_errors(
                old(self).settings@,
                key@,
                default@,
                max as nat,
            ),
    {
        let v = match self.value(key) {
            Some(v) => v,
            None => default,
        };
        let r = if is_switched_off(v) {
            Some(None)
        } else {
            match parse_number(v, max) {
                Some(n) => Some(Some(n)),
                None => None,
            }
        };
        if r.is_none() {
            let ghost before = texts(self.errors@);
            self.new_parse_error(key);
            assert(before + seq![key@] =~= before.push(key@));
        } else {
            assert(texts(self.errors@) + Seq::<Seq<char>>::empty() =~= texts(self.errors@));
        }
        r
    }

    /// Reads the name that the settings give to `key`, with `default` as the
    /// value of a missing key.
    pub fn name(&self, key: &str, default: &str) -> (r: Option<String>)
        ensures
            match r {
                Some(name) => name_at(self.settings@, key@, default@) == Some(name@),
                None => name_at(self.settings@, key@, default@) is None,
            },
    {
        let v = match self.value(key) {
            Some(v) => v,
            None => default,
        };
        if is_switched_off(v) {
            None
        } else {
            Some(v.to_owned())
        }
    }
}

/// The settings of the groupware services.
#[derive(Debug)]
pub struct GroupwareConfig {
    // DAV settings
    pub max_request_size: usize,
    pub dead_property_size: Option<usize>,
    pub live_property_size: usize,
    pub max_lock_timeout: u64,
    pub max_locks_per_user: usize,
    pub max_results: usize,
    // Calendar settings
    pub max_ical_size: usize,
    pub max_ical_instances: usize,
    pub max_ical_attendees_per_instance: usize,
    pub default_calendar_name: Option<String>,
    pub default_calendar_display_name: Option<String>,
    // Addressbook settings
    pub max_vcard_size: usize,
    pub default_addressbook_name: Option<String>,
    pub default_addressbook_display_name: Option<String>,
    // File storage settings
    pub max_file_size: usize,
}

/// The mathematical value of a [`GroupwareConfig`].
pub struct GroupwareConfigView {
    pub max_request_size: nat,
    pub dead_property_size: Option<nat>,
    pub live_property_size: nat,
    pub max_lock_timeout: nat,
    pub max_locks_per_user: nat,
    pub max_results: nat,
    pub max_ical_size: nat,
    pub max_ical_instances: nat,
    pub max_ical_attendees_per_instance: nat,
    pub default_calendar_name: Option<Seq<char>>,
    pub default_calendar_display_name: Option<Seq<char>>,
    pub max_vcard_size: nat,
    pub default_addressbook_name: Option<Seq<char>>,
    pub default_addressbook_display_name: Option<Seq<char>>,
    pub max_file_size: nat,
}

/// The text of an optional name.
pub open spec fn name_view(s: Option<String>) -> Option<Seq<char>> {
    match s {
        Some(s) => Some(s@),
        None => None,
    }
}

/// The value of an optional size.
pub open spec fn size_view(n: Option<usize>) -> Option<nat> {
    match n {
        Some(n) => Some(n as nat),
        None => None,
    }
}

impl View for GroupwareConfig {
    type V = GroupwareConfigView;

    open spec fn view(&self) -> GroupwareConfigView {
        GroupwareConfigView {
            max_request_size: self.max_request_size as nat,
            dead_property_size: size_view(self.dead_property_size),
            live_property_size: self.live_property_size as nat,
            max_lock_timeout: self.max_lock_timeout as nat,
            max_locks_per_user: self.max_locks_per_user as nat,
            max_results: self.max_results as nat,
            max_ical_size: self.max_ical_size as nat,
            max_ical_instances: self.max_ical_instances as nat,
            max_ical_attendees_per_instance: self.max_ical_attendees_per_instance as nat,
            default_calendar_name: name_view(self.default_calendar_name),
            default_calendar_display_name: name_view(self.default_calendar_display_name),
            max_vcard_size: self.max_vcard_size as nat,
            default_addressbook_name: name_view(self.default_addressbook_name),
            default_addressbook_display_name: name_view(self.default_addressbook_display_name),
            max_file_size: self.max_file_size as nat,
        }
    }
}

/// The size that `settings` give to `key`, or `default` where the key is
/// missing or its value is no size.
pub open spec fn size_or(settings: Seq<Setting>, key: Seq<char>, default: nat) -> nat {
    match number_at(settings, key, usize::MAX as nat) {
        Some(n) => n,
        None => default,
    }
}

/// The groupware settings that `settings` give. A key that is missing, or
/// whose value cannot be read, has its default.
pub open spec fn groupware_of(settings: Seq<Setting>) -> GroupwareConfigView {
    GroupwareConfigView {
        max_request_size: size_or(settings, "dav.request.max-size"@, 26214400),
        dead_property_size: match limit_at(
            settings,
            "dav.property.max-size.dead"@,
            "1024"@,
            usize::MAX as nat,
        ) {
            Some(limit) => limit,
            None => Some(1024),
        },
        live_property_size: size_or(settings, "dav.property.max-size.live"@, 250),
        max_lock_timeout: match number_at(settings, "dav.lock.max-timeout"@, u64::MAX as nat) {
            Some(n) => n,
            None => 3600,
        },
        max_locks_per_user: size_or(settings, "dav.locks.max-per-user"@, 10),
        max_results: size_or(settings, "dav.response.max-results"@, 2000),
        max_ical_size: size_or(settings, "calendar.max-size"@, 524288),
        max_ical_instances: size_or(settings, "calendar.max-recurrence-expansions"@, 3000),
        max_ical_attendees_per_instance: size_or(
            settings,
            "calendar.max-attendees-per-instance"@,
            20,
        ),
        default_calendar_name: name_at(settings, "calendar.default.href-name"@, "default"@),
        default_calendar_display_name: name_at(
            settings,
            "calendar.default.display-name"@,
            "Stalwart Calendar"@,
        ),
        max_vcard_size: size_or(settings, "contacts.max-size"@, 524288),
        default_addressbook_name: name_at(settings, "contacts.default.href-name"@, "default"@),
        default_addressbook_display_name: name_at(
            settings,
            "contacts.default.display-name"@,
            "Stalwart Address Book"@,
        ),
        max_file_size: size_or(settings, "file-storage.max-size"@, 26214400),
    }
}

/// The keys that reading the groupware settings records as unreadable, in
/// the order in which the settings are read.
pub open spec fn groupware_errors(settings: Seq<Setting>) -> Seq<Seq<char>> {
    let max = usize::MAX as nat;
    number_errors(settings, "dav.request.max-size"@, max) + limit_errors(
        settings,
        "dav.property.max-size.dead"@,
        "1024"@,
        max,
    ) + number_errors(settings, "dav.property.max-size.live"@, max) + number_errors(
        settings,
        "dav.lock.max-timeout"@,
        u64::MAX as nat,
    ) + number_errors(settings, "dav.locks.max-per-user"@, max) + number_errors(
        settings,
        "dav.response.max-results"@,
        max,
    ) + number_errors(settings, "contacts.max-size"@, max) + number_errors(
        settings,
        "calendar.max-size"@,
        max,
    ) + number_errors(settings, "calendar.max-recurrence-expansions"@, max) + number_errors(
        settings,
        "calendar.max-attendees-per-instance"@,
        max,
    ) + number_errors(settings, "file-storage.max-size"@, max)
}

impl Config {
    /// Reads the size that the settings give to `key`, or `default` where the
    /// key is missing or its value is no size; in the latter case the key is
    /// recorded.
    pub fn size(&mut self, key: &str, default: usize) -> (r: usize)
        ensures
            final(self).settings@ == old(self).settings@,
            r == size_or(old(self).settings@, key@, default as nat),
            texts(final(self).errors@) == texts(old(self).errors@) + number_errors(
                old(self).settings@,
                key@,
                usize::MAX as nat,
            ),
    {
        match self.number(key, usize_max()) {
            Some(n) => n as usize,
            None => default,
        }
    }
}

/// The settings in which every size is zero and no name is set.
pub open spec fn no_settings() -> GroupwareConfigView {
    GroupwareConfigView {
        max_request_size: 0,
        dead_property_size: None,
        live_property_size: 0,
        max_lock_timeout: 0,
        max_locks_per_user: 0,
        max_results: 0,
        max_ical_size: 0,
        max_ical_instances: 0,
        max_ical_attendees_per_instance: 0,
        default_calendar_name: None,
        default_calendar_display_name: None,
        max_vcard_size: 0,
        default_addressbook_name: None,
        default_addressbook_display_name: None,
        max_file_size: 0,
    }
}

impl Default for GroupwareConfig {
    fn default() -> (r: GroupwareConfig)
        ensures
            r@ == no_settings(),
    {
        GroupwareConfig {
            max_request_size: 0,
            dead_property_size: None,
            live_property_size: 0,
            max_lock_timeout: 0,
            max_locks_per_user: 0,
            max_results: 0,
            max_ical_size: 0,
            max_ical_instances: 0,
            max_ical_attendees_per_instance: 0,
            default_calendar_name: None,
            default_calendar_display_name: None,
            max_vcard_size: 0,
            default_addressbook_name: None,
            default_addressbook_display_name: None,
            max_file_size: 0,
        }
    }
}

/// The copy of an optional name.
fn clone_name(name: &Option<String>) -> (r: Option<String>)
    ensures
        name_view(r) == name_view(*name),
{
    match name {
        Some(name) => Some(name.clone()),
        None => None,
    }
}

impl Clone for GroupwareConfig {
    fn clone(&self) -> (r: GroupwareConfig)
        ensures
            r@ == self@,
    {
        GroupwareConfig {
            max_request_size: self.max_request_size,
            dead_property_size: self.dead_property_size,
            live_property_size: self.live_property_size,
            max_lock_timeout: self.max_lock_timeout,
            max_locks_per_user: self.max_locks_per_user,
            max_results: self.max_results,
            max_ical_size: self.max_ical_size,
            max_ical_instances: self.max_ical_instances,
            max_ical_attendees_per_instance: self.max_ical_attendees_per_instance,
            default_calendar_name: clone_name(&self.default_calendar_name),
            default_calendar_display_name: clone_name(&self.default_calendar_display_name),
            max_vcard_size: self.max_vcard_size,
            default_addressbook_name: clone_name(&self.default_addressbook_name),
            default_addressbook_display_name: clone_name(&self.default_addressbook_display_name),
            max_file_size: self.max_file_size,
        }
    }
}

impl GroupwareConfig {
    /// Reads the groupware settings from `config`. A key that is missing, or
    /// whose value cannot be read, has its default; the keys whose values
    /// cannot be read are recorded in `config`.
    pub fn parse(config: &mut Config) -> (r: GroupwareConfig)
        ensures
            r@ == groupware_of(old(config).settings@),
            final(config).settings@ == old(config).settings@,
            texts(final(config).errors@) == texts(old(config).errors@) + groupware_errors(
                old(config).settings@,
            ),
    {
        let ghost settings = config.settings@;
        let ghost start = texts(config.errors@);
        let ghost max = usize::MAX as nat;
        let max_request_size = config.size("dav.request.max-size", 26214400);
        let ghost e1 = number_errors(settings, "dav.request.max-size"@, max);
        let dead_property_size = match config.limit(
            "dav.property.max-size.dead",
            "1024",
            usize_max(),
        ) {
            Some(Some(n)) => Some(n as usize),
            Some(None) => None,
            None => Some(1024),
        };
        let ghost e2 = e1 + limit_errors(settings, "dav.property.max-size.dead"@, "1024"@, max);
        assert(texts(config.errors@) =~= start + e2);
        let live_property_size = config.size("dav.property.max-size.live", 250);
        let ghost e3 = e2 + number_errors(settings, "dav.property.max-size.live"@, max);
        assert(texts(config.errors@) =~= start + e3);
        let max_lock_timeout = match config.number("dav.lock.max-timeout", u64::MAX) {
            Some(n) => n,
            None => 3600,
        };
        let ghost e4 = e3 + number_errors(settings, "dav.lock.max-timeout"@, u64::MAX as nat);
        assert(texts(config.errors@) =~= start + e4);
        let max_locks_per_user = config.size("dav.locks.max-per-user", 10);
        let ghost e5 = e4 + number_errors(settings, "dav.locks.max-per-user"@, max);
        assert(texts(config.errors@) =~= start + e5);
        let max_results = config.size("dav.response.max-results", 2000);
        let ghost e6 = e5 + number_errors(settings, "dav.response.max-results"@, max);
        assert(texts(config.errors@) =~= start + e6);
        let max_vcard_size = config.size("contacts.max-size", 524288);
        let ghost e7 = e6 + number_errors(settings, "contacts.max-size"@, max);
        assert(texts(config.errors@) =~= start + e7);
        let max_ical_size = config.size("calendar.max-size", 524288);
        let ghost e8 = e7 + number_errors(settings, "calendar.max-size"@, max);
        assert(texts(config.errors@) =~= start + e8);
        let default_calendar_name = config.name("calendar.default.href-name", "default");
        let default_addressbook_name = config.name("contacts.default.href-name", "default");
        let default_calendar_display_name = config.name(
            "calendar.default.display-name",
            "Stalwart Calendar",
        );
        let default_addressbook_display_name = config.name(
            "contacts.default.display-name",
            "Stalwart Address Book",
        );
        let max_ical_instances = config.size("calendar.max-recurrence-expansions", 3000);
        let ghost e9 = e8 + number_errors(settings, "calendar.max-recurrence-expansions"@, max);
        assert(texts(config.errors@) =~= start + e9);
        let max_ical_attendees_per_instance = config.size("calendar.max-attendees-per-instance", 20);
        let ghost e10 = e9 + number_errors(settings, "calendar.max-attendees-per-instance"@, max);
        assert(texts(config.errors@) =~= start + e10);
        let max_file_size = config.size("file-storage.max-size", 26214400);
        let ghost e11 = e10 + number_errors(settings, "file-storage.max-size"@, max);
        assert(texts(config.errors@) =~= start + e11);
        GroupwareConfig {
            max_request_size,
            dead_property_size,
            live_property_size,
            max_lock_timeout,
            max_locks_per_user,
            max_results,
            max_ical_size,
            max_ical_instances,
            max_ical_attendees_per_instance,
            default_calendar_name,
            default_calendar_display_name,
            max_vcard_size,
            default_addressbook_name,
            default_addressbook_display_name,
            max_file_size,
        }
    }
}

} // verus!
