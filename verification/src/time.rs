use vstd::prelude::*;
use vstd::string::StringExecFns;
use chrono_tz::Tz;
use crate::clock::{default_zone, host_zone_name, local_now, parse_zone, zone_named};
use crate::decimal::{parse_small, small};
use crate::factor::Factor;
use crate::text::{push_two_digits, two_digits};

verus! {

/// A time of day at minute resolution.
#[derive(Debug, Clone, Copy, PartialEq, Eq, Structural, Ord)]
pub struct Time {
    hour: i8,
    minute: i8,
}

impl View for Time {
    type V = int;

    /// Minutes since midnight.
    open spec fn view(&self) -> int {
        self.spec_hour() * 60 + self.spec_minute()
    }
}

impl Time {
    /// The hour of the day.
    pub closed spec fn spec_hour(self) -> int {
        self.hour as int
    }

    /// The minute of the hour.
    pub closed spec fn spec_minute(self) -> int {
        self.minute as int
    }

    /// The hour lies in `[0, 23]` and the minute in `[0, 59]`.
    pub open spec fn wf(self) -> bool {
        0 <= self.spec_hour() < 24 && 0 <= self.spec_minute() < 60
    }

    /// Valid times are told apart by their minutes since midnight.
    pub proof fn lemma_view_injective(a: Time, b: Time)
        requires
            a.wf(),
            b.wf(),
            a@ == b@,
        ensures
            a == b,
    {
    }

    /// The time `hour:minute`.
    pub fn new(hour: i8, minute: i8) -> (time: Self)
        requires
            0 <= hour < 24,
            0 <= minute < 60,
        ensures
            time.wf(),
            time.spec_hour() == hour,
            time.spec_minute() == minute,
            time == Time::at(hour * 60 + minute),
    {
        Time { hour, minute }
    }

    /// The hour of the day, between 0 and 23.
    pub fn hour(self) -> (hour: i8)
        ensures
            hour == self.spec_hour(),
    {
        self.hour
    }

    /// The minute of the hour, between 0 and 59.
    pub fn minute(self) -> (minute: i8)
        ensures
            minute == self.spec_minute(),
    {
        self.minute
    }

    /// Minutes since midnight.
    pub fn minutes(self) -> (minutes: i16)
        requires
            self.wf(),
        ensures
            minutes == self@,
            0 <= minutes < 1440,
    {
        let minute: i16 = self.minute as i16;
        let hour: i16 = self.hour as i16;
        minute + hour * 60
    }

    /// The time that lies `minutes` after midnight, within the same day.
    pub fn from_minutes(minutes: i16) -> (time: Self)
        requires
            0 <= minutes < 1440,
        ensures
            time.wf(),
            time@ == minutes,
            time == Time::at(minutes as int),
    {
        let hour: i16 = minutes / 60;
        let minute: i16 = minutes - (hour * 60);
        Self::new(hour as i8, minute as i8)
    }

    /// The time that lies `minutes` after midnight.
    pub closed spec fn at(minutes: int) -> Time {
        Time { hour: (minutes / 60) as i8, minute: (minutes % 60) as i8 }
    }

    /// Within a day, `at` is the inverse of the view.
    pub proof fn lemma_at(minutes: int)
        requires
            0 <= minutes < 1440,
        ensures
            Time::at(minutes).wf(),
            Time::at(minutes)@ == minutes,
    {
    }

    /// A valid time is `at` its own minutes since midnight.
    pub proof fn lemma_at_view(self)
        requires
            self.wf(),
        ensures
            Time::at(self@) == self,
    {
    }

    /// The time as it is written: hour and minute in two digits each, with
    /// a colon between them.
    pub open spec fn text(self) -> Seq<char> {
        two_digits(self.spec_hour()) + seq![':'] + two_digits(self.spec_minute())
    }

    /// Writes the time as `HH:MM`.
    pub fn to_text(&self) -> (text: String)
        requires
            self.wf(),
        ensures
            text@ == self.text(),
    {
        let mut text = String::new();
        self.write_to(&mut text);
        text
    }

    /// Appends the time, written as `HH:MM`.
    pub fn write_to(&self, text: &mut String)
        requires
            self.wf(),
        ensures
            final(text)@ == old(text)@ + self.text(),
    {
        proof {
            reveal_strlit(":");
        }
        push_two_digits(text, self.hour as u8);
        text.append(":");
        push_two_digits(text, self.minute as u8);
        assert(text@ =~= old(text)@ + self.text());
    }

    /// The time of a clock that shows the hour `hour` and the minute `minute`.
    pub fn from_clock(hour: u32, minute: u32) -> (time: Self)
        requires
            hour < 24,
            minute < 60,
        ensures
            time.wf(),
            time.spec_hour() == hour,
            time.spec_minute() == minute,
            time == Time::at(hour * 60 + minute),
    {
        Self::new(hour as i8, minute as i8)
    }

    /// The time that the clock shows now in `timezone`: some valid time.
    pub fn now(timezone: Tz) -> (time: Self)
        ensures
            time.wf(),
    {
        let now = local_now(timezone);
        Self::from_clock(now.hour, now.minute)
    }

    /// The zone to keep time in: the zone that `timezone` names; else the
    /// zone that the host is set to; else the default zone.
    pub fn zone_from(timezone: &str) -> (zone: Tz)
        ensures
            exists|host: Option<Seq<char>>| zone == #[trigger] zone_rule(timezone@, host),
    {
        match parse_zone(timezone) {
            Some(zone) => {
                assert(zone == zone_rule(timezone@, None));
                zone
            },
            None => {
                let host = host_zone_name();
                let zone = Self::zone_from_host(&host);
                assert(zone == zone_rule(timezone@, text_of(host)));
                zone
            },
        }
    }

    /// The zone to keep time in where none is reported: the zone that the
    /// host names, `host` being what the host gave as its zone; else the
    /// default zone.
    pub fn zone_from_host(host: &Option<String>) -> (zone: Tz)
        ensures
            zone == zone_of_host(text_of(*host)),
    {
        match host {
            Some(name) => match parse_zone(name.as_str()) {
                Some(zone) => zone,
                None => default_zone(),
            },
            None => default_zone(),
        }
    }

    /// Reads a time written as four characters `HHMM`, as in `"1800"`.
    pub fn from_military(military_time: &str) -> (time: Self)
        requires
            military(military_time@) is Some,
        ensures
            time.wf(),
            Some(time@) == military(military_time@),
    {
        Self::try_from_military(military_time).unwrap()
    }

    /// Reads a time written as `HHMM`; `None` where the text is no such time.
    pub fn try_from_military(military_time: &str) -> (time: Option<Self>)
        ensures
            match time {
                Some(t) => t.wf() && Some(t@) == military(military_time@),
                None => military(military_time@) is None,
            },
    {
        if military_time.unicode_len() != 4 {
            return None;
        }
        let hour = parse_small(military_time, 0, 2);
        let minute = parse_small(military_time, 2, 4);
        Self::from_fields(hour, minute)
    }

    /// Reads a time written as `HH:MM:SS`. Hour and minute are taken from the
    /// first two fields; what follows the second field is not read.
    pub fn from_hhmmss(hhmmss_time: &str) -> (time: Result<Self, ()>)
        ensures
            match time {
                Ok(t) => t.wf() && Some(t@) == hhmmss(hhmmss_time@),
                Err(_) => hhmmss(hhmmss_time@) is None,
            },
    {
        let len: usize = hhmmss_time.unicode_len();
        let first_end: usize = Self::end_of_field(hhmmss_time, 0, len);
        if first_end >= len {
            return Err(());
        }
        let second_end: usize = Self::end_of_field(hhmmss_time, first_end + 1, len);
        let hour = parse_small(hhmmss_time, 0, first_end);
        let minute = parse_small(hhmmss_time, first_end + 1, second_end);
        match Self::from_fields(hour, minute) {
            Some(time) => Ok(time),
            None => Err(()),
        }
    }

    /// The time of two parsed fields, where both are there and in range.
    fn from_fields(hour: Option<i8>, minute: Option<i8>) -> (time: Option<Self>)
        ensures
            match time {
                Some(t) => t.wf() && Some(t@) == of_fields(
                    option_int(hour),
                    option_int(minute),
                ),
                None => of_fields(option_int(hour), option_int(minute)) is None,
            },
    {
        match (hour, minute) {
            (Some(h), Some(m)) => {
                if 0 <= h && h < 24 && 0 <= m && m < 60 {
                    Some(Self::new(h, m))
                } else {
                    None
                }
            },
            _ => None,
        }
    }

    /// The index of the first `:` at or after `from`, or `len` where none follows.
    fn end_of_field(text: &str, from: usize, len: usize) -> (end: usize)
        requires
            from <= len == text@.len(),
        ensures
            end == field_end(text@, from as int),
            from <= end <= len,
    {
        let mut i: usize = from;
        while i < len && text.get_char(i) != ':'
            invariant
                from <= i <= len == text@.len(),
                field_end(text@, from as int) == field_end(text@, i as int),
            decreases len - i,
        {
            i = i + 1;
        }
        i
    }
}

/// The characters of an optional text.
pub open spec fn text_of(text: Option<String>) -> Option<Seq<char>> {
    match text {
        Some(text) => Some(text@),
        None => None,
    }
}

/// The zone that is kept where none is reported: the zone that the host
/// names, where it names one that is listed, else the zone `CET`.
pub open spec fn zone_of_host(host: Option<Seq<char>>) -> Tz {
    match host {
        Some(name) => match zone_named(name) {
            Some(zone) => zone,
            None => zone_named("CET"@).unwrap(),
        },
        None => zone_named("CET"@).unwrap(),
    }
}

/// The zone that is kept: the reported zone where it is listed, else the
/// zone of the host.
pub open spec fn zone_rule(reported: Seq<char>, host: Option<Seq<char>>) -> Tz {
    match zone_named(reported) {
        Some(zone) => zone,
        None => zone_of_host(host),
    }
}

/// The number inside an optional machine integer.
pub open spec fn option_int(value: Option<i8>) -> Option<int> {
    match value {
        Some(v) => Some(v as int),
        None => None,
    }
}

/// Minutes since midnight of an hour and a minute field, where both were
/// read and lie in `[0, 23]` and `[0, 59]`.
pub open spec fn of_fields(hour: Option<int>, minute: Option<int>) -> Option<int> {
    match (hour, minute) {
        (Some(h), Some(m)) => if 0 <= h < 24 && 0 <= m < 60 {
            Some(h * 60 + m)
        } else {
            None
        },
        _ => None,
    }
}

/// Minutes since midnight of a time written as `HHMM`: four characters, two
/// for each field, each field a decimal of its own.
pub open spec fn military(s: Seq<char>) -> Option<int> {
    if s.len() == 4 {
        of_fields(small(s.subrange(0, 2)), small(s.subrange(2, 4)))
    } else {
        None
    }
}

/// The index of the first `:` of `s` at or after `from`, or the length of `s`.
pub open spec fn field_end(s: Seq<char>, from: int) -> int
    decreases s.len() - from,
{
    if from < 0 || from >= s.len() {
        s.len() as int
    } else if s[from] == ':' {
        from
    } else {
        field_end(s, from + 1)
    }
}

/// Minutes since midnight of a time written as `HH:MM:SS`: the first two of
/// the fields that `:` separates, each a decimal of its own.
pub open spec fn hhmmss(s: Seq<char>) -> Option<int> {
    let first_end = field_end(s, 0);
    if first_end >= s.len() {
        None
    } else {
        let second_end = field_end(s, first_end + 1);
        of_fields(
            small(s.subrange(0, first_end)),
            small(s.subrange(first_end + 1, second_end)),
        )
    }
}

impl vstd::std_specs::ops::AddSpecImpl for Time {
    open spec fn obeys_add_spec() -> bool {
        true
    }

    open spec fn add_req(self, rhs: Time) -> bool {
        self.wf() && rhs.wf() && self@ + rhs@ < 1440
    }

    open spec fn add_spec(self, rhs: Time) -> Time {
        Time::at(self@ + rhs@)
    }
}

impl core::ops::Add for Time {
    type Output = Time;

    /// The time that lies as far after `self` as `rhs` lies after midnight.
    fn add(self, rhs: Time) -> (sum: Time)
        ensures
            sum.wf(),
            sum@ == self@ + rhs@,
    {
        let minutes_self: i16 = self.minutes();
        let minutes_rhs: i16 = rhs.minutes();
        let sum = Self::from_minutes(minutes_self + minutes_rhs);
        proof {
            Time::lemma_view_injective(sum, Time::at(self@ + rhs@));
        }
        sum
    }
}

impl vstd::std_specs::ops::SubSpecImpl for Time {
    open spec fn obeys_sub_spec() -> bool {
        true
    }

    open spec fn sub_req(self, rhs: Time) -> bool {
        self.wf() && rhs.wf() && self@ - rhs@ >= 0
    }

    open spec fn sub_spec(self, rhs: Time) -> Time {
        Time::at(self@ - rhs@)
    }
}

impl core::ops::Sub for Time {
    type Output = Time;

    /// The time that lies as far before `self` as `rhs` lies after midnight.
    fn sub(self, rhs: Time) -> (difference: Time)
        ensures
            difference.wf(),
            difference@ == self@ - rhs@,
    {
        let minutes_self: i16 = self.minutes();
        let minutes_rhs: i16 = rhs.minutes();
        let difference = Self::from_minutes(minutes_self - minutes_rhs);
        proof {
            Time::lemma_view_injective(difference, Time::at(self@ - rhs@));
        }
        difference
    }
}

impl vstd::std_specs::ops::MulSpecImpl<Factor> for Time {
    open spec fn obeys_mul_spec() -> bool {
        true
    }

    open spec fn mul_req(self, rhs: Factor) -> bool {
        self.wf() && rhs.wf() && rhs.scale(self@) < 1440
    }

    open spec fn mul_spec(self, rhs: Factor) -> Time {
        Time::at(rhs.scale(self@))
    }
}

impl core::ops::Mul<Factor> for Time {
    type Output = Time;

    /// The minutes since midnight times `rhs`, truncated to whole minutes.
    fn mul(self, rhs: Factor) -> (product: Time)
        ensures
            product.wf(),
            product@ == rhs.scale(self@),
    {
        let minutes: u64 = self.minutes() as u64;
        let numerator: u64 = rhs.numerator() as u64;
        let denominator: u64 = rhs.denominator() as u64;
        assert(minutes * numerator <= 1439 * 0xffff_ffff) by (nonlinear_arith)
            requires
                0 <= minutes <= 1439,
                0 <= numerator <= 0xffff_ffff,
        ;
        let scaled: u64 = (minutes * numerator) / denominator;
        let product = Self::from_minutes(scaled as i16);
        proof {
            Time::lemma_view_injective(product, Time::at(rhs.scale(self@)));
        }
        product
    }
}

impl vstd::std_specs::ops::DivSpecImpl<Factor> for Time {
    open spec fn obeys_div_spec() -> bool {
        true
    }

    open spec fn div_req(self, rhs: Factor) -> bool {
        self.wf() && rhs.wf() && rhs.num() > 0 && rhs.unscale(self@) < 1440
    }

    open spec fn div_spec(self, rhs: Factor) -> Time {
        Time::at(rhs.unscale(self@))
    }
}

impl core::ops::Div<Factor> for Time {
    type Output = Time;

    /// The minutes since midnight divided by `rhs`, truncated to whole minutes.
    fn div(self, rhs: Factor) -> (quotient: Time)
        ensures
            quotient.wf(),
            quotient@ == rhs.unscale(self@),
    {
        let minutes: u64 = self.minutes() as u64;
        let numerator: u64 = rhs.numerator() as u64;
        let denominator: u64 = rhs.denominator() as u64;
        assert(minutes * denominator <= 1439 * 0xffff_ffff) by (nonlinear_arith)
            requires
                0 <= minutes <= 1439,
                0 <= denominator <= 0xffff_ffff,
        ;
        let scaled: u64 = (minutes * denominator) / numerator;
        let quotient = Self::from_minutes(scaled as i16);
        proof {
            Time::lemma_view_injective(quotient, Time::at(rhs.unscale(self@)));
        }
        quotient
    }
}

} // verus!
