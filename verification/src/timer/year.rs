use vstd::prelude::*;
use vstd::string::StringExecFns;
use chrono_tz::Tz;
use crate::calendar::{
    calendar_day, days_in_year, lemma_ordinal0_in_year, lemma_slot_by_month_and_day, slot,
    slot_of_ordinal, valid_date, LEAP_DAY_SLOT,
};
use crate::clock::local_now;
use crate::factor::Factor;
use crate::sunrise_api::{APIResponseDay, Field};
use crate::text::{push_three_places, three_places};
use crate::time::{hhmmss, military, zone_rule, Time};
use crate::timer::blend::{
    blended_length, centre, first_max, is_max_at, lemma_alignment, lemma_blended_length_between,
    lemma_first_max, lemma_scaled_bounds, lemma_window_between, lemma_window_extremes, max, min,
    rotated, window, window_ok,
};
use crate::timer::day;

verus! {

/// The windows of a year, one for each day of a leap year: slot 0 is the
/// first of January, slot 59 the leap day, slot 365 the last of December.
#[derive(Debug, Clone, Copy)]
pub struct Timer {
    /// includes leap day
    day_timers: [day::Timer; 366],
}

impl View for Timer {
    type V = Seq<day::Timer>;

    closed spec fn view(&self) -> Seq<day::Timer> {
        self.day_timers@
    }
}

impl Timer {
    /// Every slot holds a valid window: one that opens and closes at
    /// different times.
    pub open spec fn wf(self) -> bool {
        &&& self@.len() == 366
        &&& forall|i: int| 0 <= i < 366 ==> (#[trigger] self@[i]).wf()
    }

    /// A year has 366 slots.
    pub proof fn lemma_len(self)
        ensures
            self@.len() == 366,
    {
    }

    /// The year of the given windows, the leap day's among them.
    pub fn new(day_timers: [day::Timer; 366]) -> (timer: Self)
        ensures
            timer@ == day_timers@,
            timer@.len() == 366,
            (forall|i: int| 0 <= i < 366 ==> (#[trigger] day_timers@[i]).wf()) ==> timer.wf(),
    {
        Self { day_timers }
    }

    /// The windows of the year, by slot.
    pub fn day_timers(&self) -> (day_timers: &[day::Timer; 366])
        ensures
            day_timers@ == self@,
    {
        &self.day_timers
    }

    /// The lines of the slots `0..slots`: for each the number of the day,
    /// counted from one and written in three places, a blank, the window,
    /// and a line feed.
    pub open spec fn lines(self, slots: int) -> Seq<char>
        decreases slots,
    {
        if slots <= 0 {
            Seq::empty()
        } else {
            self.lines(slots - 1) + three_places(slots) + seq![' '] + self@[slots - 1].text()
                + seq!['\n']
        }
    }

    /// Writes the year, one line for each day.
    pub fn to_text(&self) -> (text: String)
        requires
            self.wf(),
        ensures
            text@ == self.lines(366),
    {
        let mut text = String::new();
        let mut i: usize = 0;
        while i < 366
            invariant
                0 <= i <= 366,
                self.wf(),
                text@ == self.lines(i as int),
            decreases 366 - i,
        {
            let ghost before = text@;
            push_three_places(&mut text, (i + 1) as u16);
            text.append(" ");
            assert(self.day_timers[i as int] == self@[i as int]);
            self.day_timers[i].write_to(&mut text);
            text.append("\n");
            i = i + 1;
            proof {
                reveal_strlit(" ");
                reveal_strlit("\n");
            }
            assert(text@ =~= before + three_places(i as int) + seq![' '] + self@[i - 1].text()
                + seq!['\n']);
        }
        text
    }

    /// The slot of the day that is number `ordinal0` of a leap year or of a
    /// common one.
    pub fn index_of(leap_year: bool, ordinal0: u32) -> (index: usize)
        requires
            ordinal0 < days_in_year(leap_year),
        ensures
            index == slot_of_ordinal(leap_year, ordinal0 as int),
            index < 366,
    {
        let mut index: u32 = ordinal0;
        // skip leap day entry if it's not a leap year
        if !leap_year && index >= LEAP_DAY_SLOT {
            index += 1;
        }
        index as usize
    }

    /// The slot of a calendar date; `None` where the calendar has no such date.
    pub fn index(year: i32, month: u32, day: u32) -> (index: Option<usize>)
        ensures
            index == (if valid_date(year as int, month as int, day as int) {
                Some(slot(year as int, month as int, day as int) as usize)
            } else {
                None
            }),
            index matches Some(i) ==> i < 366,
    {
        match calendar_day(year, month, day) {
            Some((leap_year, ordinal0)) => {
                proof {
                    lemma_ordinal0_in_year(year as int, month as int, day as int);
                }
                Some(Self::index_of(leap_year, ordinal0))
            },
            None => None,
        }
    }

    /// The window of a calendar date; `None` where the calendar has no such date.
    pub fn for_date(&self, year: i32, month: u32, day: u32) -> (timer: Option<&day::Timer>)
        ensures
            match timer {
                Some(timer) => valid_date(year as int, month as int, day as int) && *timer
                    == self@[slot(year as int, month as int, day as int)],
                None => !valid_date(year as int, month as int, day as int),
            },
    {
        match Self::index(year, month, day) {
            Some(index) => {
                proof {
                    lemma_slot_by_month_and_day(year as int, month as int, day as int);
                }
                Some(&self.day_timers[index])
            },
            None => None,
        }
    }

    /// The window of the day that is number `ordinal0` of a leap year or of
    /// a common one.
    pub fn for_day(&self, leap_year: bool, ordinal0: u32) -> (timer: &day::Timer)
        requires
            ordinal0 < days_in_year(leap_year),
        ensures
            *timer == self@[slot_of_ordinal(leap_year, ordinal0 as int)],
    {
        let index = Self::index_of(leap_year, ordinal0);
        &self.day_timers[index]
    }

    /// The window of the day that it is now in `timezone`: that of one slot
    /// of the year, whatever the clock shows.
    pub fn for_today(&self, timezone: Tz) -> (timer: &day::Timer)
        ensures
            exists|i: int| 0 <= i < 366 && *timer == #[trigger] self@[i],
    {
        let now = local_now(timezone);
        let timer = self.for_day(now.leap_year, now.ordinal0);
        assert(*timer == self@[slot_of_ordinal(now.leap_year, now.ordinal0 as int)]);
        timer
    }
}

/// Why no schedule could be computed from the days of the provider.
#[derive(Debug, Clone, Copy, PartialEq, Eq, Structural)]
pub enum Error {
    /// A field that the computation needs is missing in the day of slot
    /// `slot`, or holds no time.
    IncompleteSampleData { slot: usize, field: Field },
    /// The window of slot `slot` cannot be held by a day: it would open
    /// before midnight, close after it, or open and close in one minute, or
    /// the sun of that day sets before it rises.
    OutOfRange { slot: usize },
}

/// What the computation reads of one local day.
#[derive(Debug, Clone, Copy, PartialEq, Eq, Structural)]
pub struct LocalDay {
    /// The length of the day, as the provider reports it.
    pub length: Time,
    pub sunrise: Time,
    pub sunset: Time,
}

impl LocalDay {
    /// The three times are valid.
    pub open spec fn wf(self) -> bool {
        self.length.wf() && self.sunrise.wf() && self.sunset.wf()
    }
}

/// The time that a field written as `HHMM` holds.
pub open spec fn time_of(field: Option<String>) -> Option<Time> {
    match field {
        Some(text) => match military(text@) {
            Some(minutes) => Some(Time::at(minutes)),
            None => None,
        },
        None => None,
    }
}

/// The length that a field written as `HH:MM:SS` holds.
pub open spec fn length_of(field: Option<String>) -> Option<Time> {
    match field {
        Some(text) => match hhmmss(text@) {
            Some(minutes) => Some(Time::at(minutes)),
            None => None,
        },
        None => None,
    }
}

/// What is read of a local day, or the first field that it lacks: the day's
/// length, then sunrise, then sunset.
pub open spec fn local_day_of(day: APIResponseDay) -> Result<LocalDay, Field> {
    match length_of(day.day_length) {
        None => Err(Field::DayLength),
        Some(length) => match time_of(day.sunrise) {
            None => Err(Field::Sunrise),
            Some(sunrise) => match time_of(day.sunset) {
                None => Err(Field::Sunset),
                Some(sunset) => Ok(LocalDay { length, sunrise, sunset }),
            },
        },
    }
}

/// The first local day at or after slot `from` that lacks a field.
pub open spec fn first_incomplete_local(days: Seq<APIResponseDay>, from: int) -> Option<Error>
    decreases days.len() - from,
{
    if from < 0 || from >= days.len() {
        None
    } else {
        match local_day_of(days[from]) {
            Err(field) => Some(Error::IncompleteSampleData { slot: from as usize, field }),
            Ok(_) => first_incomplete_local(days, from + 1),
        }
    }
}

/// The first natural day at or after slot `from` that lacks its length.
pub open spec fn first_incomplete_natural(days: Seq<APIResponseDay>, from: int) -> Option<Error>
    decreases days.len() - from,
{
    if from < 0 || from >= days.len() {
        None
    } else {
        match length_of(days[from].day_length) {
            None => Some(
                Error::IncompleteSampleData { slot: from as usize, field: Field::DayLength },
            ),
            Some(_) => first_incomplete_natural(days, from + 1),
        }
    }
}

/// What is read of each local day, where no day lacks a field.
pub open spec fn local_days_of(days: Seq<APIResponseDay>) -> Seq<LocalDay> {
    Seq::new(days.len(), |i: int| local_day_of(days[i])->Ok_0)
}

/// The length of each natural day, where no day lacks it.
pub open spec fn natural_lengths_of(days: Seq<APIResponseDay>) -> Seq<Time> {
    Seq::new(days.len(), |i: int| length_of(days[i].day_length)->Some_0)
}

/// The minutes since midnight of each time.
pub open spec fn minutes_of(times: Seq<Time>) -> Seq<int> {
    Seq::new(times.len(), |i: int| times[i]@)
}

/// The length of each local day, in minutes.
pub open spec fn local_lengths(days: Seq<LocalDay>) -> Seq<int> {
    Seq::new(days.len(), |i: int| days[i].length@)
}

/// The natural lengths turned so that the longest natural day comes to
/// stand at the slot of the longest local day.
pub open spec fn aligned(local: Seq<LocalDay>, natural: Seq<Time>) -> Seq<Time> {
    rotated(natural, first_max(local_lengths(local)) - first_max(minutes_of(natural)))
}

/// The window of a local day and a natural length under the weight
/// `num / den`, in minutes since midnight.
pub open spec fn day_window(day: LocalDay, natural: Time, num: int, den: int) -> (int, int) {
    window(day.sunrise@, day.sunset@, day.length@, natural@, num, den)
}

/// A day can hold that window.
pub open spec fn day_window_ok(day: LocalDay, natural: Time, num: int, den: int) -> bool {
    window_ok(day.sunrise@, day.sunset@, day.length@, natural@, num, den)
}

/// The first slot at or after `from` whose window no day can hold.
pub open spec fn first_bad_window(
    days: Seq<LocalDay>,
    natural: Seq<Time>,
    num: int,
    den: int,
    from: int,
) -> Option<Error>
    decreases days.len() - from,
{
    if from < 0 || from >= days.len() {
        None
    } else if !day_window_ok(days[from], natural[from], num, den) {
        Some(Error::OutOfRange { slot: from as usize })
    } else {
        first_bad_window(days, natural, num, den, from + 1)
    }
}

/// `timer` is the schedule of the local days and the natural lengths under
/// the weight `num / den`: every slot holds a valid window, the one that the
/// weight gives for that slot.
pub open spec fn is_schedule(
    timer: Timer,
    days: Seq<LocalDay>,
    natural: Seq<Time>,
    num: int,
    den: int,
) -> bool {
    &&& timer.wf()
    &&& forall|i: int|
        0 <= i < 366 ==> (#[trigger] timer@[i])@ == day_window(days[i], natural[i], num, den)
}

/// The window that is read off a day as it stands, from sunrise to sunset;
/// or why there is none: a time is missing, or the two are one.
pub open spec fn direct_window_of(day: APIResponseDay, slot: usize) -> Result<(Time, Time), Error> {
    match time_of(day.sunrise) {
        None => Err(Error::IncompleteSampleData { slot, field: Field::Sunrise }),
        Some(sunrise) => match time_of(day.sunset) {
            None => Err(Error::IncompleteSampleData { slot, field: Field::Sunset }),
            Some(sunset) => if sunrise == sunset {
                Err(Error::OutOfRange { slot })
            } else {
                Ok((sunrise, sunset))
            },
        },
    }
}

/// Why the first day at or after slot `from` that gives no window gives none.
pub open spec fn first_direct_failure(days: Seq<APIResponseDay>, from: int) -> Option<Error>
    decreases days.len() - from,
{
    if from < 0 || from >= days.len() {
        None
    } else {
        match direct_window_of(days[from], from as usize) {
            Err(error) => Some(error),
            Ok(_) => first_direct_failure(days, from + 1),
        }
    }
}

/// Why the days of the two places give no schedules, if they give none:
/// first for want of the zone, then of a field of a local day, then of the
/// length of a natural day; then for the first window that no day can hold,
/// of the blended schedule, of the local-only and of the natural-only one.
pub open spec fn blend_failure(
    num: int,
    den: int,
    local: Seq<APIResponseDay>,
    natural: Seq<APIResponseDay>,
) -> Option<Error> {
    if local[0].timezone is None {
        Some(Error::IncompleteSampleData { slot: 0, field: Field::Timezone })
    } else if first_incomplete_local(local, 0) is Some {
        first_incomplete_local(local, 0)
    } else if first_incomplete_natural(natural, 0) is Some {
        first_incomplete_natural(natural, 0)
    } else {
        let days = local_days_of(local);
        let lengths = aligned(days, natural_lengths_of(natural));
        if first_bad_window(days, lengths, num, den, 0) is Some {
            first_bad_window(days, lengths, num, den, 0)
        } else if first_bad_window(days, lengths, 0, 1, 0) is Some {
            first_bad_window(days, lengths, 0, 1, 0)
        } else {
            first_bad_window(days, lengths, 1, 1, 0)
        }
    }
}

/// The local day is told consistently: its length, laid around the minute
/// halfway between sunrise and sunset, reaches from sunrise to sunset.
pub open spec fn consistent(day: LocalDay) -> bool {
    &&& centre(day.sunrise@, day.sunset@) - day.length@ / 2 == day.sunrise@
    &&& centre(day.sunrise@, day.sunset@) + day.length@ / 2 == day.sunset@
}

/// The days of the two places give the three schedules: the zone is told,
/// no local day lacks its length, sunrise or sunset, no natural day lacks
/// its length, and in every slot a day can hold the window of each of the
/// three weights.
pub open spec fn blendable(
    num: int,
    den: int,
    local: Seq<APIResponseDay>,
    natural: Seq<APIResponseDay>,
) -> bool {
    let days = local_days_of(local);
    let lengths = aligned(days, natural_lengths_of(natural));
    &&& local[0].timezone is Some
    &&& forall|i: int| 0 <= i < local.len() ==> (#[trigger] local_day_of(local[i])) is Ok
    &&& forall|i: int|
        0 <= i < natural.len() ==> (#[trigger] length_of(natural[i].day_length)) is Some
    &&& forall|i: int|
        0 <= i < days.len() ==> {
            &&& #[trigger] day_window_ok(days[i], lengths[i], num, den)
            &&& day_window_ok(days[i], lengths[i], 0, 1)
            &&& day_window_ok(days[i], lengths[i], 1, 1)
        }
}

impl Timer {
    /// The field, or the error that names it as missing in slot `slot`.
    pub fn map_api_day_field<T>(option: &Option<T>, slot: usize, field: Field) -> (mapped: Result<
        &T,
        Error,
    >)
        ensures
            match *option {
                Some(value) => mapped == Ok::<&T, Error>(&value),
                None => mapped == Err::<&T, Error>(Error::IncompleteSampleData { slot, field }),
            },
    {
        match option {
            Some(t) => Ok(t),
            None => Err(Error::IncompleteSampleData { slot, field }),
        }
    }

    /// Reads a field written as `HHMM`.
    fn read_time(text: &Option<String>, slot: usize, field: Field) -> (time: Result<Time, Error>)
        ensures
            match time_of(*text) {
                Some(t) => time == Ok::<Time, Error>(t) && t.wf(),
                None => time == Err::<Time, Error>(Error::IncompleteSampleData { slot, field }),
            },
    {
        match Self::map_api_day_field(text, slot, field) {
            Ok(text) => match Time::try_from_military(text.as_str()) {
                Some(time) => {
                    proof {
                        time.lemma_at_view();
                    }
                    Ok(time)
                },
                None => Err(Error::IncompleteSampleData { slot, field }),
            },
            Err(error) => Err(error),
        }
    }

    /// Reads a field written as `HH:MM:SS`.
    fn read_length(text: &Option<String>, slot: usize) -> (length: Result<Time, Error>)
        ensures
            match length_of(*text) {
                Some(t) => length == Ok::<Time, Error>(t) && t.wf(),
                None => length == Err::<Time, Error>(
                    Error::IncompleteSampleData { slot, field: Field::DayLength },
                ),
            },
    {
        match Self::map_api_day_field(text, slot, Field::DayLength) {
            Ok(text) => match Time::from_hhmmss(text.as_str()) {
                Ok(time) => {
                    proof {
                        time.lemma_at_view();
                    }
                    Ok(time)
                },
                Err(_) => Err(Error::IncompleteSampleData { slot, field: Field::DayLength }),
            },
            Err(error) => Err(error),
        }
    }

    /// Reads what the computation needs of the local day of slot `slot`.
    fn local_day(day: &APIResponseDay, slot: usize) -> (local_day: Result<LocalDay, Error>)
        ensures
            match local_day_of(*day) {
                Ok(d) => local_day == Ok::<LocalDay, Error>(d) && d.wf(),
                Err(field) => local_day == Err::<LocalDay, Error>(
                    Error::IncompleteSampleData { slot, field },
                ),
            },
    {
        let length = match Self::read_length(&day.day_length, slot) {
            Ok(length) => length,
            Err(error) => {
                return Err(error);
            },
        };
        let sunrise = match Self::read_time(&day.sunrise, slot, Field::Sunrise) {
            Ok(sunrise) => sunrise,
            Err(error) => {
                return Err(error);
            },
        };
        let sunset = match Self::read_time(&day.sunset, slot, Field::Sunset) {
            Ok(sunset) => sunset,
            Err(error) => {
                return Err(error);
            },
        };
        Ok(LocalDay { length, sunrise, sunset })
    }

    /// Reads every local day, or names the first field that is missing.
    fn local_days(api_days: &[APIResponseDay]) -> (local_days: Result<Vec<LocalDay>, Error>)
        ensures
            match first_incomplete_local(api_days@, 0) {
                Some(error) => local_days == Err::<Vec<LocalDay>, Error>(error),
                None => local_days matches Ok(days) && days@ == local_days_of(api_days@) && (
                forall|i: int| 0 <= i < days.len() ==> (#[trigger] days[i]).wf()),
            },
    {
        let mut days: Vec<LocalDay> = Vec::new();
        let mut i: usize = 0;
        while i < api_days.len()
            invariant
                i <= api_days.len(),
                days.len() == i,
                first_incomplete_local(api_days@, 0) == first_incomplete_local(api_days@, i as int),
                forall|j: int| 0 <= j < i ==> (#[trigger] days[j]).wf(),
                forall|j: int| 0 <= j < i ==> #[trigger] days[j] == local_days_of(api_days@)[j],
            decreases api_days.len() - i,
        {
            match Self::local_day(&api_days[i], i) {
                Ok(day) => {
                    days.push(day);
                },
                Err(error) => {
                    return Err(error);
                },
            }
            i = i + 1;
        }
        assert(days@ =~= local_days_of(api_days@));
        Ok(days)
    }

    /// Reads the length of every natural day, or names the first that is missing.
    fn natural_day_lengths(api_days: &[APIResponseDay]) -> (lengths: Result<Vec<Time>, Error>)
        ensures
            match first_incomplete_natural(api_days@, 0) {
                Some(error) => lengths == Err::<Vec<Time>, Error>(error),
                None => lengths matches Ok(times) && times@ == natural_lengths_of(api_days@) && (
                forall|i: int| 0 <= i < times.len() ==> (#[trigger] times[i]).wf()),
            },
    {
        let mut lengths: Vec<Time> = Vec::new();
        let mut i: usize = 0;
        while i < api_days.len()
            invariant
                i <= api_days.len(),
                lengths.len() == i,
                first_incomplete_natural(api_days@, 0) == first_incomplete_natural(
                    api_days@,
                    i as int,
                ),
                forall|j: int| 0 <= j < i ==> (#[trigger] lengths[j]).wf(),
                forall|j: int|
                    0 <= j < i ==> #[trigger] lengths[j] == natural_lengths_of(api_days@)[j],
            decreases api_days.len() - i,
        {
            match Self::read_length(&api_days[i].day_length, i) {
                Ok(length) => {
                    lengths.push(length);
                },
                Err(error) => {
                    return Err(error);
                },
            }
            i = i + 1;
        }
        assert(lengths@ =~= natural_lengths_of(api_days@));
        Ok(lengths)
    }

    /// The first slot that holds the greatest of `lengths`.
    fn first_max_index(lengths: &Vec<Time>) -> (index: usize)
        requires
            lengths.len() > 0,
            forall|i: int| 0 <= i < lengths.len() ==> (#[trigger] lengths[i]).wf(),
        ensures
            index == first_max(minutes_of(lengths@)),
            index < lengths.len(),
    {
        let ghost minutes = minutes_of(lengths@);
        let mut index: usize = 0;
        let mut i: usize = 1;
        assert(minutes.subrange(0, 1).len() == 1);
        while i < lengths.len()
            invariant
                1 <= i <= lengths.len(),
                index < i,
                minutes == minutes_of(lengths@),
                index == first_max(minutes.subrange(0, i as int)),
                forall|j: int| 0 <= j < lengths.len() ==> (#[trigger] lengths[j]).wf(),
            decreases lengths.len() - i,
        {
            proof {
                let longer = minutes.subrange(0, i + 1);
                assert(longer.drop_last() == minutes.subrange(0, i as int));
                assert(longer.last() == lengths[i as int]@);
                assert(longer[index as int] == lengths[index as int]@);
            }
            if lengths[i].minutes() > lengths[index].minutes() {
                index = i;
            }
            i = i + 1;
        }
        assert(minutes.subrange(0, i as int) == minutes);
        index
    }

    /// The lengths turned by `shift` slots round the year.
    fn rotate(lengths: &Vec<Time>, shift: i16) -> (turned: Vec<Time>)
        requires
            lengths.len() == 366,
            -366 < shift < 366,
        ensures
            turned@ == rotated(lengths@, shift as int),
    {
        let mut turned: Vec<Time> = Vec::new();
        let mut i: i16 = 0;
        while i < 366
            invariant
                0 <= i <= 366,
                lengths.len() == 366,
                -366 < shift < 366,
                turned.len() == i,
                forall|j: int| 0 <= j < i ==> #[trigger] turned[j] == lengths[(j - shift) % 366],
            decreases 366 - i,
        {
            let distance: i16 = i - shift;
            let source: i16 = if distance < 0 {
                distance + 366
            } else if distance >= 366 {
                distance - 366
            } else {
                distance
            };
            assert(source == (i - shift) % 366);
            turned.push(lengths[source as usize]);
            i = i + 1;
        }
        assert(turned@ =~= rotated(lengths@, shift as int));
        turned
    }

    /// The window of one day under `factor`, where a day can hold it.
    fn blend_day(day: &LocalDay, natural: Time, factor: Factor) -> (timer: Option<day::Timer>)
        requires
            day.wf(),
            natural.wf(),
            factor.is_blend(),
        ensures
            match timer {
                Some(t) => day_window_ok(*day, natural, factor.num(), factor.den()) && t.wf()
                    && t@ == day_window(*day, natural, factor.num(), factor.den()),
                None => !day_window_ok(*day, natural, factor.num(), factor.den()),
            },
    {
        if factor.is_zero() {
            // skip averaging if possible
            if day.sunrise == day.sunset {
                return None;
            }
            proof {
                if day.sunrise@ == day.sunset@ {
                    Time::lemma_view_injective(day.sunrise, day.sunset);
                }
            }
            return Some(day::Timer::new(day.sunrise, day.sunset));
        }
        if day.sunset.minutes() < day.sunrise.minutes() {
            return None;
        }
        proof {
            lemma_scaled_bounds(natural@, factor.num(), factor.den());
            lemma_scaled_bounds(day.length@, factor.den() - factor.num(), factor.den());
            lemma_blended_length_between(day.length@, natural@, factor.num(), factor.den());
        }
        let two = Factor::new(2, 1);
        let averaged_day_length = (natural * factor) + (day.length * factor.complement());
        let half = averaged_day_length / two;
        let center = ((day.sunset - day.sunrise) / two) + day.sunrise;
        let reach: i16 = half.minutes();
        let middle: i16 = center.minutes();
        if reach == 0 || middle < reach || middle + reach >= 1440 {
            return None;
        }
        let on = center - half;
        let off = center + half;
        Some(day::Timer::new(on, off))
    }

    /// The schedule of the local days and the natural lengths under
    /// `natural_factor`: for each slot the window that the weight gives, or
    /// the first slot whose window no day can hold.
    pub fn average(
        local_days: &[LocalDay],
        natural_day_lengths: &[Time],
        natural_factor: Factor,
    ) -> (timer: Result<Self, Error>)
        requires
            local_days.len() == 366,
            natural_day_lengths.len() == 366,
            natural_factor.is_blend(),
            forall|i: int| 0 <= i < 366 ==> (#[trigger] local_days[i]).wf(),
            forall|i: int| 0 <= i < 366 ==> (#[trigger] natural_day_lengths[i]).wf(),
        ensures
            match first_bad_window(
                local_days@,
                natural_day_lengths@,
                natural_factor.num(),
                natural_factor.den(),
                0,
            ) {
                Some(error) => timer == Err::<Self, Error>(error),
                None => timer matches Ok(t) && is_schedule(
                    t,
                    local_days@,
                    natural_day_lengths@,
                    natural_factor.num(),
                    natural_factor.den(),
                ),
            },
    {
        let ghost num = natural_factor.num();
        let ghost den = natural_factor.den();
        let first = match Self::blend_day(&local_days[0], natural_day_lengths[0], natural_factor) {
            Some(first) => first,
            None => {
                return Err(Error::OutOfRange { slot: 0 });
            },
        };
        let mut day_timers: [day::Timer; 366] = [first;366];
        let mut i: usize = 1;
        while i < 366
            invariant
                1 <= i <= 366,
                local_days.len() == 366,
                natural_day_lengths.len() == 366,
                natural_factor.is_blend(),
                num == natural_factor.num(),
                den == natural_factor.den(),
                forall|j: int| 0 <= j < 366 ==> (#[trigger] local_days[j]).wf(),
                forall|j: int| 0 <= j < 366 ==> (#[trigger] natural_day_lengths[j]).wf(),
                first_bad_window(local_days@, natural_day_lengths@, num, den, 0)
                    == first_bad_window(local_days@, natural_day_lengths@, num, den, i as int),
                forall|j: int| 0 <= j < 366 ==> (#[trigger] day_timers@[j]).wf(),
                forall|j: int|
                    0 <= j < i ==> (#[trigger] day_timers@[j])@ == day_window(
                        local_days[j],
                        natural_day_lengths[j],
                        num,
                        den,
                    ),
            decreases 366 - i,
        {
            match Self::blend_day(&local_days[i], natural_day_lengths[i], natural_factor) {
                Some(day_timer) => {
                    day_timers[i] = day_timer;
                },
                None => {
                    return Err(Error::OutOfRange { slot: i });
                },
            }
            i = i + 1;
        }
        Ok(Self::new(day_timers))
    }

    /// The schedule that is read off the days as they stand, each window
    /// from sunrise to sunset; or why the first day that gives no window
    /// gives none.
    pub fn from_api_days(api_days: &[APIResponseDay]) -> (timer: Result<Self, Error>)
        requires
            api_days.len() == 366,
        ensures
            match first_direct_failure(api_days@, 0) {
                Some(error) => timer == Err::<Self, Error>(error),
                None => timer matches Ok(t) && t.wf() && forall|i: int|
                    0 <= i < 366 ==> direct_window_of(api_days[i], i as usize) == Ok::<
                        (Time, Time),
                        Error,
                    >(((#[trigger] t@[i]).on(), t@[i].off())),
            },
    {
        let first = match Self::direct_window(&api_days[0], 0) {
            Ok(first) => first,
            Err(error) => {
                return Err(error);
            },
        };
        let mut day_timers: [day::Timer; 366] = [first;366];
        let mut i: usize = 1;
        while i < 366
            invariant
                1 <= i <= 366,
                api_days.len() == 366,
                first_direct_failure(api_days@, 0) == first_direct_failure(api_days@, i as int),
                forall|j: int| 0 <= j < 366 ==> (#[trigger] day_timers@[j]).wf(),
                forall|j: int|
                    0 <= j < i ==> direct_window_of(api_days[j], j as usize) == Ok::<
                        (Time, Time),
                        Error,
                    >(((#[trigger] day_timers@[j]).on(), day_timers@[j].off())),
            decreases 366 - i,
        {
            match Self::direct_window(&api_days[i], i) {
                Ok(day_timer) => {
                    day_timers[i] = day_timer;
                },
                Err(error) => {
                    return Err(error);
                },
            }
            i = i + 1;
        }
        Ok(Self::new(day_timers))
    }

    /// The window from sunrise to sunset of the day of slot `slot`.
    fn direct_window(day: &APIResponseDay, slot: usize) -> (timer: Result<day::Timer, Error>)
        ensures
            match direct_window_of(*day, slot) {
                Ok(times) => timer matches Ok(t) && t.wf() && t.on() == times.0 && t.off()
                    == times.1,
                Err(error) => timer == Err::<day::Timer, Error>(error),
            },
    {
        let sunrise = match Self::read_time(&day.sunrise, slot, Field::Sunrise) {
            Ok(sunrise) => sunrise,
            Err(error) => {
                return Err(error);
            },
        };
        let sunset = match Self::read_time(&day.sunset, slot, Field::Sunset) {
            Ok(sunset) => sunset,
            Err(error) => {
                return Err(error);
            },
        };
        if sunrise == sunset {
            return Err(Error::OutOfRange { slot });
        }
        Ok(day::Timer::new(sunrise, sunset))
    }

    /// The length of each local day.
    fn local_day_lengths(local_days: &Vec<LocalDay>) -> (lengths: Vec<Time>)
        ensures
            lengths.len() == local_days.len(),
            forall|i: int| 0 <= i < lengths.len() ==> #[trigger] lengths[i] == local_days[i].length,
    {
        let mut lengths: Vec<Time> = Vec::new();
        let mut i: usize = 0;
        while i < local_days.len()
            invariant
                i <= local_days.len(),
                lengths.len() == i,
                forall|j: int| 0 <= j < i ==> #[trigger] lengths[j] == local_days[j].length,
            decreases local_days.len() - i,
        {
            lengths.push(local_days[i].length);
            i = i + 1;
        }
        lengths
    }

    /// The three schedules of a year, and the zone to keep them in: the
    /// schedule blended under `natural_factor`, the local-only schedule
    /// (weight zero) and the natural-only schedule (weight one).
    ///
    /// The natural lengths are first turned round the year so that the
    /// longest natural day stands at the slot of the longest local day.
    pub fn from_api_days_average(
        natural_factor: Factor,
        local_api_days: &[APIResponseDay],
        natural_api_days: &[APIResponseDay],
    ) -> (schedules: Result<(Tz, Self, Self, Self), Error>)
        requires
            natural_factor.is_blend(),
            local_api_days.len() == 366,
            natural_api_days.len() == 366,
        ensures
            match blend_failure(
                natural_factor.num(),
                natural_factor.den(),
                local_api_days@,
                natural_api_days@,
            ) {
                Some(error) => schedules == Err::<(Tz, Self, Self, Self), Error>(error),
                None => schedules matches Ok((zone, blended, local_only, natural_only)) && ({
                    let days = local_days_of(local_api_days@);
                    let lengths = aligned(days, natural_lengths_of(natural_api_days@));
                    &&& exists|host: Option<Seq<char>>|
                        zone == #[trigger] zone_rule(local_api_days[0].timezone->Some_0@, host)
                    &&& is_schedule(blended, days, lengths, natural_factor.num(), natural_factor.den())
                    &&& is_schedule(local_only, days, lengths, 0, 1)
                    &&& is_schedule(natural_only, days, lengths, 1, 1)
                    &&& natural_factor.num() == 0 ==> blended == local_only
                    &&& natural_factor.num() == natural_factor.den() ==> blended == natural_only
                }),
            },
    {
        let ghost num = natural_factor.num();
        let ghost den = natural_factor.den();
        let timezone = match Self::map_api_day_field(
            &local_api_days[0].timezone,
            0,
            Field::Timezone,
        ) {
            Ok(timezone) => Time::zone_from(timezone.as_str()),
            Err(error) => {
                return Err(error);
            },
        };
        let local_days = match Self::local_days(local_api_days) {
            Ok(local_days) => local_days,
            Err(error) => {
                return Err(error);
            },
        };
        let natural_day_lengths = match Self::natural_day_lengths(natural_api_days) {
            Ok(natural_day_lengths) => natural_day_lengths,
            Err(error) => {
                return Err(error);
            },
        };
        let local_day_lengths = Self::local_day_lengths(&local_days);
        assert(minutes_of(local_day_lengths@) =~= local_lengths(local_days@));
        let local_max_index = Self::first_max_index(&local_day_lengths);
        let natural_max_index = Self::first_max_index(&natural_day_lengths);

        // shift natural day lengths to ensure
        // longest natural day is at the date of the longest local day.
        // this is especially useful if local and natural location are in different hemispheres.
        // value is between -365 and 365.
        let shift: i16 = local_max_index as i16 - natural_max_index as i16;
        let natural_day_lengths = Self::rotate(&natural_day_lengths, shift);
        let ghost days = local_days@;
        let ghost lengths = natural_day_lengths@;
        assert(lengths == aligned(days, natural_lengths_of(natural_api_days@)));
        assert forall|i: int| 0 <= i < 366 implies (#[trigger] natural_day_lengths[i]).wf() by {
            let source = (i - shift) % 366;
            assert(0 <= source < 366);
        }
        proof {
            lemma_first_incomplete_local(local_api_days@, 0);
            lemma_direct_is_weight_zero(local_api_days@, lengths, 0);
            lemma_same_weight(days, lengths, 0, den, 0, 1, 0);
            lemma_same_weight(days, lengths, den, den, 1, 1, 0);
        }

        // skip averaging if possible
        let year_timer = if natural_factor.is_zero() {
            match Self::from_api_days(local_api_days) {
                Ok(year_timer) => year_timer,
                Err(error) => {
                    return Err(error);
                },
            }
        } else {
            match Self::average(local_days.as_slice(), natural_day_lengths.as_slice(), natural_factor) {
                Ok(year_timer) => year_timer,
                Err(error) => {
                    return Err(error);
                },
            }
        };
        let local_year_timer = if natural_factor.is_zero() {
            year_timer
        } else {
            match Self::from_api_days(local_api_days) {
                Ok(local_year_timer) => local_year_timer,
                Err(error) => {
                    return Err(error);
                },
            }
        };
        let natural_year_timer = if natural_factor.is_one() {
            year_timer
        } else {
            match Self::average(local_days.as_slice(), natural_day_lengths.as_slice(), Factor::one()) {
                Ok(natural_year_timer) => natural_year_timer,
                Err(error) => {
                    return Err(error);
                },
            }
        };
        Ok((timezone, year_timer, local_year_timer, natural_year_timer))
    }
}

/// The schedules are owed exactly to the days that give them: nothing fails
/// if and only if the days are blendable.
pub proof fn lemma_blendable(
    num: int,
    den: int,
    local: Seq<APIResponseDay>,
    natural: Seq<APIResponseDay>,
)
    ensures
        blend_failure(num, den, local, natural) is None <==> blendable(num, den, local, natural),
{
    let days = local_days_of(local);
    let lengths = aligned(days, natural_lengths_of(natural));
    lemma_first_incomplete_local(local, 0);
    lemma_first_incomplete_natural(natural, 0);
    lemma_first_bad_window(days, lengths, num, den, 0);
    lemma_first_bad_window(days, lengths, 0, 1, 0);
    lemma_first_bad_window(days, lengths, 1, 1, 0);
    if blendable(num, den, local, natural) {
        assert forall|i: int| 0 <= i < days.len() implies #[trigger] day_window_ok(
            days[i],
            lengths[i],
            0,
            1,
        ) by {
            assert(day_window_ok(days[i], lengths[i], num, den));
        }
        assert forall|i: int| 0 <= i < days.len() implies #[trigger] day_window_ok(
            days[i],
            lengths[i],
            1,
            1,
        ) by {
            assert(day_window_ok(days[i], lengths[i], num, den));
        }
    }
}

/// Monotonic interpolation. In a slot whose local day is told consistently,
/// and where truncation leaves half the blended length no shorter than half
/// of both lengths, the blended schedule opens between the openings of the
/// local-only and the natural-only schedule, and closes between their
/// closings.
pub proof fn lemma_blend_between(
    blended: Timer,
    local_only: Timer,
    natural_only: Timer,
    days: Seq<LocalDay>,
    lengths: Seq<Time>,
    num: int,
    den: int,
    slot: int,
)
    requires
        0 <= num <= den,
        0 < den,
        0 <= slot < 366,
        is_schedule(blended, days, lengths, num, den),
        is_schedule(local_only, days, lengths, 0, 1),
        is_schedule(natural_only, days, lengths, 1, 1),
        days[slot].wf(),
        lengths[slot].wf(),
        consistent(days[slot]),
        blended_length(days[slot].length@, lengths[slot]@, num, den) / 2 >= min(
            days[slot].length@ / 2,
            lengths[slot]@ / 2,
        ),
    ensures
        min(local_only@[slot]@.0, natural_only@[slot]@.0) <= blended@[slot]@.0 <= max(
            local_only@[slot]@.0,
            natural_only@[slot]@.0,
        ),
        min(local_only@[slot]@.1, natural_only@[slot]@.1) <= blended@[slot]@.1 <= max(
            local_only@[slot]@.1,
            natural_only@[slot]@.1,
        ),
{
    let day = days[slot];
    let length = lengths[slot];
    lemma_window_between(day.sunrise@, day.sunset@, day.length@, length@, num, den);
    lemma_window_extremes(day.sunrise@, day.sunset@, day.length@, length@, den, 1);
    assert(blended@[slot]@ == day_window(day, length, num, den));
    assert(local_only@[slot]@ == day_window(day, length, 0, 1));
    assert(natural_only@[slot]@ == day_window(day, length, 1, 1));
}

/// Alignment. Among the natural lengths as they are turned for the blend,
/// none is greater than the one at the slot of the longest local day; and
/// that slot is the first to hold the greatest, where no other natural day
/// is as long as the longest.
pub proof fn lemma_aligned_longest_day(days: Seq<LocalDay>, natural: Seq<Time>)
    requires
        days.len() == natural.len(),
        natural.len() > 0,
    ensures
        is_max_at(minutes_of(aligned(days, natural)), first_max(local_lengths(days))),
        (forall|j: int|
            0 <= j < natural.len() && j != first_max(minutes_of(natural)) ==> (
            #[trigger] natural[j])@ < natural[first_max(minutes_of(natural))]@) ==> first_max(
            minutes_of(aligned(days, natural)),
        ) == first_max(local_lengths(days)),
{
    let local = local_lengths(days);
    let lengths = minutes_of(natural);
    let shift = first_max(local) - first_max(lengths);
    lemma_alignment(local, lengths);
    lemma_first_max(lengths);
    assert(lengths[first_max(lengths)] == natural[first_max(lengths)]@);
    assert forall|i: int| 0 <= i < natural.len() implies 0 <= #[trigger] ((i - shift) % (
    natural.len() as int)) < natural.len() by {
        vstd::arithmetic::div_mod::lemma_mod_bound(i - shift, natural.len() as int);
    }
    assert(minutes_of(aligned(days, natural)) =~= rotated(lengths, shift));
    if forall|j: int|
        0 <= j < natural.len() && j != first_max(lengths) ==> (#[trigger] natural[j])@
            < natural[first_max(lengths)]@ {
        assert forall|j: int| 0 <= j < lengths.len() && j != first_max(lengths) implies (
        #[trigger] lengths[j]) < lengths[first_max(lengths)] by {
            assert(lengths[j] == natural[j]@);
        }
    }
}

/// Every window of a valid year opens and closes at different times.
pub proof fn lemma_windows_open_and_close(timer: Timer, slot: int)
    requires
        timer.wf(),
        0 <= slot < 366,
    ensures
        timer@[slot].on() != timer@[slot].off(),
        timer@[slot]@.0 != timer@[slot]@.1,
{
    timer@[slot].lemma_distinct_minutes();
}

/// The weights zero and one give the same windows, and fail at the same
/// slot, whatever denominator writes them.
proof fn lemma_same_weight(
    days: Seq<LocalDay>,
    natural: Seq<Time>,
    num: int,
    den: int,
    other_num: int,
    other_den: int,
    from: int,
)
    requires
        0 < den,
        0 < other_den,
        (num == 0 && other_num == 0) || (num == den && other_num == other_den),
    ensures
        first_bad_window(days, natural, num, den, from) == first_bad_window(
            days,
            natural,
            other_num,
            other_den,
            from,
        ),
        forall|day: LocalDay, length: Time| #[trigger]
            day_window(day, length, num, den) == day_window(day, length, other_num, other_den),
    decreases days.len() - from,
{
    assert forall|day: LocalDay, length: Time| #[trigger]
        day_window(day, length, num, den) == day_window(
            day,
            length,
            other_num,
            other_den,
        ) by {
        lemma_window_extremes(day.sunrise@, day.sunset@, day.length@, length@, den, other_den);
    }
    if 0 <= from < days.len() {
        lemma_same_weight(days, natural, num, den, other_num, other_den, from + 1);
        assert(day_window(days[from], natural[from], num, den) == day_window(
            days[from],
            natural[from],
            other_num,
            other_den,
        ));
    }
}

/// On days that lack no field, the schedule that is read off the days as
/// they stand fails where the schedule of weight zero fails.
proof fn lemma_direct_is_weight_zero(
    api_days: Seq<APIResponseDay>,
    natural: Seq<Time>,
    from: int,
)
    requires
        0 <= from,
        forall|i: int| from <= i < api_days.len() ==> (#[trigger] local_day_of(api_days[i])) is Ok,
    ensures
        first_direct_failure(api_days, from) == first_bad_window(
            local_days_of(api_days),
            natural,
            0,
            1,
            from,
        ),
    decreases api_days.len() - from,
{
    if from < api_days.len() {
        lemma_direct_is_weight_zero(api_days, natural, from + 1);
        let day = local_day_of(api_days[from])->Ok_0;
        assert(local_day_of(api_days[from]) is Ok);
        assert(local_days_of(api_days)[from] == day);
        lemma_read_times(api_days[from].sunrise);
        lemma_read_times(api_days[from].sunset);
        if day.sunrise@ == day.sunset@ {
            Time::lemma_view_injective(day.sunrise, day.sunset);
        }
    }
}

/// A time that is read from a field is a valid time.
proof fn lemma_read_times(field: Option<String>)
    ensures
        time_of(field) matches Some(time) ==> time.wf(),
        length_of(field) matches Some(time) ==> time.wf(),
{
    if let Some(text) = field {
        if let Some(minutes) = military(text@) {
            Time::lemma_at(minutes);
        }
        if let Some(minutes) = hhmmss(text@) {
            Time::lemma_at(minutes);
        }
    }
}

/// From slot `from` on no local day lacks a field, if and only if every
/// such day is read in full.
proof fn lemma_first_incomplete_local(days: Seq<APIResponseDay>, from: int)
    requires
        0 <= from,
    ensures
        first_incomplete_local(days, from) is None <==> forall|i: int|
            from <= i < days.len() ==> (#[trigger] local_day_of(days[i])) is Ok,
    decreases days.len() - from,
{
    if from < days.len() {
        lemma_first_incomplete_local(days, from + 1);
        if first_incomplete_local(days, from) is None {
            assert forall|i: int| from <= i < days.len() implies (#[trigger] local_day_of(
                days[i],
            )) is Ok by {
                if i > from {
                    assert(from + 1 <= i);
                }
            }
        }
    }
}

/// From slot `from` on no natural day lacks its length, if and only if the
/// length of every such day is read.
proof fn lemma_first_incomplete_natural(days: Seq<APIResponseDay>, from: int)
    requires
        0 <= from,
    ensures
        first_incomplete_natural(days, from) is None <==> forall|i: int|
            from <= i < days.len() ==> (#[trigger] length_of(days[i].day_length)) is Some,
    decreases days.len() - from,
{
    if from < days.len() {
        lemma_first_incomplete_natural(days, from + 1);
        if first_incomplete_natural(days, from) is None {
            assert forall|i: int| from <= i < days.len() implies (#[trigger] length_of(
                days[i].day_length,
            )) is Some by {
                if i > from {
                    assert(from + 1 <= i);
                }
            }
        }
    }
}

/// From slot `from` on a day can hold every window, if and only if no
/// window fails.
proof fn lemma_first_bad_window(
    days: Seq<LocalDay>,
    natural: Seq<Time>,
    num: int,
    den: int,
    from: int,
)
    requires
        0 <= from,
    ensures
        first_bad_window(days, natural, num, den, from) is None <==> forall|i: int|
            from <= i < days.len() ==> #[trigger] day_window_ok(days[i], natural[i], num, den),
    decreases days.len() - from,
{
    if from < days.len() {
        lemma_first_bad_window(days, natural, num, den, from + 1);
        if first_bad_window(days, natural, num, den, from) is None {
            assert forall|i: int| from <= i < days.len() implies #[trigger] day_window_ok(
                days[i],
                natural[i],
                num,
                den,
            ) by {
                if i > from {
                    assert(from + 1 <= i);
                }
            }
        }
    }
}

} // verus!
