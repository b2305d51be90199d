//! The loop that drives the switch: once in every minute it holds the
//! clock against the window of the day.

use vstd::prelude::*;
use chrono_tz::Tz;
use crate::time::Time;
use crate::timer::day;
use crate::timer::year;

verus! {

/// What a look at the clock asks of the switch.
#[derive(Debug, Clone, Copy, PartialEq, Eq, Structural)]
pub enum Action {
    /// Leave the switch as it is.
    Nothing,
    /// Turn the switch on.
    TurnOn,
    /// Turn the switch off.
    TurnOff,
}

/// What the loop remembers from one look at the clock to the next.
#[derive(Debug, Clone, Copy)]
pub struct Watch {
    /// to avoid matching timers more than once per minute
    last_checked_time: Option<Time>,
}

/// What a look at the clock asks of the switch: nothing in a minute that
/// was looked at before; else to turn on in the minute in which the window
/// opens, and off in the minute in which it closes.
pub open spec fn action_at(last: Option<Time>, now: Time, day_timer: day::Timer) -> Action {
    if last == Some(now) {
        Action::Nothing
    } else if now == day_timer.on() {
        Action::TurnOn
    } else if now == day_timer.off() {
        Action::TurnOff
    } else {
        Action::Nothing
    }
}

/// How many of the looks at the clock `times`, taken in turn after a look at
/// `last`, ask something of the switch.
pub open spec fn actions_fired(last: Option<Time>, times: Seq<Time>, day_timer: day::Timer) -> nat
    decreases times.len(),
{
    if times.len() == 0 {
        0
    } else {
        let before = actions_fired(last, times.drop_last(), day_timer);
        let seen = if times.len() == 1 {
            last
        } else {
            Some(times[times.len() - 2])
        };
        if action_at(seen, times.last(), day_timer) == Action::Nothing {
            before
        } else {
            before + 1
        }
    }
}

/// However often the clock shows one minute, the switch is asked at most
/// once in it; and not at all where that minute was looked at before.
pub proof fn lemma_once_per_minute(
    last: Option<Time>,
    now: Time,
    times: Seq<Time>,
    day_timer: day::Timer,
)
    requires
        forall|i: int| 0 <= i < times.len() ==> #[trigger] times[i] == now,
    ensures
        actions_fired(last, times, day_timer) <= 1,
        last == Some(now) ==> actions_fired(last, times, day_timer) == 0,
        times.len() > 0 ==> actions_fired(last, times, day_timer) == (if action_at(
            last,
            now,
            day_timer,
        ) == Action::Nothing {
            0nat
        } else {
            1nat
        }),
    decreases times.len(),
{
    if times.len() > 0 {
        let shorter = times.drop_last();
        assert forall|i: int| 0 <= i < shorter.len() implies #[trigger] shorter[i] == now by {
            assert(shorter[i] == times[i]);
        }
        lemma_once_per_minute(last, now, shorter, day_timer);
        assert(times.last() == times[times.len() - 1]);
        if times.len() > 1 {
            assert(times[times.len() - 2] == now);
        }
    }
}

/// At or before the minute `now`, how many of the two boundaries of the
/// window have come.
pub open spec fn boundaries_by(now: Time, day_timer: day::Timer) -> nat {
    (if day_timer.on()@ <= now@ {
        1nat
    } else {
        0nat
    }) + (if day_timer.off()@ <= now@ {
        1nat
    } else {
        0nat
    })
}

/// While the clock does not go back, the switch is asked at most twice:
/// looks at a clock that only goes forward, through the minutes of one
/// window, ask at most once for each boundary that has come.
pub proof fn lemma_twice_per_day(last: Option<Time>, times: Seq<Time>, day_timer: day::Timer)
    requires
        day_timer.wf(),
        forall|i: int| 0 <= i < times.len() ==> (#[trigger] times[i]).wf(),
        forall|i: int, j: int| 0 <= i <= j < times.len() ==> times[i]@ <= times[j]@,
    ensures
        actions_fired(last, times, day_timer) <= 2,
        times.len() > 0 ==> actions_fired(last, times, day_timer) <= boundaries_by(
            times.last(),
            day_timer,
        ),
    decreases times.len(),
{
    if times.len() > 0 {
        let shorter = times.drop_last();
        let now = times.last();
        assert forall|i: int| 0 <= i < shorter.len() implies (#[trigger] shorter[i]).wf() by {
            assert(shorter[i] == times[i]);
        }
        assert forall|i: int, j: int| 0 <= i <= j < shorter.len() implies shorter[i]@
            <= shorter[j]@ by {
            assert(shorter[i] == times[i]);
            assert(shorter[j] == times[j]);
        }
        lemma_twice_per_day(last, shorter, day_timer);
        assert(now == times[times.len() - 1]);
        if times.len() > 1 {
            let before = times[times.len() - 2];
            assert(shorter.last() == before);
            assert(before@ <= now@);
            if before@ == now@ {
                Time::lemma_view_injective(before, now);
            }
        }
    }
}

/// A valid window opens and closes in different minutes: no look at the
/// clock can ask for both.
pub proof fn lemma_on_and_off_exclude(now: Time, day_timer: day::Timer)
    requires
        day_timer.wf(),
    ensures
        !(now == day_timer.on() && now == day_timer.off()),
{
}

impl Watch {
    /// The minute that was looked at last.
    pub closed spec fn last(self) -> Option<Time> {
        self.last_checked_time
    }

    /// A loop that has not looked at the clock yet.
    pub fn new() -> (watch: Self)
        ensures
            watch.last() is None,
    {
        Watch { last_checked_time: None }
    }

    pub fn last_checked_time(&self) -> (last: Option<Time>)
        ensures
            last == self.last(),
    {
        self.last_checked_time
    }

    /// Holds the minute `now` against the window of the day, and remembers
    /// the minute.
    pub fn check(&mut self, now: Time, day_timer: &day::Timer) -> (action: Action)
        ensures
            action == action_at(old(self).last(), now, *day_timer),
            final(self).last() == Some(now),
    {
        let action = if self.is_new_minute(now) {
            Self::action_in(now, day_timer)
        } else {
            Action::Nothing
        };
        self.last_checked_time = Some(now);
        action
    }

    /// Whether the minute `now` has not been looked at yet.
    pub fn is_new_minute(&self, now: Time) -> (new: bool)
        ensures
            new == (self.last() != Some(now)),
    {
        match self.last_checked_time {
            Some(last) => last != now,
            None => true,
        }
    }

    /// What a first look at the minute `now` asks of the switch.
    pub fn action_in(now: Time, day_timer: &day::Timer) -> (action: Action)
        ensures
            action == action_at(None, now, *day_timer),
    {
        if now == *day_timer.on_time() {
            Action::TurnOn
        } else if now == *day_timer.off_time() {
            Action::TurnOff
        } else {
            Action::Nothing
        }
    }

    /// Looks at the clock in `timezone` and holds it against today's window
    /// of `year_timer`: whatever the clock shows, the action is the one that
    /// belongs to the minute shown and to the window of one slot.
    pub fn tick(&mut self, timezone: Tz, year_timer: &year::Timer) -> (action: Action)
        ensures
            final(self).last() is Some,
            exists|i: int|
                0 <= i < 366 && action == action_at(
                    old(self).last(),
                    final(self).last()->Some_0,
                    #[trigger] year_timer@[i],
                ),
    {
        let now = Time::now(timezone);
        let action = if self.is_new_minute(now) {
            let day_timer = year_timer.for_today(timezone);
            Self::action_in(now, day_timer)
        } else {
            proof {
                year_timer.lemma_len();
                assert(action_at(self.last(), now, year_timer@[0]) == Action::Nothing);
            }
            Action::Nothing
        };
        self.last_checked_time = Some(now);
        action
    }
}

} // verus!
