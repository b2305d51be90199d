use vstd::prelude::*;
use vstd::string::StringExecFns;
use crate::time::Time;

verus! {

/// The window of one day: when the switch goes on and when it goes off.
#[derive(Debug, Clone, Copy, PartialEq, Eq, Structural)]
pub struct Timer {
    /// Time to turn the plug on
    on_time: Time,
    /// Time to turn the plug off
    off_time: Time,
}

impl Timer {
    /// When the window opens: the time to turn the switch on.
    pub closed spec fn on(self) -> Time {
        self.on_time
    }

    /// When the window closes: the time to turn the switch off.
    pub closed spec fn off(self) -> Time {
        self.off_time
    }

    /// Both times are valid, and they differ.
    pub open spec fn wf(self) -> bool {
        self.on().wf() && self.off().wf() && self.on() != self.off()
    }

    /// The window as minutes since midnight: when it opens and when it closes.
    pub open spec fn view(self) -> (int, int) {
        (self.on()@, self.off()@)
    }

    /// A valid window opens and closes at different minutes of the day.
    pub proof fn lemma_distinct_minutes(self)
        requires
            self.wf(),
        ensures
            self.on()@ != self.off()@,
            0 <= self.on()@ < 1440,
            0 <= self.off()@ < 1440,
    {
        if self.on()@ == self.off()@ {
            Time::lemma_view_injective(self.on(), self.off());
        }
    }

    /// The window that opens at `on_time` and closes at `off_time`.
    pub fn new(on_time: Time, off_time: Time) -> (timer: Self)
        requires
            on_time.wf(),
            off_time.wf(),
            on_time != off_time,
        ensures
            timer.wf(),
            timer.on() == on_time,
            timer.off() == off_time,
    {
        Self { on_time, off_time }
    }

    /// The window as it is written.
    pub open spec fn text(self) -> Seq<char> {
        "{ on: "@ + self.on().text() + ", off: "@ + self.off().text() + " }"@
    }

    /// Writes the window as `{ on: HH:MM, off: HH:MM }`.
    pub fn to_text(&self) -> (text: String)
        requires
            self.wf(),
        ensures
            text@ == self.text(),
    {
        let mut text = String::new();
        self.write_to(&mut text);
        text
    }

    /// Appends the window, written as `{ on: HH:MM, off: HH:MM }`.
    pub fn write_to(&self, text: &mut String)
        requires
            self.wf(),
        ensures
            final(text)@ == old(text)@ + self.text(),
    {
        text.append("{ on: ");
        self.on_time.write_to(text);
        text.append(", off: ");
        self.off_time.write_to(text);
        text.append(" }");
        assert(text@ =~= old(text)@ + self.text());
    }

    /// The time to turn the switch on.
    pub fn on_time(&self) -> (time: &Time)
        ensures
            *time == self.on(),
    {
        &self.on_time
    }

    /// The time to turn the switch off.
    pub fn off_time(&self) -> (time: &Time)
        ensures
            *time == self.off(),
    {
        &self.off_time
    }
}

} // verus!
