//! The order of the times of a day.

use vstd::prelude::*;
use vstd::std_specs::cmp::PartialOrdSpec;
use core::cmp::Ordering;
use crate::time::Time;

verus! {

impl vstd::std_specs::cmp::PartialOrdSpecImpl for Time {
    open spec fn obeys_partial_cmp_spec() -> bool {
        true
    }

    /// By the hour, and within an hour by the minute.
    open spec fn partial_cmp_spec(&self, other: &Time) -> Option<Ordering> {
        if self.spec_hour() < other.spec_hour() {
            Some(Ordering::Less)
        } else if self.spec_hour() > other.spec_hour() {
            Some(Ordering::Greater)
        } else if self.spec_minute() < other.spec_minute() {
            Some(Ordering::Less)
        } else if self.spec_minute() > other.spec_minute() {
            Some(Ordering::Greater)
        } else {
            Some(Ordering::Equal)
        }
    }
}

impl PartialOrd for Time {
    fn partial_cmp(&self, other: &Time) -> (order: Option<Ordering>) {
        if self.hour() < other.hour() {
            Some(Ordering::Less)
        } else if self.hour() > other.hour() {
            Some(Ordering::Greater)
        } else if self.minute() < other.minute() {
            Some(Ordering::Less)
        } else if self.minute() > other.minute() {
            Some(Ordering::Greater)
        } else {
            Some(Ordering::Equal)
        }
    }
}

/// Valid times are ordered by their minutes since midnight.
pub proof fn lemma_order_is_by_minutes(a: Time, b: Time)
    requires
        a.wf(),
        b.wf(),
    ensures
        a.partial_cmp_spec(&b) == Some(Ordering::Less) <==> a@ < b@,
        a.partial_cmp_spec(&b) == Some(Ordering::Equal) <==> a@ == b@,
        a.partial_cmp_spec(&b) == Some(Ordering::Greater) <==> a@ > b@,
        a.partial_cmp_spec(&b) == Some(Ordering::Equal) <==> a == b,
{
    if a@ == b@ {
        Time::lemma_view_injective(a, b);
    }
}

} // verus!
