use vstd::prelude::*;

verus! {

/// The port on which the schedule is served.
pub const PORT: u16 = 5000;

/// The name of the file that keeps the configuration, in the data directory
/// of the user.
pub const STATE_FILE_NAME: &'static str = "terralux-backend-state.json";

/// minimum interval between sunrise API requests to avoid rate limiting,
/// in milliseconds. value was determined experimentally.
pub const MIN_SUNRISE_API_REQUEST_INTERVAL_MILLISECONDS: u64 = 500;

/// interval for checking if the current minute matches a timer, in seconds.
/// Less than a minute, so that no minute passes unseen.
pub const CHECK_INTERVAL_SECONDS: u64 = 15;

/// The days of the year that a schedule covers: those of a leap year.
pub const DAYS_PER_YEAR: usize = 366;

/// The clock is looked at more than once in every minute.
pub proof fn lemma_no_minute_unseen()
    ensures
        CHECK_INTERVAL_SECONDS < 60,
{
}

} // verus!
