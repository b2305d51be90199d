use vstd::prelude::*;
use crate::constants::DAYS_PER_YEAR;

verus! {

/// The status with which the provider answers a good request.
pub const STATUS_OK: u16 = 200;

/// The status with which the provider answers when its rate limit is reached.
pub const STATUS_SERVICE_UNAVAILABLE: u16 = 503;

/// The status that tells a caller that it asks too often.
pub const STATUS_TOO_MANY_REQUESTS: u16 = 429;

/// The status that tells a caller that the provider failed it.
pub const STATUS_BAD_GATEWAY: u16 = 502;

/// One day as the provider reports it. Every field may be missing: close to
/// the poles the provider leaves out what has no value.
#[derive(Debug, Clone)]
pub struct APIResponseDay {
    /// YYYY-MM-DD
    pub date: Option<String>,
    /// `HHMM`
    pub sunrise: Option<String>,
    /// `HHMM`
    pub sunset: Option<String>,
    /// `HHMM`
    pub first_light: Option<String>,
    /// `HHMM`
    pub last_light: Option<String>,
    /// `HHMM`
    pub dawn: Option<String>,
    /// `HHMM`
    pub dusk: Option<String>,
    /// `HHMM`
    pub solar_noon: Option<String>,
    /// `HHMM`
    pub golden_hour: Option<String>,
    /// `HH:MM:SS`
    pub day_length: Option<String>,
    /// The name of a zone of the IANA database, such as `America/New_York`.
    pub timezone: Option<String>,
    pub utc_offset: Option<i32>,
}

/// The fields of a day that the schedule is computed from.
#[derive(Debug, Clone, Copy, PartialEq, Eq, Structural)]
pub enum Field {
    Timezone,
    DayLength,
    Sunrise,
    Sunset,
}

/// Why a request to the provider gave no days.
#[derive(Debug, Clone, Copy, PartialEq, Eq, Structural)]
pub enum Error {
    /// The request could not be sent, or no answer came.
    Transport,
    /// The provider's rate limit is reached: a later request may succeed.
    RateLimited,
    /// The provider answered with a status that is neither good nor the rate limit's.
    UnexpectedStatus(u16),
    /// The answer is not of the expected structure.
    Malformed,
    /// The answer's own status is not `OK`.
    NotOk,
    /// The answer's status is `OK`, but it holds no days.
    NoData,
    /// The answer holds this number of days, not 366.
    WrongCount(usize),
}

impl Error {
    /// Only a reached rate limit is worth another request.
    pub open spec fn retryable(self) -> bool {
        self == Error::RateLimited
    }

    /// The status with which the failure is passed on: that of too many
    /// requests for a reached rate limit, that of a bad gateway for all else.
    pub open spec fn status(self) -> u16 {
        if self == Error::RateLimited {
            STATUS_TOO_MANY_REQUESTS
        } else {
            STATUS_BAD_GATEWAY
        }
    }

    pub fn status_code(&self) -> (status: u16)
        ensures
            status == self.status(),
    {
        match self {
            Error::RateLimited => STATUS_TOO_MANY_REQUESTS,
            _ => STATUS_BAD_GATEWAY,
        }
    }

    pub fn is_retryable(&self) -> (retryable: bool)
        ensures
            retryable == self.retryable(),
    {
        match self {
            Error::RateLimited => true,
            _ => false,
        }
    }
}

/// What the status of the provider's answer says, `None` standing for a
/// request that got no answer.
pub open spec fn status_verdict(status: Option<u16>) -> Result<(), Error> {
    match status {
        None => Err(Error::Transport),
        Some(code) => if code == STATUS_OK {
            Ok(())
        } else if code == STATUS_SERVICE_UNAVAILABLE {
            Err(Error::RateLimited)
        } else {
            Err(Error::UnexpectedStatus(code))
        },
    }
}

/// Judges the status of the provider's answer.
pub fn check_status(status: Option<u16>) -> (verdict: Result<(), Error>)
    ensures
        verdict == status_verdict(status),
{
    match status {
        None => Err(Error::Transport),
        Some(code) => {
            if code == STATUS_OK {
                Ok(())
            } else if code == STATUS_SERVICE_UNAVAILABLE {
                Err(Error::RateLimited)
            } else {
                Err(Error::UnexpectedStatus(code))
            }
        },
    }
}

/// The answer of the provider, as far as it is read.
#[derive(Debug, Clone)]
pub struct APIResponse {
    /// The days of the year that was asked for.
    pub days: Option<Vec<APIResponseDay>>,
    /// e.g. `"OK"`
    pub status: String,
}

/// What the body of the provider's answer gives, `None` standing for a body
/// that is not of the expected structure: its days, where its own status is
/// `OK` and it holds the days of a leap year.
pub open spec fn body_verdict(response: Option<APIResponse>) -> Result<Vec<APIResponseDay>, Error> {
    match response {
        None => Err(Error::Malformed),
        Some(response) => if response.status@ != seq!['O', 'K'] {
            Err(Error::NotOk)
        } else {
            match response.days {
                None => Err(Error::NoData),
                Some(days) => if days.len() != DAYS_PER_YEAR {
                    Err(Error::WrongCount(days.len()))
                } else {
                    Ok(days)
                },
            }
        },
    }
}

/// Judges the body of the provider's answer, and hands out its days.
pub fn check_body(response: Option<APIResponse>) -> (verdict: Result<Vec<APIResponseDay>, Error>)
    ensures
        verdict == body_verdict(response),
{
    let response = match response {
        Some(response) => response,
        None => {
            return Err(Error::Malformed);
        },
    };
    let status = response.status.as_str();
    let ok = status.unicode_len() == 2 && status.get_char(0) == 'O' && status.get_char(1) == 'K';
    if !ok {
        assert(status@ != seq!['O', 'K']);
        return Err(Error::NotOk);
    }
    assert(status@ =~= seq!['O', 'K']);
    match response.days {
        None => Err(Error::NoData),
        Some(days) => {
            if days.len() != DAYS_PER_YEAR {
                Err(Error::WrongCount(days.len()))
            } else {
                Ok(days)
            }
        },
    }
}

} // verus!
