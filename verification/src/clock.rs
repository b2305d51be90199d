use vstd::prelude::*;
use chrono_tz::Tz;
use crate::calendar::days_in_year;

verus! {

/// A time zone of the IANA database, as `chrono_tz` holds it. Opaque here.
#[verifier::external_type_specification]
#[verifier::external_body]
pub struct ExTz(Tz);

/// The zone that the IANA database lists under `name`, if it lists one.
pub uninterp spec fn zone_named(name: Seq<char>) -> Option<Tz>;

/// What a clock shows at one moment in one zone.
#[derive(Debug, Clone, Copy)]
pub struct LocalNow {
    pub leap_year: bool,
    pub ordinal0: u32,
    pub hour: u32,
    pub minute: u32,
}

impl LocalNow {
    /// The day lies in its year, and the time in its day.
    pub open spec fn wf(self) -> bool {
        &&& self.ordinal0 < days_in_year(self.leap_year)
        &&& self.hour < 24
        &&& self.minute < 60
    }
}

/// Looks a zone up by its name.
///
/// Trusted: calls `str::parse::<chrono_tz::Tz>`, which looks the name up in
/// the table compiled into `chrono_tz`. The contract only names the result.
#[verifier::external_body]
pub(crate) fn parse_zone(name: &str) -> (zone: Option<Tz>)
    ensures
        zone == zone_named(name@),
{
    match name.parse::<Tz>() {
        Ok(zone) => Some(zone),
        Err(_) => None,
    }
}

/// The zone to fall back on.
///
/// Trusted: hands out the constant `chrono_tz::CET`. The contract claims
/// that this is the zone listed under the name `CET`.
#[verifier::external_body]
pub(crate) fn default_zone() -> (zone: Tz)
    ensures
        zone_named("CET"@) == Some(zone),
{
    chrono_tz::CET
}

/// The name of the zone that the host is set to, where it can be found.
///
/// Trusted: calls `iana_time_zone::get_timezone`. Nothing is claimed of the
/// result, which depends on the host.
#[verifier::external_body]
pub(crate) fn host_zone_name() -> (name: Option<String>)
{
    match iana_time_zone::get_timezone() {
        Ok(name) => Some(name),
        Err(_) => None,
    }
}

/// Reads the clock in `zone`.
///
/// Trusted: calls `chrono::Utc::now` and `DateTime::with_timezone`, then the
/// getters `leap_year`, `ordinal0`, `hour` and `minute`. The contract claims
/// only the ranges that chrono documents for every date and time.
#[verifier::external_body]
pub(crate) fn local_now(zone: Tz) -> (now: LocalNow)
    ensures
        now.wf(),
{
    let now = chrono::Utc::now().with_timezone(&zone);
    LocalNow {
        leap_year: now.date_naive().leap_year(),
        ordinal0: chrono::Datelike::ordinal0(&now),
        hour: chrono::Timelike::hour(&now),
        minute: chrono::Timelike::minute(&now),
    }
}

} // verus!
