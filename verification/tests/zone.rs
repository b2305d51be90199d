use chrono::{Datelike, Timelike};
use terralux::time::Time;

#[test]
fn reported_zone_is_kept() {
    assert_eq!(Time::zone_from("Europe/Berlin"), chrono_tz::Europe::Berlin);
    assert_eq!(Time::zone_from("America/New_York"), chrono_tz::America::New_York);
    assert_eq!(Time::zone_from("UTC"), chrono_tz::UTC);
    assert_eq!(Time::zone_from("CET"), chrono_tz::CET);
}

#[test]
fn unknown_zone_falls_back_to_the_host_or_the_default() {
    let host = iana_time_zone::get_timezone().ok();
    let expected = Time::zone_from_host(&host);
    assert_eq!(Time::zone_from("Nowhere/Special"), expected);
    assert_eq!(Time::zone_from(""), expected);
    assert_eq!(Time::zone_from("europe/berlin"), expected);
}

#[test]
fn zone_of_the_host_or_the_default() {
    assert_eq!(Time::zone_from_host(&None), chrono_tz::CET);
    assert_eq!(Time::zone_from_host(&Some(String::from("Asia/Tokyo"))), chrono_tz::Asia::Tokyo);
    assert_eq!(Time::zone_from_host(&Some(String::from("Nowhere/Special"))), chrono_tz::CET);
    assert_eq!(Time::zone_from_host(&Some(String::new())), chrono_tz::CET);
}

#[test]
fn now_is_the_minute_that_the_clock_shows() {
    for zone in [chrono_tz::UTC, chrono_tz::Asia::Kolkata, chrono_tz::America::St_Johns] {
        let before = chrono::Utc::now().with_timezone(&zone);
        let now = Time::now(zone);
        let after = chrono::Utc::now().with_timezone(&zone);
        let shown = |moment: chrono::DateTime<chrono_tz::Tz>| {
            Time::new(moment.hour() as i8, moment.minute() as i8)
        };
        assert!(now == shown(before) || now == shown(after));
        assert!(before.year() >= 2024);
    }
    // a quarter to six in India is a quarter past midnight in UTC
    let utc = Time::now(chrono_tz::UTC).minutes();
    let india = Time::now(chrono_tz::Asia::Kolkata).minutes();
    let difference = (india - utc).rem_euclid(1440);
    assert!(difference == 330 || difference == 331);
}
