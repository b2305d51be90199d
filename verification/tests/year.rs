use chrono::{Datelike, TimeZone};
use terralux::factor::Factor;
use terralux::sunrise_api::{APIResponseDay, Field};
use terralux::time::Time;
use terralux::timer::day;
use terralux::timer::year::{Error, LocalDay, Timer};

fn index_test(year: i32, month: u32, day: u32, index: usize) {
    let time = chrono_tz::CET.with_ymd_and_hms(year, month, day, 0, 0, 0).unwrap();
    assert_eq!(Timer::index(time.year(), time.month(), time.day()), Some(index));
    assert_eq!(Timer::index_of(time.date_naive().leap_year(), time.ordinal0()), index);
}

#[test]
fn index_zero() {
    index_test(2000, 1, 1, 0);
}

#[test]
fn index_max() {
    index_test(2000, 12, 31, 365); // leap year
    index_test(2001, 12, 31, 365); // normal year
}

#[test]
fn index_leap_day() {
    // leap year
    index_test(2000, 2, 28, 58);
    index_test(2000, 2, 29, 59);
    index_test(2000, 3, 1, 60);

    // normal year
    index_test(2001, 2, 28, 58);
    index_test(2001, 3, 1, 60);
}

#[test]
fn index_of_no_date() {
    assert_eq!(Timer::index(2001, 2, 29), None); // not a leap year
    assert_eq!(Timer::index(1900, 2, 29), None); // a century that is no leap year
    assert_eq!(Timer::index(2000, 2, 30), None);
    assert_eq!(Timer::index(2000, 4, 31), None);
    assert_eq!(Timer::index(2000, 0, 1), None);
    assert_eq!(Timer::index(2000, 13, 1), None);
    assert_eq!(Timer::index(2000, 1, 0), None);
    assert_eq!(Timer::index(2000, 1, 32), None);
    assert_eq!(Timer::index(262143, 1, 1), None);
    assert_eq!(Timer::index(-262144, 1, 1), None);
    assert_eq!(Timer::index(262142, 12, 31), Some(365));
    assert_eq!(Timer::index(-262143, 1, 1), Some(0));
    assert_eq!(Timer::index(-4, 2, 29), Some(59));
}

#[test]
fn index_is_the_same_in_every_year() {
    let months = [31, 29, 31, 30, 31, 30, 31, 31, 30, 31, 30, 31];
    let mut slot = 0;
    for (month, days) in months.iter().enumerate() {
        for day in 1..=*days {
            let month = month as u32 + 1;
            assert_eq!(Timer::index(2024, month, day), Some(slot));
            if !(month == 2 && day == 29) {
                assert_eq!(Timer::index(2023, month, day), Some(slot));
                assert_eq!(Timer::index(2100, month, day), Some(slot));
            }
            slot += 1;
        }
    }
    assert_eq!(slot, 366);
}

fn api_day(sunrise: &str, sunset: &str, day_length: &str) -> APIResponseDay {
    APIResponseDay {
        date: None,
        sunrise: Some(sunrise.to_string()),
        sunset: Some(sunset.to_string()),
        first_light: None,
        last_light: None,
        dawn: None,
        dusk: None,
        solar_noon: None,
        golden_hour: None,
        day_length: Some(day_length.to_string()),
        timezone: Some(String::from("Europe/Berlin")),
        utc_offset: Some(60),
    }
}

fn year_of(day: &APIResponseDay) -> Vec<APIResponseDay> {
    vec![day.clone(); 366]
}

fn window(on: (i8, i8), off: (i8, i8)) -> day::Timer {
    day::Timer::new(Time::new(on.0, on.1), Time::new(off.0, off.1))
}

/// The ratio that stands for a decimal weight, to six places.
fn factor(value: f32) -> Factor {
    Factor::new((f64::from(value) * 1_000_000.0).round() as u32, 1_000_000)
}

#[test]
fn blend_of_equal_places_is_the_place() {
    let local = year_of(&api_day("0600", "1800", "12:00:00"));
    let natural = local.clone();
    let (zone, blended, local_only, natural_only) =
        Timer::from_api_days_average(factor(0.5), &local, &natural).unwrap();
    assert_eq!(zone, chrono_tz::Europe::Berlin);
    for slot in 0..366 {
        assert_eq!(blended.day_timers()[slot], window((6, 0), (18, 0)));
        assert_eq!(local_only.day_timers()[slot], window((6, 0), (18, 0)));
        assert_eq!(natural_only.day_timers()[slot], window((6, 0), (18, 0)));
    }
}

#[test]
fn natural_only_lays_the_natural_length_around_the_local_centre() {
    let local = year_of(&api_day("0600", "1800", "12:00:00"));
    let natural = year_of(&api_day("0500", "1900", "14:00:00"));
    let (_, blended, local_only, natural_only) =
        Timer::from_api_days_average(factor(1.0), &local, &natural).unwrap();
    for slot in 0..366 {
        assert_eq!(*blended.day_timers()[slot].on_time(), Time::new(5, 0));
        assert_eq!(*blended.day_timers()[slot].off_time(), Time::new(19, 0));
        assert_eq!(natural_only.day_timers()[slot], window((5, 0), (19, 0)));
        assert_eq!(local_only.day_timers()[slot], window((6, 0), (18, 0)));
    }
}

#[test]
fn weight_zero_is_local_only_and_weight_one_is_natural_only() {
    let mut local = year_of(&api_day("0612", "1847", "12:35:10"));
    local[100] = api_day("0500", "2101", "16:01:00");
    let mut natural = year_of(&api_day("0700", "1700", "10:00:00"));
    natural[300] = api_day("0400", "2000", "15:59:59");
    let (_, blended, local_only, natural_only) =
        Timer::from_api_days_average(Factor::zero(), &local, &natural).unwrap();
    assert_eq!(blended.day_timers(), local_only.day_timers());
    assert_eq!(local_only.day_timers()[0], window((6, 12), (18, 47)));
    assert_eq!(local_only.day_timers()[100], window((5, 0), (21, 1)));
    assert_ne!(blended.day_timers(), natural_only.day_timers());

    let (_, blended, local_only, natural_only) =
        Timer::from_api_days_average(Factor::new(3, 3), &local, &natural).unwrap();
    assert_eq!(blended.day_timers(), natural_only.day_timers());
    assert_ne!(blended.day_timers(), local_only.day_timers());
    // the longest natural day has come to the slot of the longest local day
    assert_eq!(natural_only.day_timers()[100], window((5, 1), (20, 59)));
    assert_eq!(natural_only.day_timers()[300], window((7, 29), (17, 29)));
    // the local-only schedule does not depend on the weight
    assert_eq!(local_only.day_timers()[0], window((6, 12), (18, 47)));
    assert_eq!(local_only.day_timers()[100], window((5, 0), (21, 1)));
}

#[test]
fn blend_truncates_each_share_to_whole_minutes() {
    // local 721 minutes, natural 600 minutes, half and half:
    // 300 + 360 = 660 minutes around the centre 12:00
    let local = year_of(&api_day("0600", "1801", "12:01:30"));
    let natural = year_of(&api_day("0000", "0001", "10:00:00"));
    let (_, blended, local_only, natural_only) =
        Timer::from_api_days_average(factor(0.5), &local, &natural).unwrap();
    assert_eq!(blended.day_timers()[17], window((6, 30), (17, 30)));
    assert_eq!(local_only.day_timers()[17], window((6, 0), (18, 1)));
    assert_eq!(natural_only.day_timers()[17], window((7, 0), (17, 0)));

    // a third of 700 is 233, two thirds of 720 are 480: 713 minutes, half of it 356
    let local = year_of(&api_day("0600", "1800", "12:00:00"));
    let natural = year_of(&api_day("0000", "0001", "11:40:00"));
    let (_, blended, _, _) =
        Timer::from_api_days_average(Factor::new(1, 3), &local, &natural).unwrap();
    assert_eq!(blended.day_timers()[0], window((6, 4), (17, 56)));
}

#[test]
fn blend_lies_between_local_only_and_natural_only() {
    let mut local = Vec::new();
    let mut natural = Vec::new();
    for slot in 0..366u32 {
        // local days of 10 h to 16 h 4 min, longest at slot 182; natural days
        // of 11 h to 13 h, longest at slot 0
        let local_half = 300 + 182 - slot.abs_diff(182);
        let natural_half = 330 + 60 - slot.min(366 - slot) / 4;
        let text = |minutes: u32| format!("{:02}{:02}", minutes / 60, minutes % 60);
        let length = |minutes: u32| format!("{:02}:{:02}:00", minutes / 60, minutes % 60);
        local.push(api_day(
            &text(720 - local_half),
            &text(720 + local_half),
            &length(2 * local_half),
        ));
        natural.push(api_day("0600", "1800", &length(2 * natural_half)));
    }
    for weight in [0.0f32, 0.25, 0.5, 0.75, 1.0] {
        let (_, blended, local_only, natural_only) =
            Timer::from_api_days_average(factor(weight), &local, &natural).unwrap();
        for slot in 0..366 {
            let blended = blended.day_timers()[slot];
            let local_only = local_only.day_timers()[slot];
            let natural_only = natural_only.day_timers()[slot];
            let low = local_only.on_time().min(natural_only.on_time());
            let high = local_only.on_time().max(natural_only.on_time());
            assert!(low <= blended.on_time() && blended.on_time() <= high);
            let low = local_only.off_time().min(natural_only.off_time());
            let high = local_only.off_time().max(natural_only.off_time());
            assert!(low <= blended.off_time() && blended.off_time() <= high);
            assert_ne!(blended.on_time(), blended.off_time());
            assert_ne!(local_only.on_time(), local_only.off_time());
            assert_ne!(natural_only.on_time(), natural_only.off_time());
        }
    }
}

#[test]
fn alignment_turns_the_natural_year() {
    // the longest local day is slot 171, the longest natural day slot 355
    let mut local = year_of(&api_day("0600", "1800", "12:00:00"));
    local[171] = api_day("0400", "2000", "16:00:00");
    let mut natural = year_of(&api_day("0700", "1700", "10:00:00"));
    natural[355] = api_day("0430", "1930", "15:00:00");
    natural[0] = api_day("0430", "1830", "14:00:00");
    let (_, _, _, natural_only) =
        Timer::from_api_days_average(Factor::one(), &local, &natural).unwrap();
    assert_eq!(natural_only.day_timers()[171], window((4, 30), (19, 30)));
    assert_eq!(natural_only.day_timers()[355], window((7, 0), (17, 0)));
    // natural slot 0 lies 11 slots after natural slot 355
    assert_eq!(natural_only.day_timers()[182], window((5, 0), (19, 0)));
    assert_eq!(natural_only.day_timers()[0], window((7, 0), (17, 0)));

    // and the other way round the year
    let mut local = year_of(&api_day("0600", "1800", "12:00:00"));
    local[10] = api_day("0400", "2000", "16:00:00");
    let (_, _, _, natural_only) =
        Timer::from_api_days_average(Factor::one(), &local, &natural).unwrap();
    assert_eq!(natural_only.day_timers()[10], window((4, 30), (19, 30)));
    assert_eq!(natural_only.day_timers()[21], window((5, 0), (19, 0)));
    assert_eq!(natural_only.day_timers()[355], window((7, 0), (17, 0)));
}

#[test]
fn longest_day_is_the_first_of_equals() {
    // two local days are as long as each other: the first of them counts
    let mut local = year_of(&api_day("0600", "1800", "12:00:00"));
    local[200] = api_day("0500", "1900", "14:00:00");
    local[50] = api_day("0459", "1859", "14:00:00");
    let mut natural = year_of(&api_day("0700", "1700", "10:00:00"));
    natural[0] = api_day("0600", "1800", "12:00:00");
    let (_, _, _, natural_only) =
        Timer::from_api_days_average(Factor::one(), &local, &natural).unwrap();
    assert_eq!(natural_only.day_timers()[50], window((5, 59), (17, 59)));
    assert_eq!(natural_only.day_timers()[200], window((7, 0), (17, 0)));
}

#[test]
fn missing_fields_are_named_with_their_slot() {
    let complete = year_of(&api_day("0600", "1800", "12:00:00"));
    let failure = |local: &Vec<APIResponseDay>, natural: &Vec<APIResponseDay>| {
        Timer::from_api_days_average(factor(0.5), local, natural).unwrap_err()
    };

    let mut local = complete.clone();
    local[0].timezone = None;
    local[0].sunrise = None;
    assert_eq!(
        failure(&local, &complete),
        Error::IncompleteSampleData { slot: 0, field: Field::Timezone }
    );
    // only the zone of the first local day is read
    let mut local = complete.clone();
    local[1].timezone = None;
    assert!(Timer::from_api_days_average(factor(0.5), &local, &complete).is_ok());
    let mut natural = complete.clone();
    natural[0].timezone = None;
    natural[0].sunrise = None;
    natural[0].sunset = None;
    assert!(Timer::from_api_days_average(factor(0.5), &complete, &natural).is_ok());

    let mut local = complete.clone();
    local[5].sunrise = None;
    local[5].sunset = None;
    local[9].day_length = None;
    assert_eq!(
        failure(&local, &complete),
        Error::IncompleteSampleData { slot: 5, field: Field::Sunrise }
    );
    local[5].day_length = None;
    assert_eq!(
        failure(&local, &complete),
        Error::IncompleteSampleData { slot: 5, field: Field::DayLength }
    );
    let mut local = complete.clone();
    local[365].sunset = None;
    assert_eq!(
        failure(&local, &complete),
        Error::IncompleteSampleData { slot: 365, field: Field::Sunset }
    );

    let mut natural = complete.clone();
    natural[7].day_length = None;
    assert_eq!(
        failure(&complete, &natural),
        Error::IncompleteSampleData { slot: 7, field: Field::DayLength }
    );
    // the local days are read first
    assert_eq!(
        failure(&local, &natural),
        Error::IncompleteSampleData { slot: 365, field: Field::Sunset }
    );

    // a field that holds no time is as good as missing
    let mut natural = complete.clone();
    natural[3].day_length = Some(String::from("NaN:NaN:NaN"));
    assert_eq!(
        failure(&complete, &natural),
        Error::IncompleteSampleData { slot: 3, field: Field::DayLength }
    );
    let mut local = complete.clone();
    local[4].sunset = Some(String::from("2400"));
    assert_eq!(
        failure(&local, &complete),
        Error::IncompleteSampleData { slot: 4, field: Field::Sunset }
    );
}

#[test]
fn windows_that_no_day_can_hold_are_named_with_their_slot() {
    let complete = year_of(&api_day("0600", "1800", "12:00:00"));
    let failure = |weight: Factor, local: &Vec<APIResponseDay>, natural: &Vec<APIResponseDay>| {
        Timer::from_api_days_average(weight, local, natural).unwrap_err()
    };

    // sunrise and sunset in one minute
    let mut local = complete.clone();
    local[3] = api_day("0600", "0600", "12:00:00");
    assert_eq!(failure(Factor::zero(), &local, &complete), Error::OutOfRange { slot: 3 });
    assert_eq!(failure(factor(0.5), &local, &complete), Error::OutOfRange { slot: 3 });

    // the sun sets before it rises
    let mut local = complete.clone();
    local[8] = api_day("1800", "0600", "12:00:00");
    assert_eq!(failure(factor(0.5), &local, &complete), Error::OutOfRange { slot: 8 });
    assert_eq!(failure(Factor::zero(), &local, &complete), Error::OutOfRange { slot: 8 });

    // the natural length reaches beyond midnight
    let mut local = complete.clone();
    local[20] = api_day("1600", "2200", "12:00:00");
    assert_eq!(failure(Factor::zero(), &local, &complete), Error::OutOfRange { slot: 20 });
    let mut local = complete.clone();
    local[21] = api_day("0000", "0600", "12:00:00");
    assert_eq!(failure(factor(0.5), &local, &complete), Error::OutOfRange { slot: 21 });

    // the blended day has no length
    let local = year_of(&api_day("0600", "1800", "00:01:00"));
    let natural = year_of(&api_day("0600", "1800", "00:01:00"));
    assert_eq!(failure(factor(0.5), &local, &natural), Error::OutOfRange { slot: 0 });
    let natural = year_of(&api_day("0600", "1800", "00:02:00"));
    assert_eq!(failure(factor(0.5), &local, &natural), Error::OutOfRange { slot: 0 });
    assert!(Timer::from_api_days_average(Factor::zero(), &local, &natural).is_ok());
    assert!(Timer::from_api_days_average(Factor::one(), &local, &natural).is_ok());

    // the blended schedule can be held, the natural-only schedule cannot
    let mut local = year_of(&api_day("0600", "1800", "12:00:00"));
    local[30] = api_day("1200", "2359", "02:00:00");
    local[40] = api_day("1200", "2359", "02:00:00");
    let natural = year_of(&api_day("0600", "1800", "14:00:00"));
    assert_eq!(failure(factor(0.1), &local, &natural), Error::OutOfRange { slot: 30 });
    assert_eq!(failure(Factor::zero(), &local, &natural), Error::OutOfRange { slot: 30 });
    local[35] = api_day("1200", "1200", "02:00:00");
    assert_eq!(failure(factor(0.1), &local, &natural), Error::OutOfRange { slot: 35 });
}

#[test]
fn schedule_as_the_days_stand() {
    let mut days = year_of(&api_day("0600", "1800", "12:00:00"));
    days[59] = api_day("0712", "1643", "xx");
    days[60].day_length = None;
    let timer = Timer::from_api_days(&days).unwrap();
    assert_eq!(timer.day_timers()[0], window((6, 0), (18, 0)));
    assert_eq!(timer.day_timers()[59], window((7, 12), (16, 43)));
    assert_eq!(timer.day_timers()[365], window((6, 0), (18, 0)));
    assert_eq!(timer.for_date(2024, 2, 29), Some(&window((7, 12), (16, 43))));
    assert_eq!(timer.for_date(2023, 2, 28), Some(&window((6, 0), (18, 0))));
    assert_eq!(timer.for_date(2023, 2, 29), None);

    days[100].sunset = None;
    days[200].sunrise = None;
    assert_eq!(
        Timer::from_api_days(&days).unwrap_err(),
        Error::IncompleteSampleData { slot: 100, field: Field::Sunset }
    );
    days[99] = api_day("1200", "1200", "12:00:00");
    assert_eq!(Timer::from_api_days(&days).unwrap_err(), Error::OutOfRange { slot: 99 });
}

#[test]
fn average_of_read_days() {
    let local_day =
        LocalDay { length: Time::new(12, 0), sunrise: Time::new(6, 0), sunset: Time::new(18, 0) };
    let local_days = vec![local_day; 366];
    let mut natural = vec![Time::new(14, 0); 366];
    natural[9] = Time::new(23, 59);
    let timer = Timer::average(&local_days, &natural, Factor::new(1, 2)).unwrap();
    assert_eq!(timer.day_timers()[0], window((5, 30), (18, 30)));
    // 719 + 360 = 1079 minutes, half of it 539
    assert_eq!(timer.day_timers()[9], window((3, 1), (20, 59)));
    natural[9] = Time::new(0, 0);
    natural[11] = Time::new(0, 1);
    let local_days = vec![LocalDay { length: Time::new(0, 0), ..local_day }; 366];
    assert_eq!(
        Timer::average(&local_days, &natural, Factor::new(1, 2)).unwrap_err(),
        Error::OutOfRange { slot: 9 }
    );
}

#[test]
fn map_api_day_field_names_the_missing_field() {
    let present = Some(String::from("0600"));
    assert_eq!(Timer::map_api_day_field(&present, 3, Field::Sunrise), Ok(&String::from("0600")));
    let missing: Option<String> = None;
    assert_eq!(
        Timer::map_api_day_field(&missing, 3, Field::Sunrise),
        Err(Error::IncompleteSampleData { slot: 3, field: Field::Sunrise })
    );
}

#[test]
fn today_is_a_slot_of_the_year() {
    let mut windows = [window((6, 0), (18, 0)); 366];
    for (slot, timer) in windows.iter_mut().enumerate() {
        *timer = window((6, 0), (12 + (slot / 60) as i8, (slot % 60) as i8));
    }
    let timer = Timer::new(windows);
    assert_eq!(timer.day_timers(), &windows);
    let zone = chrono_tz::Pacific::Kiritimati;
    let today = *timer.for_today(zone);
    let now = chrono::Utc::now().with_timezone(&zone);
    let yesterday = now - chrono::Duration::days(1);
    let expected = |date: chrono::DateTime<chrono_tz::Tz>| {
        *timer.for_date(date.year(), date.month(), date.day()).unwrap()
    };
    assert!(today == expected(now) || today == expected(yesterday));
    assert!(windows.contains(&today));
}

#[test]
fn year_is_written_one_line_for_each_day() {
    let mut windows = [window((6, 0), (18, 0)); 366];
    windows[9] = window((7, 5), (17, 55));
    windows[99] = window((5, 0), (21, 30));
    let timer = Timer::new(windows);
    let text = timer.to_text();
    let lines: Vec<&str> = text.lines().collect();
    assert_eq!(lines.len(), 366);
    assert!(text.ends_with('\n'));
    assert_eq!(lines[0], "  1 { on: 06:00, off: 18:00 }");
    assert_eq!(lines[9], " 10 { on: 07:05, off: 17:55 }");
    assert_eq!(lines[99], "100 { on: 05:00, off: 21:30 }");
    assert_eq!(lines[365], "366 { on: 06:00, off: 18:00 }");
    for (slot, line) in lines.iter().enumerate() {
        assert_eq!(*line, format!("{:3} {}", slot + 1, windows[slot].to_text()));
    }
}

#[test]
fn window_of_a_day_of_the_year() {
    let mut windows = [window((6, 0), (18, 0)); 366];
    windows[58] = window((6, 58), (18, 0));
    windows[59] = window((6, 59), (18, 0));
    windows[60] = window((7, 0), (18, 0));
    windows[365] = window((8, 0), (16, 0));
    let timer = Timer::new(windows);
    assert_eq!(*timer.for_day(true, 58), windows[58]);
    assert_eq!(*timer.for_day(true, 59), windows[59]);
    assert_eq!(*timer.for_day(true, 60), windows[60]);
    assert_eq!(*timer.for_day(true, 365), windows[365]);
    assert_eq!(*timer.for_day(false, 58), windows[58]);
    assert_eq!(*timer.for_day(false, 59), windows[60]);
    assert_eq!(*timer.for_day(false, 364), windows[365]);
    assert_eq!(Timer::index_of(false, 0), 0);
    assert_eq!(Timer::index_of(false, 59), 60);
    assert_eq!(Timer::index_of(true, 59), 59);
}
