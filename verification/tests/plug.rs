use terralux::plug::{Error, Plug, Step};

#[test]
fn plug_is_kept_only_if_it_answers() {
    let plug = Plug::new(String::from("http://192.168.178.123"), Ok(false)).unwrap();
    assert_eq!(plug.get_url(), "http://192.168.178.123");
    let plug = Plug::new(String::from("http://plug"), Ok(true)).unwrap();
    assert_eq!(plug.get_url(), "http://plug");
    assert_eq!(
        Plug::new(String::from("http://plug"), Err(Error::SendingRequest)).unwrap_err(),
        Error::SendingRequest
    );
    assert_eq!(
        Plug::new(String::from("http://plug"), Err(Error::UnexpectedStatusCode(404))).unwrap_err(),
        Error::UnexpectedStatusCode(404)
    );
}

#[test]
fn addresses_of_the_relay() {
    assert_eq!(Plug::relay_url("http://192.168.178.123"), "http://192.168.178.123/relay/0");
    assert_eq!(
        Plug::switch_url("http://192.168.178.123", true),
        "http://192.168.178.123/relay/0?turn=on"
    );
    assert_eq!(
        Plug::switch_url("http://192.168.178.123", false),
        "http://192.168.178.123/relay/0?turn=off"
    );
    assert_eq!(Plug::relay_url(""), "/relay/0");
}

#[test]
fn answers_to_a_switching() {
    assert_eq!(Plug::switched(Some(200)), Ok(()));
    assert_eq!(Plug::switched(None), Err(Error::SendingRequest));
    assert_eq!(Plug::switched(Some(404)), Err(Error::UnexpectedStatusCode(404)));
    assert_eq!(Plug::switched(Some(201)), Err(Error::UnexpectedStatusCode(201)));
    assert_eq!(Plug::switched(Some(503)), Err(Error::UnexpectedStatusCode(503)));
}

#[test]
fn answers_to_a_question_for_the_state() {
    assert_eq!(Plug::read_power(Some(200), r#"{"ison":true}"#), Some(Ok(true)));
    assert_eq!(
        Plug::read_power(Some(200), r#"{"ison": false, "has_timer": false, "source": "http"}"#),
        Some(Ok(false))
    );
    assert_eq!(Plug::read_power(None, r#"{"ison":true}"#), Some(Err(Error::SendingRequest)));
    assert_eq!(
        Plug::read_power(Some(401), r#"{"ison":true}"#),
        Some(Err(Error::UnexpectedStatusCode(401)))
    );
    assert_eq!(Plug::read_power(Some(500), ""), Some(Err(Error::UnexpectedStatusCode(500))));
    // served, but the answer does not tell
    assert_eq!(Plug::read_power(Some(200), ""), None);
    assert_eq!(Plug::read_power(Some(200), "true"), None);
    assert_eq!(Plug::read_power(Some(200), r#"{"ison":"true"}"#), None);
    assert_eq!(Plug::read_power(Some(200), r#"{"ison":1}"#), None);
    assert_eq!(Plug::read_power(Some(200), r#"{"isoff":true}"#), None);
    assert_eq!(Plug::read_power(Some(200), r#"{"relay":{"ison":true}}"#), None);
    assert_eq!(Plug::read_power(Some(200), r#"{"ison":true"#), None);

    assert_eq!(Plug::power_of(Some(200), Some(true)), Some(Ok(true)));
    assert_eq!(Plug::power_of(Some(200), None), None);
    assert_eq!(Plug::power_of(None, Some(true)), Some(Err(Error::SendingRequest)));
    assert_eq!(Plug::power_of(Some(302), Some(true)), Some(Err(Error::UnexpectedStatusCode(302))));
}

#[test]
fn waits_grow_by_six_seconds_up_to_a_minute() {
    assert_eq!(Plug::retry_seconds(0), 0);
    assert_eq!(Plug::retry_seconds(1), 6);
    assert_eq!(Plug::retry_seconds(2), 12);
    assert_eq!(Plug::retry_seconds(3), 18);
    assert_eq!(Plug::retry_seconds(4), 24);
    assert_eq!(Plug::retry_seconds(5), 30);
    assert_eq!(Plug::retry_seconds(9), 54);
    assert_eq!(Plug::retry_seconds(10), 60);
    assert_eq!(Plug::retry_seconds(11), 60);
    assert_eq!(Plug::retry_seconds(u64::MAX), 60);
}

/// Runs the attempts of one switching on a switch that fails its first
/// `failures` attempts: the number of attempts made, the waits between
/// them, and the last step.
fn run(failures: u64) -> (u64, Vec<u64>, Step) {
    let mut attempts = 0;
    let mut waits = Vec::new();
    loop {
        attempts += 1;
        let outcome = if attempts <= failures { Err(Error::SendingRequest) } else { Ok(()) };
        let step = Plug::after_attempt(attempts, &outcome);
        match step {
            Step::Retry { retry, seconds } => {
                assert_eq!(retry, attempts);
                waits.push(seconds);
            }
            Step::Done | Step::GiveUp => return (attempts, waits, step),
        }
    }
}

#[test]
fn a_switch_that_recovers_is_tried_once_more_than_it_failed() {
    assert_eq!(run(0), (1, vec![], Step::Done));
    assert_eq!(run(1), (2, vec![6], Step::Done));
    assert_eq!(run(2), (3, vec![6, 12], Step::Done));
    assert_eq!(run(3), (4, vec![6, 12, 18], Step::Done));
    assert_eq!(run(4), (5, vec![6, 12, 18, 24], Step::Done));
    assert_eq!(run(5), (6, vec![6, 12, 18, 24, 30], Step::Done));
}

#[test]
fn a_switch_that_never_answers_is_tried_six_times() {
    assert_eq!(run(6), (6, vec![6, 12, 18, 24, 30], Step::GiveUp));
    assert_eq!(run(1000), (6, vec![6, 12, 18, 24, 30], Step::GiveUp));
    assert_eq!(
        Plug::after_attempt(6, &Err(Error::UnexpectedStatusCode(500))),
        Step::GiveUp
    );
    assert_eq!(Plug::after_attempt(7, &Ok(())), Step::Done);
}

#[test]
fn plug_at_a_known_address() {
    let plug = Plug::at(String::from("http://10.0.0.7"));
    assert_eq!(plug.get_url(), "http://10.0.0.7");
    assert_eq!(Plug::relay_url(plug.get_url()), "http://10.0.0.7/relay/0");
}
