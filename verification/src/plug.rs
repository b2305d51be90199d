//! A mains switch that is driven over HTTP: where to ask, what its answers
//! mean, and when to try again.

use vstd::prelude::*;
use vstd::string::StringExecFns;

verus! {

/// The status with which the switch answers a request that it has served.
pub const STATUS_OK: u16 = 200;

/// How often a failed switching is tried again.
pub const MAX_RETRIES: u64 = 5;

/// The seconds by which the wait grows from one retry to the next.
pub const RETRY_STEP_SECONDS: u64 = 6;

/// The longest wait between two attempts, in seconds.
pub const MAX_RETRY_SECONDS: u64 = 60;

#[derive(Debug, Clone, Copy, PartialEq, Eq, Structural)]
pub enum Error {
    /// e.g. when url can't be reached
    SendingRequest,
    UnexpectedStatusCode(u16),
}

#[derive(Debug, Clone)]
pub struct Plug {
    base_url: String,
}

/// What follows an attempt to switch.
#[derive(Debug, Clone, Copy, PartialEq, Eq, Structural)]
pub enum Step {
    /// The switch has switched: nothing is left to do.
    Done,
    /// The attempt failed: wait `seconds`, then make retry number `retry`.
    Retry { retry: u64, seconds: u64 },
    /// The last retry failed too: the switching is given up.
    GiveUp,
}

/// The seconds to wait before retry number `retry`: six more with each
/// retry, and never more than a minute.
pub open spec fn backoff(retry: int) -> int {
    if RETRY_STEP_SECONDS * retry <= MAX_RETRY_SECONDS {
        RETRY_STEP_SECONDS * retry
    } else {
        MAX_RETRY_SECONDS as int
    }
}

/// What follows the attempt that is number `attempts`, counted from one,
/// and that succeeded or not.
pub open spec fn step_after(attempts: int, succeeded: bool) -> Step {
    if succeeded {
        Step::Done
    } else if attempts <= MAX_RETRIES {
        Step::Retry { retry: attempts as u64, seconds: backoff(attempts) as u64 }
    } else {
        Step::GiveUp
    }
}

/// The number of attempts that are made in all, `made` of them being made
/// already, when attempt number `k` succeeds where `succeeds(k)`.
pub open spec fn attempts_in_all(succeeds: spec_fn(int) -> bool, made: int) -> int
    decreases MAX_RETRIES + 1 - made,
{
    if made >= 1 && step_after(made, succeeds(made)) is Retry {
        attempts_in_all(succeeds, made + 1)
    } else {
        made
    }
}

/// The waits, in seconds, that follow attempt number `made` and the later ones.
pub open spec fn waits_after(succeeds: spec_fn(int) -> bool, made: int) -> Seq<int>
    decreases MAX_RETRIES + 1 - made,
{
    if made >= 1 && step_after(made, succeeds(made)) is Retry {
        seq![backoff(made)] + waits_after(succeeds, made + 1)
    } else {
        Seq::empty()
    }
}

/// Where the first `failures` attempts fail, at most five of them, and the
/// next attempt succeeds, `failures + 1` attempts are made in all, and the
/// wait before retry number `i` is `6 * i` seconds.
pub proof fn lemma_retry_until_success(succeeds: spec_fn(int) -> bool, failures: int)
    requires
        0 <= failures <= MAX_RETRIES,
        forall|k: int| 1 <= k <= failures ==> !#[trigger] succeeds(k),
        succeeds(failures + 1),
    ensures
        attempts_in_all(succeeds, 1) == failures + 1,
        waits_after(succeeds, 1) == Seq::new(failures as nat, |i: int| 6 * (i + 1)),
        step_after(failures + 1, succeeds(failures + 1)) == Step::Done,
{
    lemma_retries_from(succeeds, failures, 1);
    assert(Seq::new((failures + 1 - 1) as nat, |i: int| 6 * (i + 1)) =~= Seq::new(
        failures as nat,
        |i: int| 6 * (i + 1),
    ));
}

/// Where every attempt fails, six attempts are made in all, with waits of
/// 6, 12, 18, 24 and 30 seconds between them, and then the switching is
/// given up.
pub proof fn lemma_retry_gives_up(succeeds: spec_fn(int) -> bool)
    requires
        forall|k: int| 1 <= k <= MAX_RETRIES + 1 ==> !#[trigger] succeeds(k),
    ensures
        attempts_in_all(succeeds, 1) == MAX_RETRIES + 1,
        waits_after(succeeds, 1) == seq![6int, 12, 18, 24, 30],
        step_after(MAX_RETRIES + 1, succeeds(MAX_RETRIES + 1)) == Step::GiveUp,
{
    reveal_with_fuel(attempts_in_all, 7);
    reveal_with_fuel(waits_after, 7);
    assert(!succeeds(1) && !succeeds(2) && !succeeds(3) && !succeeds(4) && !succeeds(5)
        && !succeeds(6));
    assert(waits_after(succeeds, 1) =~= seq![6int, 12, 18, 24, 30]);
}

/// The attempts and waits from attempt number `made` on, where the
/// attempts up to number `failures` fail and the next succeeds.
proof fn lemma_retries_from(succeeds: spec_fn(int) -> bool, failures: int, made: int)
    requires
        0 <= failures <= MAX_RETRIES,
        1 <= made <= failures + 1,
        forall|k: int| 1 <= k <= failures ==> !#[trigger] succeeds(k),
        succeeds(failures + 1),
    ensures
        attempts_in_all(succeeds, made) == failures + 1,
        waits_after(succeeds, made) == Seq::new(
            (failures + 1 - made) as nat,
            |i: int| 6 * (i + made),
        ),
    decreases failures + 1 - made,
{
    if made <= failures {
        lemma_retries_from(succeeds, failures, made + 1);
        assert(!succeeds(made));
        assert(waits_after(succeeds, made) =~= Seq::new(
            (failures + 1 - made) as nat,
            |i: int| 6 * (i + made),
        ));
    } else {
        assert(waits_after(succeeds, made) =~= Seq::new(
            (failures + 1 - made) as nat,
            |i: int| 6 * (i + made),
        ));
    }
}

/// What the switch's answer to a switching says, `None` standing for a
/// request that got no answer.
pub open spec fn switching(status: Option<u16>) -> Result<(), Error> {
    match status {
        None => Err(Error::SendingRequest),
        Some(code) => if code == STATUS_OK {
            Ok(())
        } else {
            Err(Error::UnexpectedStatusCode(code))
        },
    }
}

/// What the switch's answer to a question for its state says, `ison` being
/// the truth value that the answer's body holds under that name: whether the
/// switch is on, or why that is not known. `None` where the switch has
/// served the request and its answer does not tell.
pub open spec fn reading(status: Option<u16>, ison: Option<bool>) -> Option<Result<bool, Error>> {
    match status {
        None => Some(Err(Error::SendingRequest)),
        Some(code) => if code == STATUS_OK {
            match ison {
                Some(power) => Some(Ok(power)),
                None => None,
            }
        } else {
            Some(Err(Error::UnexpectedStatusCode(code)))
        },
    }
}

/// The truth value that the JSON text `text` holds under the name `key` at
/// its top level, if it holds one.
pub uninterp spec fn json_bool(text: Seq<char>, key: Seq<char>) -> Option<bool>;

/// Reads a truth value out of a JSON text.
///
/// Trusted: parses the text with `serde_json::from_str` into a
/// `serde_json::Value`, indexes it by `key` and asks `Value::as_bool`. The
/// contract only names the result.
#[verifier::external_body]
fn json_bool_field(text: &str, key: &str) -> (found: Option<bool>)
    ensures
        found == json_bool(text@, key@),
{
    match serde_json::from_str::<serde_json::Value>(text) {
        Ok(value) => value[key].as_bool(),
        Err(_) => None,
    }
}

impl Plug {
    /// The address of the switch, without a trailing slash.
    pub closed spec fn url(self) -> Seq<char> {
        self.base_url@
    }

    /// The switch at `base_url`, `probe` being what a question for its state
    /// at that address gave: only a switch that has answered is kept.
    pub fn new(base_url: String, probe: Result<bool, Error>) -> (plug: Result<Self, Error>)
        ensures
            match probe {
                Ok(_) => plug matches Ok(p) && p.url() == base_url@,
                Err(error) => plug matches Err(e) && e == error,
            },
    {
        match probe {
            Ok(_) => Ok(Self { base_url }),
            Err(error) => Err(error),
        }
    }

    /// The switch at `base_url`, an address that is known from before.
    pub fn at(base_url: String) -> (plug: Self)
        ensures
            plug.url() == base_url@,
    {
        Self { base_url }
    }

    pub fn get_url(&self) -> (url: &str)
        ensures
            url@ == self.url(),
    {
        self.base_url.as_str()
    }

    /// Where to ask the switch at `base_url` for its state.
    pub fn relay_url(base_url: &str) -> (url: String)
        ensures
            url@ == base_url@ + "/relay/0"@,
    {
        let mut url = base_url.to_owned();
        url.append("/relay/0");
        url
    }

    /// Where to tell the switch at `base_url` to go on or off.
    pub fn switch_url(base_url: &str, power: bool) -> (url: String)
        ensures
            url@ == base_url@ + "/relay/0?turn="@ + (if power {
                "on"@
            } else {
                "off"@
            }),
    {
        let turn = if power {
            "on"
        } else {
            "off"
        };
        let mut url = base_url.to_owned();
        url.append("/relay/0?turn=");
        url.append(turn);
        url
    }

    /// Judges the switch's answer to a switching.
    pub fn switched(status: Option<u16>) -> (outcome: Result<(), Error>)
        ensures
            outcome == switching(status),
    {
        match status {
            None => Err(Error::SendingRequest),
            Some(code) => {
                if code == STATUS_OK {
                    Ok(())
                } else {
                    Err(Error::UnexpectedStatusCode(code))
                }
            },
        }
    }

    /// Judges the switch's answer to a question for its state, `ison` being
    /// what its body holds under that name.
    pub fn power_of(status: Option<u16>, ison: Option<bool>) -> (power: Option<Result<bool, Error>>)
        ensures
            power == reading(status, ison),
    {
        match status {
            None => Some(Err(Error::SendingRequest)),
            Some(code) => {
                if code == STATUS_OK {
                    match ison {
                        Some(power) => Some(Ok(power)),
                        None => None,
                    }
                } else {
                    Some(Err(Error::UnexpectedStatusCode(code)))
                }
            },
        }
    }

    /// Judges the switch's answer to a question for its state: the status
    /// of the answer, and its body, a JSON text that tells under the name
    /// `ison` whether the switch is on.
    pub fn read_power(status: Option<u16>, body: &str) -> (power: Option<Result<bool, Error>>)
        ensures
            power == reading(status, json_bool(body@, "ison"@)),
    {
        match status {
            Some(code) => {
                if code == STATUS_OK {
                    Self::power_of(status, json_bool_field(body, "ison"))
                } else {
                    Self::power_of(status, None)
                }
            },
            None => Self::power_of(status, None),
        }
    }

    /// The seconds to wait before retry number `retry`.
    pub fn retry_seconds(retry: u64) -> (seconds: u64)
        ensures
            seconds == backoff(retry as int),
    {
        // linear increase until maxing out at 60
        if retry <= MAX_RETRY_SECONDS / RETRY_STEP_SECONDS {
            RETRY_STEP_SECONDS * retry
        } else {
            MAX_RETRY_SECONDS
        }
    }

    /// What follows the attempt to switch that is number `attempts`, counted
    /// from one: nothing where it succeeded; else a wait and another
    /// attempt, up to five times; else nothing more.
    pub fn after_attempt(attempts: u64, outcome: &Result<(), Error>) -> (step: Step)
        ensures
            step == step_after(attempts as int, outcome is Ok),
    {
        match outcome {
            Ok(_) => Step::Done,
            Err(_) => {
                if attempts <= MAX_RETRIES {
                    Step::Retry { retry: attempts, seconds: Self::retry_seconds(attempts) }
                } else {
                    Step::GiveUp
                }
            },
        }
    }
}

} // verus!
