//! Whether a request is sent again.

use crate::text::{
    decimal, decimal_of, digits_value, is_digits, parse_digits, strip_prefix, trim, trimmed,
};
use vstd::prelude::*;

verus! {

/// How often a request is sent again at most.
pub const MAX_RETRIES: u32 = 2;

/// How long to wait before a request is sent again for the first time, in seconds.
pub const RETRY_DELAY_SECS: u64 = 1;

/// How long to wait where the service limits the rate of requests and does not say for how long,
/// in seconds.
pub const RATE_LIMIT_DELAY_SECS: u64 = 2;

/// After how long a request is not sent again, in nanoseconds.
pub const RETRY_MAX_NANOS: u128 = 20_000_000_000;

/// Whether a request that was answered with `code` may be sent again.
pub open spec fn retryable(code: u16) -> bool {
    code == 408 || code == 409 || code == 425 || code == 429 || code == 500 || code == 502 || code
        == 503 || code == 504
}

/// Whether a request that was answered with `code` may be sent again.
pub fn is_retryable(code: u16) -> (r: bool)
    ensures
        r == retryable(code),
{
    code == 408 || code == 409 || code == 425 || code == 429 || code == 500 || code == 502 || code
        == 503 || code == 504
}

/// Whether a request may be sent again after `attempt` times and after so long.
pub open spec fn may_retry(attempt: nat, elapsed_nanos: nat) -> bool {
    attempt < MAX_RETRIES && elapsed_nanos <= RETRY_MAX_NANOS
}

/// Whether a request may be sent again after `attempt` times and after so long.
pub fn can_retry(attempt: u32, elapsed_nanos: u128) -> (r: bool)
    ensures
        r == may_retry(attempt as nat, elapsed_nanos as nat),
{
    attempt < MAX_RETRIES && elapsed_nanos <= RETRY_MAX_NANOS
}

/// The number that a text stands for, with or without a plus sign before it.
pub open spec fn unsigned_value(text: Seq<char>) -> Option<nat> {
    let digits = if text.len() > 0 && text[0] == '+' {
        text.drop_first()
    } else {
        text
    };
    if is_digits(digits) && digits_value(digits) <= u64::MAX {
        Some(digits_value(digits))
    } else {
        None
    }
}

fn parse_unsigned(text: &str) -> (r: Option<u64>)
    ensures
        match r {
            Some(n) => unsigned_value(text@) == Some(n as nat),
            None => unsigned_value(text@) is None,
        },
{
    proof {
        reveal_strlit("+");
    }
    match strip_prefix(text, "+") {
        Some(rest) => {
            assert(rest@ =~= text@.drop_first());
            assert(text@[0] == "+"@[0]);
            parse_digits(rest.as_str())
        },
        None => {
            proof {
                if text@.len() > 0 && text@[0] == '+' {
                    assert(text@.take(1) =~= "+"@);
                }
            }
            parse_digits(text)
        },
    }
}

/// How long to wait, in seconds, before a request is sent again that was answered with `code`.
pub open spec fn delay_after(code: u16, retry_after: Option<Seq<char>>, attempt: nat) -> nat
    decreases attempt,
{
    if code == 429 {
        match retry_after {
            Some(text) => match unsigned_value(text) {
                Some(n) => n,
                None => RATE_LIMIT_DELAY_SECS as nat,
            },
            None => RATE_LIMIT_DELAY_SECS as nat,
        }
    } else if attempt == 0 {
        RETRY_DELAY_SECS as nat
    } else {
        2 * delay_after(code, retry_after, (attempt - 1) as nat)
    }
}

/// What is to be done with a request.
#[derive(Clone, Copy, Debug, PartialEq, Eq, Structural)]
pub enum SendStep {
    /// The answer is taken, after so many attempts.
    Accept { attempt_count: u32 },
    /// The request has failed, after so many attempts.
    GiveUp { attempt_count: u32 },
    /// The request is sent again after so many seconds.
    Wait { seconds: u64 },
}

/// A request that is being sent: how often it has failed so far.
#[derive(Clone, Copy, Debug, PartialEq, Eq, Structural)]
pub struct SendProgress {
    pub attempt: u32,
}

impl SendProgress {
    /// What holds of every request: it is not sent again too often.
    pub open spec fn valid(self) -> bool {
        self.attempt <= MAX_RETRIES
    }

    /// What is to be done with a request that was answered with `code`.
    pub open spec fn after_status(
        self,
        code: u16,
        retry_after: Option<Seq<char>>,
        elapsed_nanos: nat,
    ) -> SendStep {
        let attempt_count = (self.attempt + 1) as u32;
        if code < 400 {
            SendStep::Accept { attempt_count }
        } else if !retryable(code) || !may_retry(self.attempt as nat, elapsed_nanos) {
            SendStep::GiveUp { attempt_count }
        } else {
            SendStep::Wait {
                seconds: delay_after(code, retry_after, self.attempt as nat) as u64,
            }
        }
    }

    /// What is to be done with a request that was not answered.
    pub open spec fn after_fault(self, elapsed_nanos: nat) -> SendStep {
        if may_retry(self.attempt as nat, elapsed_nanos) {
            SendStep::Wait { seconds: RETRY_DELAY_SECS }
        } else {
            SendStep::GiveUp { attempt_count: (self.attempt + 1) as u32 }
        }
    }

    /// The request after a step: one that is sent again has failed once more.
    pub open spec fn stepped(self, step: SendStep) -> SendProgress {
        match step {
            SendStep::Wait { .. } => SendProgress { attempt: (self.attempt + 1) as u32 },
            _ => self,
        }
    }

    /// A request that has not been sent yet.
    pub fn new() -> (r: SendProgress)
        ensures
            r.attempt == 0,
            r.valid(),
    {
        SendProgress { attempt: 0 }
    }

    /// What is to be done with a request that was answered with `code`, and with `retry_after` as
    /// the time after which to send it again.
    pub fn on_status(&mut self, code: u16, retry_after: Option<String>, elapsed_nanos: u128) -> (r:
        SendStep)
        requires
            old(self).valid(),
        ensures
            r == old(self).after_status(
                code,
                crate::text::opt_view(retry_after),
                elapsed_nanos as nat,
            ),
            *final(self) == old(self).stepped(r),
            final(self).valid(),
            r matches SendStep::Wait { seconds } ==> seconds == delay_after(
                code,
                crate::text::opt_view(retry_after),
                old(self).attempt as nat,
            ),
    {
        let attempt_count: u32 = self.attempt + 1;
        if code < 400 {
            return SendStep::Accept { attempt_count };
        }
        if !is_retryable(code) || !can_retry(self.attempt, elapsed_nanos) {
            return SendStep::GiveUp { attempt_count };
        }
        let seconds: u64 = if code == 429 {
            match retry_after {
                Some(text) => match parse_unsigned(text.as_str()) {
                    Some(n) => n,
                    None => RATE_LIMIT_DELAY_SECS,
                },
                None => RATE_LIMIT_DELAY_SECS,
            }
        } else if self.attempt == 0 {
            RETRY_DELAY_SECS
        } else {
            proof {
                reveal_with_fuel(delay_after, 2);
            }
            2 * RETRY_DELAY_SECS
        };
        self.attempt = attempt_count;
        SendStep::Wait { seconds }
    }

    /// What is to be done with a request that was not answered.
    pub fn on_fault(&mut self, elapsed_nanos: u128) -> (r: SendStep)
        requires
            old(self).valid(),
        ensures
            r == old(self).after_fault(elapsed_nanos as nat),
            *final(self) == old(self).stepped(r),
            final(self).valid(),
    {
        if !can_retry(self.attempt, elapsed_nanos) {
            return SendStep::GiveUp { attempt_count: self.attempt + 1 };
        }
        self.attempt = self.attempt + 1;
        SendStep::Wait { seconds: RETRY_DELAY_SECS }
    }

    /// What the user is told before a request is sent again.
    pub fn retry_note(&self) -> (r: String)
        ensures
            r@ == "Retrying ("@ + decimal(self.attempt as nat) + "/"@ + decimal(
                MAX_RETRIES as nat,
            ) + ")..."@,
    {
        "Retrying (".to_owned().concat(decimal_of(self.attempt as u64).as_str()).concat(
            "/",
        ).concat(decimal_of(MAX_RETRIES as u64).as_str()).concat(")...")
    }
}

/// What is said of a request that was answered with `code` and `body`.
pub open spec fn http_failure(code: nat, body: Seq<char>) -> Seq<char> {
    "HTTP "@ + decimal(code) + ": "@ + trimmed(body)
}

/// What is said of a request that was answered with `code` and `body`.
pub fn http_failure_text(code: u16, body: &str) -> (r: String)
    ensures
        r@ == http_failure(code as nat, body@),
{
    "HTTP ".to_owned().concat(decimal_of(code as u64).as_str()).concat(": ").concat(
        trim(body).as_str(),
    )
}

/// What came of sending a request once.
pub enum SendOutcome {
    Status { code: u16, retry_after: Option<Seq<char>>, elapsed_nanos: nat },
    Fault { elapsed_nanos: nat },
}

/// What is to be done after an outcome.
pub open spec fn step_after(progress: SendProgress, outcome: SendOutcome) -> SendStep {
    match outcome {
        SendOutcome::Status { code, retry_after, elapsed_nanos } => progress.after_status(
            code,
            retry_after,
            elapsed_nanos,
        ),
        SendOutcome::Fault { elapsed_nanos } => progress.after_fault(elapsed_nanos),
    }
}

/// How often a request is sent again, given what comes of each time.
pub open spec fn resends(progress: SendProgress, outcomes: Seq<SendOutcome>) -> nat
    decreases outcomes.len(),
{
    if outcomes.len() == 0 {
        0
    } else {
        let step = step_after(progress, outcomes[0]);
        if step is Wait {
            1 + resends(progress.stepped(step), outcomes.drop_first())
        } else {
            0
        }
    }
}

/// Whatever comes of it, a request is sent again no more often than it may be.
pub proof fn resends_are_bounded(progress: SendProgress, outcomes: Seq<SendOutcome>)
    requires
        progress.valid(),
    ensures
        resends(progress, outcomes) + progress.attempt <= MAX_RETRIES,
    decreases outcomes.len(),
{
    if outcomes.len() > 0 {
        let step = step_after(progress, outcomes[0]);
        if step is Wait {
            resends_are_bounded(progress.stepped(step), outcomes.drop_first());
        }
    }
}

} // verus!
