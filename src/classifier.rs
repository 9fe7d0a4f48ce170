//! Decisions of the relevance classifier client: reading the model's reply,
//! what to do after each attempt (retry, back off, give up), and the
//! round-robin choice of model.
use vstd::prelude::*;
use vstd::arithmetic::div_mod::{lemma_add_mod_noop, lemma_small_mod};
use crate::text::{
    contains_seq, lower_of, lowercase, remove_white_space, str_contains, str_equal,
    strip_white_space, trim, trim_spec,
};

verus! {

/// Attempts made for one classification before giving up.
pub const MAX_RETRIES: u32 = 10;

/// Seconds allowed to each attempt.
pub const TIMEOUT_SECS: u64 = 10;

/// A normalised reply that reads as yes.
pub open spec fn yes_token(n: Seq<char>) -> bool {
    n == "true"@ || n == "yes"@ || n == "1"@ || n == "correct"@
}

/// A normalised reply that reads as no.
pub open spec fn no_token(n: Seq<char>) -> bool {
    n == "false"@ || n == "no"@ || n == "0"@ || n == "incorrect"@
}

/// The boolean a normalised reply stands for: a token of the table, or else
/// whether it mentions "true" or "yes".
pub open spec fn reply_truth(n: Seq<char>) -> bool {
    if yes_token(n) {
        true
    } else if no_token(n) {
        false
    } else {
        contains_seq(n, "true"@) || contains_seq(n, "yes"@)
    }
}

/// A reply normalised: trimmed, lowercased, white space removed.
pub open spec fn normalized_reply(content: Seq<char>) -> Seq<char> {
    remove_white_space(lower_of(trim_spec(content)))
}

/// How a normalised reply reads.
#[derive(Clone, Debug)]
pub enum Verdict {
    Yes,
    No,
    /// Not in the token table; carries the normalised text.
    Unrecognized(String),
}

impl Verdict {
    /// The boolean this verdict stands for; unrecognised text is accepted
    /// when it mentions "true" or "yes".
    pub fn as_bool(&self) -> (r: bool)
        ensures
            r == match self {
                Verdict::Yes => true,
                Verdict::No => false,
                Verdict::Unrecognized(t) => contains_seq(t@, "true"@) || contains_seq(t@, "yes"@),
            },
    {
        match self {
            Verdict::Yes => true,
            Verdict::No => false,
            Verdict::Unrecognized(t) => str_contains(t.as_str(), "true") || str_contains(
                t.as_str(),
                "yes",
            ),
        }
    }
}

/// Looks a normalised reply up in the token table.
pub fn parse_verdict(normalized: &str) -> (r: Verdict)
    ensures
        match r {
            Verdict::Yes => yes_token(normalized@),
            Verdict::No => !yes_token(normalized@) && no_token(normalized@),
            Verdict::Unrecognized(t) => !yes_token(normalized@) && !no_token(normalized@) && t@
                == normalized@,
        },
{
    if str_equal(normalized, "true") || str_equal(normalized, "yes") || str_equal(normalized, "1")
        || str_equal(normalized, "correct") {
        Verdict::Yes
    } else if str_equal(normalized, "false") || str_equal(normalized, "no") || str_equal(
        normalized,
        "0",
    ) || str_equal(normalized, "incorrect") {
        Verdict::No
    } else {
        Verdict::Unrecognized(String::from_str(normalized))
    }
}

/// Reads a reply that is already trimmed and lowercased.
pub fn judge_lowered(lowered: &str) -> (r: bool)
    ensures
        r == reply_truth(remove_white_space(lowered@)),
{
    let n = strip_white_space(lowered);
    parse_verdict(n.as_str()).as_bool()
}

/// Maps the model's reply to a relevance answer.
pub fn validate_ai_response(content: &str) -> (r: bool)
    ensures
        r == reply_truth(normalized_reply(content@)),
{
    let trimmed = trim(content);
    let lowered = lowercase(trimmed.as_str());
    judge_lowered(lowered.as_str())
}

/// What one classification attempt ended with.
#[derive(Clone, Debug)]
pub enum AttemptEvent {
    /// No response within the attempt's time limit.
    TimedOut,
    /// The request could not be sent or answered.
    TransportFailed,
    /// A response with a status other than success.
    HttpError { status: u16 },
    /// A success response whose body was not valid JSON.
    BodyUnreadable,
    /// A success response; the reply text, when the body holds one.
    Answered { content: Option<String> },
}

/// What the client does after an attempt.
#[derive(Clone, Copy, Debug, PartialEq, Eq, Structural)]
pub enum AttemptStep {
    /// Stop with this answer.
    Finish(bool),
    /// Retry at once, with the next model.
    RetryNow,
    /// Wait this many seconds, then retry.
    RetryAfter { seconds: u64 },
}

/// Linear backoff after the attempt numbered `attempt` (from 0).
pub open spec fn backoff_spec(attempt: u32) -> int {
    2 * (attempt + 1)
}

/// A client error status (4xx).
pub open spec fn is_client_error(status: u16) -> bool {
    400 <= status && status < 500
}

/// Whether the reply of an answered attempt reads as yes; a missing reply
/// reads as no.
pub open spec fn answer_spec(content: Option<String>) -> bool {
    match content {
        Some(c) => reply_truth(normalized_reply(c@)),
        None => false,
    }
}

/// The step after the attempt numbered `attempt` (from 0) of `max_attempts`
/// ended with `event`; `rotate_models` tells whether a client error moves on
/// to the next model without waiting.
pub open spec fn step_spec(attempt: u32, max_attempts: u32, rotate_models: bool, event: AttemptEvent) -> AttemptStep {
    let last = attempt + 1 >= max_attempts;
    match event {
        AttemptEvent::Answered { content } => AttemptStep::Finish(answer_spec(content)),
        AttemptEvent::HttpError { status } => {
            if last {
                AttemptStep::Finish(false)
            } else if rotate_models && is_client_error(status) {
                AttemptStep::RetryNow
            } else {
                AttemptStep::RetryAfter { seconds: backoff_spec(attempt) as u64 }
            }
        },
        _ => {
            if last {
                AttemptStep::Finish(false)
            } else {
                AttemptStep::RetryAfter { seconds: backoff_spec(attempt) as u64 }
            }
        },
    }
}

/// Decides what follows an attempt.
pub fn next_step(attempt: u32, max_attempts: u32, rotate_models: bool, event: &AttemptEvent) -> (r: AttemptStep)
    ensures
        r == step_spec(attempt, max_attempts, rotate_models, *event),
{
    let last = attempt as u64 + 1 >= max_attempts as u64;
    let wait: u64 = 2 * (attempt as u64 + 1);
    match event {
        AttemptEvent::Answered { content } => match content {
            Some(c) => AttemptStep::Finish(validate_ai_response(c.as_str())),
            None => AttemptStep::Finish(false),
        },
        AttemptEvent::HttpError { status } => {
            if last {
                AttemptStep::Finish(false)
            } else if rotate_models && 400 <= *status && *status < 500 {
                AttemptStep::RetryNow
            } else {
                AttemptStep::RetryAfter { seconds: wait }
            }
        },
        _ => {
            if last {
                AttemptStep::Finish(false)
            } else {
                AttemptStep::RetryAfter { seconds: wait }
            }
        },
    }
}

/// The client never goes past its attempt ceiling, is fail-closed (a yes
/// comes only from a reply that reads as yes), and waits `2 * (attempt + 1)`
/// seconds whenever it backs off.
pub proof fn lemma_step_bounded_and_fail_closed(
    attempt: u32,
    max_attempts: u32,
    rotate_models: bool,
    event: AttemptEvent,
)
    ensures
        attempt + 1 >= max_attempts ==> step_spec(attempt, max_attempts, rotate_models, event) is Finish,
        step_spec(attempt, max_attempts, rotate_models, event) == AttemptStep::Finish(true) ==> (
        event matches AttemptEvent::Answered { content } && answer_spec(content)),
        step_spec(attempt, max_attempts, rotate_models, event) matches AttemptStep::RetryAfter { seconds }
            ==> seconds == backoff_spec(attempt),
        step_spec(attempt, max_attempts, rotate_models, event) == AttemptStep::RetryNow ==> (
        rotate_models && (event matches AttemptEvent::HttpError { status } && is_client_error(status))),
{
}

/// A fixed list of models taken in turn; the counter is shared by all
/// attempts of all calls.
pub struct ModelRotation {
    pub models: Vec<String>,
    pub counter: usize,
}

/// The counter after one step (it wraps around at its maximum).
pub open spec fn next_counter(c: usize) -> usize {
    if c == usize::MAX {
        0
    } else {
        (c + 1) as usize
    }
}

impl ModelRotation {
    /// A rotation that starts at the first model.
    pub fn new(models: Vec<String>) -> (r: ModelRotation)
        ensures
            r.models@ == models@,
            r.counter == 0,
    {
        ModelRotation { models, counter: 0 }
    }

    /// Index of the model for the next attempt, advancing the counter.
    pub fn next_index(&mut self) -> (r: usize)
        requires
            old(self).models.len() > 0,
        ensures
            r == old(self).counter % old(self).models.len(),
            r < old(self).models.len(),
            final(self).counter == next_counter(old(self).counter),
            final(self).models@ == old(self).models@,
    {
        let i = self.counter % self.models.len();
        self.counter = if self.counter == usize::MAX {
            0
        } else {
            self.counter + 1
        };
        i
    }

    /// Name of the model for the next attempt, advancing the counter.
    pub fn next_model(&mut self) -> (r: String)
        requires
            old(self).models.len() > 0,
        ensures
            r@ == old(self).models@[(old(self).counter % old(self).models.len()) as int]@,
            final(self).counter == next_counter(old(self).counter),
            final(self).models@ == old(self).models@,
    {
        let i = self.next_index();
        self.models[i].clone()
    }
}

/// Consecutive attempts take consecutive models, going back to the first
/// after the last.
pub proof fn lemma_rotation_cycles(counter: usize, n: nat)
    requires
        n > 0,
        counter < usize::MAX,
    ensures
        next_counter(counter) as int % (n as int) == (counter as int % (n as int) + 1) % (n as int),
{
    let c = counter as int;
    let m = n as int;
    assert(next_counter(counter) as int == c + 1);
    lemma_add_mod_noop(c, 1, m);
    if n > 1 {
        lemma_small_mod(1, n);
    } else {
        assert(1int % 1 == 0) by (nonlinear_arith);
    }
}

} // verus!
