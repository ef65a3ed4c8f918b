//! Telling a resumed guest the time.
//!
//! After a resume the guest's wall clock is where the snapshot left it, and
//! nothing in the guest notices. The host tells the agent, for as long as its
//! patience lasts: a channel that is not there yet is tried again, an agent that
//! says no is not.

use crate::guest_proto::{ClientError, ClockResult};
use crate::text::concat2;
use vstd::prelude::*;
use vstd::string::*;

verus! {

/// How long the host keeps trying, in milliseconds.
pub const BUDGET_MS: u64 = 3000;

/// How long it waits between two tries, in milliseconds.
pub const RETRY_MS: u64 = 100;

/// How long it waits for one answer, in milliseconds.
pub const ANSWER_MS: u64 = 2000;

/// What came of one try.
#[derive(Debug)]
pub enum Attempt {
    /// The channel did not open.
    NoChannel(String),
    /// The agent did not answer in time.
    NoAnswer,
    /// It answered.
    Answer(Result<ClockResult, ClientError>),
}

/// What to do after one try.
#[derive(Debug)]
pub enum Next {
    /// Over; the guest's clock was stepped by so many milliseconds.
    Stepped(i64),
    /// Over; there was nothing to step.
    InStep,
    /// Try again shortly; this is what went wrong.
    Retry(String),
    /// Over; the guest keeps its clock for this reason.
    GiveUp(String),
}

/// What went wrong with a try that may be repeated.
pub open spec fn retry_reason(a: Attempt) -> Option<Seq<char>> {
    match a {
        Attempt::NoChannel(m) => Some(m@),
        Attempt::NoAnswer => Some("guest agent did not answer in time"@),
        Attempt::Answer(Err(ClientError::Agent(_))) => None,
        Attempt::Answer(Err(e)) => Some(e.said()),
        Attempt::Answer(Ok(_)) => None,
    }
}

/// Whether another try is due, `elapsed_ms` after the first began.
pub open spec fn patient(elapsed_ms: u64) -> bool {
    elapsed_ms < BUDGET_MS
}

/// Whether another try is due.
pub fn may_try(elapsed_ms: u64) -> (r: bool)
    ensures
        r == patient(elapsed_ms),
{
    elapsed_ms < BUDGET_MS
}

/// Whether `n` is what to do after one try.
pub open spec fn next_after(a: Attempt, n: Next) -> bool {
    match a {
        Attempt::Answer(Ok(c)) => if c.stepped {
            n == Next::Stepped(c.offset_ms)
        } else {
            n == Next::InStep
        },
        Attempt::Answer(Err(ClientError::Agent(m))) => n matches Next::GiveUp(s) && s@
            == "guest agent: "@ + m@,
        _ => n matches Next::Retry(s) && retry_reason(a) == Some(s@),
    }
}

/// Decides what to do after one try: an agent that answers, with or without
/// success, is not asked again.
pub fn after_attempt(a: Attempt) -> (n: Next)
    ensures
        next_after(a, n),
{
    match a {
        Attempt::Answer(Ok(c)) => if c.stepped {
            Next::Stepped(c.offset_ms)
        } else {
            Next::InStep
        },
        Attempt::Answer(Err(ClientError::Agent(m))) => Next::GiveUp(
            concat2("guest agent: ", m.as_str()),
        ),
        Attempt::Answer(Err(e)) => Next::Retry(e.to_string()),
        Attempt::NoChannel(m) => Next::Retry(m),
        Attempt::NoAnswer => Next::Retry("guest agent did not answer in time".to_string()),
    }
}

/// **Law.** An agent that answered is not asked again, whatever it said, and a
/// guest that was not reached is: the guest's clock counts as stepped only where
/// the agent says so, by as much as it says.
pub proof fn law_an_answer_is_final(a: Attempt, n: Next)
    requires
        next_after(a, n),
    ensures
        a is NoChannel || a is NoAnswer ==> n is Retry,
        a matches Attempt::Answer(x) ==> (n is Retry <==> x is Err && !(x->Err_0 is Agent)),
        n matches Next::Stepped(ms) ==> (a matches Attempt::Answer(Ok(c)) && c.stepped && c.offset_ms
            == ms),
        n is InStep <==> (a matches Attempt::Answer(Ok(c)) && !c.stepped),
        n is GiveUp <==> (a matches Attempt::Answer(Err(e)) && e is Agent),
{
}

/// **Law.** The host's patience has an end, three seconds after it began, and is
/// longer than any one answer takes; between two tries it waits a moment.
pub proof fn law_patience_has_an_end(elapsed_ms: u64)
    ensures
        patient(elapsed_ms) <==> elapsed_ms < 3 * 1000,
        patient(0),
        patient(ANSWER_MS),
        ANSWER_MS == 2 * 1000,
        RETRY_MS == 100,
{
}

} // verus!
