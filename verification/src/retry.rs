//! Bounded fixed-delay retry policy for fetching one snapshot.
//!
//! The caller performs each HTTP attempt and feeds its outcome to
//! [`RetryState::step`]; the step function decides whether the body is
//! delivered, another attempt (after a fixed delay) is due, or the fetch
//! is given up with a representative error.

use vstd::prelude::*;

verus! {

/// What one HTTP attempt produced: a successful body, a non-success
/// HTTP status code, or a transport-level failure described by a message.
pub enum Outcome {
    Body(String),
    HttpStatus(u16),
    Transport(String),
}

/// The error reported when every attempt failed: the most recent
/// transport-level failure if one was observed, otherwise the last
/// non-success HTTP status.
#[derive(Debug)]
pub enum FetchError {
    Transport(String),
    Http(u16),
}

/// What the caller must do next after reporting an attempt's outcome.
pub enum Decision {
    /// The attempt succeeded; this is the response body.
    Deliver(String),
    /// The attempt failed but attempts remain: wait the fixed delay, retry.
    RetryAfterDelay,
    /// Every attempt failed: stop, with the representative error.
    GiveUp(FetchError),
}

/// Retry progress for a single snapshot fetch.
pub struct RetryState {
    /// Total attempts allowed; at least one.
    pub max_attempts: u32,
    /// Attempts completed so far.
    pub attempt: u32,
    /// Message of the most recent transport-level failure, if any.
    pub last_transport: Option<String>,
}

impl RetryState {
    pub open spec fn wf(self) -> bool {
        &&& self.max_attempts >= 1
        &&& self.attempt <= self.max_attempts
    }

    /// The state before any attempt has been made.
    pub open spec fn initial(max_attempts: u32) -> RetryState {
        RetryState { max_attempts, attempt: 0, last_transport: None }
    }

    pub fn new(max_attempts: u32) -> (s: RetryState)
        requires
            max_attempts >= 1,
        ensures
            s == RetryState::initial(max_attempts),
            s.wf(),
    {
        RetryState { max_attempts, attempt: 0, last_transport: None }
    }

    /// Record the outcome of one attempt and decide what happens next.
    pub fn step(&mut self, outcome: Outcome) -> (d: Decision)
        requires
            old(self).wf(),
            old(self).attempt < old(self).max_attempts,
        ensures
            (*final(self), d) == spec_step(*old(self), outcome),
            final(self).wf(),
            final(self).attempt == old(self).attempt + 1,
    {
        self.attempt = self.attempt + 1;
        match outcome {
            Outcome::Body(b) => Decision::Deliver(b),
            Outcome::HttpStatus(code) => {
                if self.attempt == self.max_attempts {
                    match &self.last_transport {
                        Some(m) => Decision::GiveUp(FetchError::Transport(m.clone())),
                        None => Decision::GiveUp(FetchError::Http(code)),
                    }
                } else {
                    Decision::RetryAfterDelay
                }
            },
            Outcome::Transport(msg) => {
                let d = if self.attempt == self.max_attempts {
                    Decision::GiveUp(FetchError::Transport(msg.clone()))
                } else {
                    Decision::RetryAfterDelay
                };
                self.last_transport = Some(msg);
                d
            },
        }
    }
}

/// True of an outcome that counts as a failed attempt.
pub open spec fn is_failure(o: Outcome) -> bool {
    !(o is Body)
}

/// The representative error on exhaustion: the most recent transport
/// failure when one exists, else the status of the failed attempt given.
pub open spec fn giveup_error(last_transport: Option<String>, o: Outcome) -> FetchError {
    match last_transport {
        Some(m) => FetchError::Transport(m),
        None => match o {
            Outcome::HttpStatus(code) => FetchError::Http(code),
            Outcome::Transport(m) => FetchError::Transport(m),
            Outcome::Body(_) => FetchError::Http(0),
        },
    }
}

/// One transition of the retry policy: the state after recording
/// `o`, and the decision handed back to the caller.
pub open spec fn spec_step(s: RetryState, o: Outcome) -> (RetryState, Decision) {
    match o {
        Outcome::Body(b) => (
            RetryState {
                max_attempts: s.max_attempts,
                attempt: (s.attempt + 1) as u32,
                last_transport: s.last_transport,
            },
            Decision::Deliver(b),
        ),
        Outcome::HttpStatus(code) => {
            let s2 = RetryState {
                max_attempts: s.max_attempts,
                attempt: (s.attempt + 1) as u32,
                last_transport: s.last_transport,
            };
            if s2.attempt == s2.max_attempts {
                (s2, Decision::GiveUp(giveup_error(s2.last_transport, o)))
            } else {
                (s2, Decision::RetryAfterDelay)
            }
        },
        Outcome::Transport(msg) => {
            let s2 = RetryState {
                max_attempts: s.max_attempts,
                attempt: (s.attempt + 1) as u32,
                last_transport: Some(msg),
            };
            if s2.attempt == s2.max_attempts {
                (s2, Decision::GiveUp(giveup_error(s2.last_transport, o)))
            } else {
                (s2, Decision::RetryAfterDelay)
            }
        },
    }
}

/// The decision a whole fetch ends with, starting from `s`, when the
/// successive attempts produce `outs`. Meaningful when `outs` holds
/// enough outcomes for the run to finish.
pub open spec fn run_from(s: RetryState, outs: Seq<Outcome>) -> Decision
    decreases outs.len(),
{
    if outs.len() == 0 {
        Decision::RetryAfterDelay
    } else {
        let (s2, d) = spec_step(s, outs[0]);
        if d is RetryAfterDelay {
            run_from(s2, outs.drop_first())
        } else {
            d
        }
    }
}

/// While attempts remain, failed attempts are retried: with every
/// outcome before the last a failure and the last a success, the fetch
/// delivers the successful attempt's body.
pub proof fn lemma_retry_delivers(s: RetryState, outs: Seq<Outcome>)
    requires
        s.wf(),
        1 <= outs.len(),
        s.attempt + outs.len() <= s.max_attempts,
        forall|i: int| 0 <= i < outs.len() - 1 ==> is_failure(#[trigger] outs[i]),
        outs.last() is Body,
    ensures
        run_from(s, outs) == Decision::Deliver(outs.last()->Body_0),
    decreases outs.len(),
{
    let (s2, d) = spec_step(s, outs[0]);
    if outs.len() == 1 {
    } else {
        assert(is_failure(outs[0]));
        assert(d is RetryAfterDelay);
        assert(outs.drop_first().last() == outs.last());
        lemma_retry_delivers(s2, outs.drop_first());
    }
}

/// When every remaining attempt fails, the fetch is given up; and when
/// every failure was an HTTP status with no transport failure on record,
/// the representative error carries the last status observed.
pub proof fn lemma_retry_exhausts(s: RetryState, outs: Seq<Outcome>)
    requires
        s.wf(),
        1 <= outs.len(),
        s.attempt + outs.len() == s.max_attempts,
        forall|i: int| 0 <= i < outs.len() ==> is_failure(#[trigger] outs[i]),
    ensures
        run_from(s, outs) is GiveUp,
        (s.last_transport is None && forall|i: int|
            0 <= i < outs.len() ==> (#[trigger] outs[i]) is HttpStatus) ==> run_from(s, outs)
            == Decision::GiveUp(FetchError::Http(outs.last()->HttpStatus_0)),
    decreases outs.len(),
{
    let (s2, d) = spec_step(s, outs[0]);
    if outs.len() == 1 {
        assert(d is GiveUp);
    } else {
        assert(is_failure(outs[0]));
        assert(d is RetryAfterDelay);
        assert(outs.drop_first().last() == outs.last());
        lemma_retry_exhausts(s2, outs.drop_first());
    }
}

} // verus!
