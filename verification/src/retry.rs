//! The reconnect loop and the command-passthrough retry, as explicit state
//! machines: the decisions are verified here, while the I/O that carries
//! them out (connecting, sleeping, sending) lives outside the library.

use vstd::prelude::*;

verus! {

/// What the reconnect loop logs after a failed attempt.
#[derive(Debug, Clone, Copy, PartialEq, Eq, Structural)]
pub enum ReconnectLog {
    /// The first failure: logged loudly, once.
    FirstFailure,
    /// Any later failure: logged quietly, to avoid log spam.
    QuietRetry,
}

/// The reconnect loop's state: how many attempts have failed so far, and
/// whether it has succeeded and stopped.
#[derive(Debug, Clone, Copy, PartialEq, Eq, Structural)]
pub struct Reconnector {
    /// Failed attempts so far.
    pub failures: u64,
    /// A reconnect attempt has succeeded; the loop is over.
    pub done: bool,
}

impl Reconnector {
    /// A fresh loop: nothing attempted yet.
    pub fn new() -> (r: Reconnector)
        ensures
            r.failures == 0,
            !r.done,
    {
        Reconnector { failures: 0, done: false }
    }

    /// Record one reconnect attempt's outcome. On success the loop is done
    /// and nothing is logged; the first failure is logged loudly, every
    /// later one quietly, and the loop goes on.
    pub fn on_attempt(&mut self, success: bool) -> (log: Option<ReconnectLog>)
        requires
            !old(self).done,
            old(self).failures < u64::MAX,
        ensures
            final(self).done == success,
            success ==> final(self).failures == old(self).failures && log is None,
            !success ==> {
                &&& final(self).failures == old(self).failures + 1
                &&& log == Some(
                    if old(self).failures == 0 {
                        ReconnectLog::FirstFailure
                    } else {
                        ReconnectLog::QuietRetry
                    },
                )
            },
    {
        if success {
            self.done = true;
            None
        } else {
            let log = if self.failures == 0 {
                Some(ReconnectLog::FirstFailure)
            } else {
                Some(ReconnectLog::QuietRetry)
            };
            self.failures = self.failures + 1;
            log
        }
    }
}

/// Index of the first successful outcome, or the length if every attempt
/// fails.
pub open spec fn spec_first_success(outcomes: Seq<bool>, i: int) -> int
    decreases outcomes.len() - i,
{
    if i < 0 || i >= outcomes.len() || outcomes[i] {
        i
    } else {
        spec_first_success(outcomes, i + 1)
    }
}

/// What a reconnect loop did over a whole sequence of attempt outcomes.
#[derive(Debug, Clone, Copy, PartialEq, Eq, Structural)]
pub struct ReconnectRun {
    /// Attempts performed before stopping.
    pub attempts: u64,
    /// Loud first-failure logs emitted.
    pub first_failure_logs: u64,
    /// Quiet retry logs emitted.
    pub quiet_logs: u64,
    /// The loop ended in success (it never gives up on its own; this is
    /// false only when the given outcomes ran out first).
    pub succeeded: bool,
}

/// Run the reconnect loop against a given sequence of attempt outcomes,
/// stopping at the first success: with `n` failures before the first
/// success it performs exactly `n + 1` attempts, logs the first failure
/// loudly exactly once, and every other failure quietly.
pub fn run_reconnect(outcomes: &Vec<bool>) -> (r: ReconnectRun)
    ensures
        ({
            let t = spec_first_success(outcomes@, 0);
            if t < outcomes@.len() {
                &&& r.succeeded
                &&& r.attempts == t + 1
                &&& r.first_failure_logs == (if t > 0 {
                    1int
                } else {
                    0int
                })
                &&& r.quiet_logs == (if t > 0 {
                    t - 1
                } else {
                    0int
                })
            } else {
                &&& !r.succeeded
                &&& r.attempts == outcomes@.len()
                &&& r.first_failure_logs == (if outcomes@.len() > 0 {
                    1int
                } else {
                    0int
                })
                &&& r.quiet_logs == (if outcomes@.len() > 0 {
                    outcomes@.len() - 1
                } else {
                    0int
                })
            }
        }),
{
    let n = outcomes.len();
    let mut rec = Reconnector::new();
    let mut first_logs: u64 = 0;
    let mut quiet_logs: u64 = 0;
    let mut i: usize = 0;
    while i < n && !rec.done
        invariant
            0 <= i <= n,
            n == outcomes@.len(),
            n <= u64::MAX,
            spec_first_success(outcomes@, 0) == spec_first_success(outcomes@, i as int)
                || rec.done,
            rec.done ==> spec_first_success(outcomes@, 0) == i - 1,
            !rec.done ==> rec.failures == i,
            rec.done ==> rec.failures == i - 1,
            first_logs == (if rec.failures > 0 {
                1int
            } else {
                0int
            }),
            quiet_logs == (if rec.failures > 0 {
                rec.failures - 1
            } else {
                0int
            }),
        decreases n - i,
    {
        match rec.on_attempt(outcomes[i]) {
            Some(ReconnectLog::FirstFailure) => {
                first_logs = first_logs + 1;
            },
            Some(ReconnectLog::QuietRetry) => {
                quiet_logs = quiet_logs + 1;
            },
            None => {},
        }
        i = i + 1;
    }
    assert(!rec.done ==> spec_first_success(outcomes@, i as int) == i as int);
    ReconnectRun {
        attempts: i as u64,
        first_failure_logs: first_logs,
        quiet_logs,
        succeeded: rec.done,
    }
}

/// What the command passthrough does next, given an attempt's outcome.
#[derive(Debug, Clone, Copy, PartialEq, Eq, Structural)]
pub enum PassthroughStep {
    /// The attempt succeeded: hand its response to the caller.
    Return,
    /// The first attempt failed: reconnect until success, then retry the
    /// same command exactly once.
    ReconnectAndRetry,
    /// The retry failed too: surface the error to the caller.
    Surface,
}

/// The passthrough retry policy: a command that fails is retried exactly
/// once, after a reconnect; a second failure is surfaced.
pub fn passthrough_decision(first_attempt: bool, succeeded: bool) -> (r: PassthroughStep)
    ensures
        r == (if succeeded {
            PassthroughStep::Return
        } else if first_attempt {
            PassthroughStep::ReconnectAndRetry
        } else {
            PassthroughStep::Surface
        }),
{
    if succeeded {
        PassthroughStep::Return
    } else if first_attempt {
        PassthroughStep::ReconnectAndRetry
    } else {
        PassthroughStep::Surface
    }
}

} // verus!
