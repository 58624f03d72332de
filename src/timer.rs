//! A timer that reports how long an activity took, once.
use vstd::prelude::*;
use crate::level::Level;
use crate::logger::Logger;

verus! {

#[verifier::external_type_specification]
#[verifier::external_body]
pub struct ExInstant(std::time::Instant);

/// Relies on `Instant::now`: a reading of the monotonic clock, of which
/// nothing is promised here.
pub assume_specification[ std::time::Instant::now ]() -> std::time::Instant;

/// Relies on `Instant::elapsed`: the time since the reading, which depends on
/// the clock and is left open here.
pub assume_specification[ std::time::Instant::elapsed ](
    this: &std::time::Instant,
) -> std::time::Duration;

/// Relies on `Duration::as_nanos`: the whole number of nanoseconds in a
/// duration, which Verus cannot see inside.
pub assume_specification[ std::time::Duration::as_nanos ](this: &std::time::Duration) -> u128;

/// What a completed timer reports: a `Warn` with the limit when the elapsed
/// time exceeded it, a `Trace` otherwise.
#[derive(Clone, Copy, Debug, PartialEq, Eq, Structural)]
pub struct TimerReport {
    pub level: Level,
    pub elapsed_nanos: u128,
    pub limit_nanos: Option<u128>,
}

/// Measures the wall time between its creation and its completion.
pub struct Timer {
    pub logger: Logger,
    pub start_time: std::time::Instant,
    pub name: &'static str,
    pub warn_if_longer_than: Option<u128>,
    pub done: bool,
}

/// The report for an elapsed time against an optional limit.
pub open spec fn report_for(elapsed: u128, limit: Option<u128>) -> TimerReport {
    match limit {
        Some(l) => if elapsed > l {
            TimerReport { level: Level::Warn, elapsed_nanos: elapsed, limit_nanos: Some(l) }
        } else {
            TimerReport { level: Level::Trace, elapsed_nanos: elapsed, limit_nanos: None }
        },
        None => TimerReport { level: Level::Trace, elapsed_nanos: elapsed, limit_nanos: None },
    }
}

/// The report a completion gives: none once the timer is done.
pub open spec fn completion_report(t: Timer, elapsed: u128) -> Option<TimerReport> {
    if t.done {
        None
    } else {
        Some(report_for(elapsed, t.warn_if_longer_than))
    }
}

/// The timer after a completion.
pub open spec fn completed(t: Timer) -> Timer {
    Timer { done: true, ..t }
}

/// A timer completes at most once: a second completion, explicit or at the
/// end of its scope, reports nothing.
pub proof fn lemma_completes_once(t: Timer, first: u128, second: u128)
    ensures
        completion_report(completed(t), second) is None,
        completion_report(t, first) is Some <==> !t.done,
{
}

impl Timer {
    /// Starts a timer for the activity `name`, reporting through `logger`.
    #[must_use]
    pub fn new(logger: Logger, name: &'static str) -> (r: Self)
        ensures
            r.logger == logger,
            r.name == name,
            r.warn_if_longer_than is None,
            !r.done,
    {
        Timer {
            logger,
            name,
            start_time: std::time::Instant::now(),
            warn_if_longer_than: None,
            done: false,
        }
    }

    /// Sets the limit above which completion reports a warning.
    pub fn warn_if_gt(self, warn_limit: std::time::Duration) -> (r: Self)
        ensures
            r.warn_if_longer_than is Some,
            r.logger == self.logger,
            r.name == self.name,
            r.done == self.done,
    {
        let nanos = warn_limit.as_nanos();
        self.warn_if_gt_nanos(nanos)
    }

    /// Sets the limit, in nanoseconds, above which completion reports a warning.
    pub fn warn_if_gt_nanos(self, warn_limit: u128) -> (r: Self)
        ensures
            r == (Timer { warn_if_longer_than: Some(warn_limit), ..self }),
    {
        let mut t = self;
        t.warn_if_longer_than = Some(warn_limit);
        t
    }

    /// Completes the timer with the measured `elapsed_nanos`: the first call
    /// gives the report and marks the timer done; later calls give nothing.
    pub fn complete(&mut self, elapsed_nanos: u128) -> (r: Option<TimerReport>)
        ensures
            r == completion_report(*old(self), elapsed_nanos),
            *final(self) == completed(*old(self)),
    {
        if self.done {
            return None;
        }
        let report = match self.warn_if_longer_than {
            Some(l) => if elapsed_nanos > l {
                TimerReport { level: Level::Warn, elapsed_nanos, limit_nanos: Some(l) }
            } else {
                TimerReport { level: Level::Trace, elapsed_nanos, limit_nanos: None }
            },
            None => TimerReport { level: Level::Trace, elapsed_nanos, limit_nanos: None },
        };
        self.done = true;
        Some(report)
    }

    /// Completes the timer now: reads the clock and completes with the time
    /// since the start. A timer already done reports nothing.
    pub fn finish(&mut self) -> (r: Option<TimerReport>)
        ensures
            final(self).done,
            old(self).done ==> r is None,
            !old(self).done ==> r is Some,
            r matches Some(rep) ==> rep == report_for(
                rep.elapsed_nanos,
                old(self).warn_if_longer_than,
            ),
    {
        if self.done {
            return None;
        }
        let elapsed = self.start_time.elapsed();
        let nanos = elapsed.as_nanos();
        self.complete(nanos)
    }

    /// Ends the timer explicitly and gives its report.
    pub fn end(self) -> (r: Option<TimerReport>)
        ensures
            self.done ==> r is None,
            !self.done ==> r is Some,
            r matches Some(rep) ==> rep == report_for(rep.elapsed_nanos, self.warn_if_longer_than),
    {
        let mut t = self;
        t.finish()
    }
}

} // verus!
