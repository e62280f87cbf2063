//! A stopwatch for one exercise.

use crate::text::{append_two_digits, two_digits};
use std::time::{Duration, Instant};
use vstd::prelude::*;
use vstd::string::*;

verus! {

/// A point in time as the monotonic clock gives it. Nothing is known of what
/// it holds.
#[verifier::external_type_specification]
#[verifier::external_body]
pub struct ExInstant(Instant);

/// The nanoseconds in a second.
pub const SECOND: u128 = 1_000_000_000;

/// The longest time that can be measured, in nanoseconds: as many whole
/// seconds as a `u64` holds, and a nanosecond less than one second more.
pub const LONGEST: u128 = 18_446_744_073_709_551_615_999_999_999;

/// `std::time::Instant::now`: the present moment. The contract claims
/// nothing of it.
#[verifier::external_body]
fn now() -> Instant {
    Instant::now()
}

/// `std::time::Instant::elapsed`: the time gone by since `start`. The
/// contract claims nothing of it, so two calls may differ in any way.
#[verifier::external_body]
fn since(start: &Instant) -> Duration {
    start.elapsed()
}

/// `std::time::Duration::as_nanos`: `span` in nanoseconds. The contract
/// claims that they are no more than a `Duration` can hold, which has a `u64`
/// of whole seconds and less than a second beside them; it does not say how
/// the number follows from `span`, of which nothing is known here.
#[verifier::external_body]
fn nanos_of(span: Duration) -> (r: u128)
    ensures
        r <= LONGEST,
{
    span.as_nanos()
}

/// The whole seconds in `nanos` nanoseconds.
pub open spec fn seconds(nanos: nat) -> nat {
    nanos / (SECOND as nat)
}

/// The time `secs` as a clock shows it: minutes, a colon, and the seconds
/// of the last minute, each with two digits at least.
pub open spec fn clock(secs: nat) -> Seq<char> {
    two_digits(secs / 60) + seq![':'] + two_digits(secs % 60)
}

/// A stopwatch. It is idle, running or stopped; it measures from the start
/// that set it running to the stop that followed, and keeps that time until
/// it is started again.
pub struct StopWatch {
    start: Option<Instant>,
    total: u128,
    is_active: bool,
}

/// `text` is what `watch` may show: the time kept where it does not run, and
/// the time of some run where it does.
pub open spec fn shows(watch: StopWatch, text: Seq<char>) -> bool {
    if watch.running() {
        exists|run: nat| run <= LONGEST && text == #[trigger] clock(seconds(run))
    } else {
        text == clock(seconds(watch.kept()))
    }
}

impl StopWatch {
    #[verifier::type_invariant]
    spec fn well_formed(self) -> bool {
        &&& self.is_active <==> self.start is Some
        &&& self.is_active ==> self.total == 0
        &&& self.total <= LONGEST
    }

    /// Whether the stopwatch is running.
    pub closed spec fn running(self) -> bool {
        self.is_active
    }

    /// The time kept, in nanoseconds: that of the last run that was stopped,
    /// and 0 while the stopwatch runs.
    pub closed spec fn kept(self) -> nat {
        self.total as nat
    }

    /// The moment from which the stopwatch runs, if it runs.
    pub closed spec fn started(self) -> Option<Instant> {
        self.start
    }

    /// An idle stopwatch, which keeps no time.
    pub fn new() -> (r: Self)
        ensures
            !r.running(),
            r.started() is None,
            r.kept() == 0,
    {
        Self { start: None, total: 0, is_active: false }
    }

    /// Whether the stopwatch is running.
    pub fn is_active(&self) -> (r: bool)
        ensures
            r == self.running(),
    {
        self.is_active
    }

    /// Sets the stopwatch running from `from`, and forgets the time kept. A
    /// running stopwatch is left as it is.
    pub fn start_at(&mut self, from: Instant)
        ensures
            final(self).running(),
            old(self).running() ==> *final(self) == *old(self),
            !old(self).running() ==> final(self).started() == Some(from),
            final(self).kept() == 0,
    {
        proof {
            use_type_invariant(&*self);
        }
        if !self.is_active {
            *self = Self { start: Some(from), total: 0, is_active: true };
        }
    }

    /// Sets the stopwatch running from now, and forgets the time kept. A
    /// running stopwatch is left as it is.
    pub fn start(&mut self)
        ensures
            final(self).running(),
            final(self).started() is Some,
            old(self).running() ==> *final(self) == *old(self),
            final(self).kept() == 0,
    {
        proof {
            use_type_invariant(&*self);
        }
        if !self.is_active {
            self.start_at(now());
        }
    }

    /// Stops the stopwatch after a run of `run` nanoseconds, which it then
    /// keeps. A stopwatch that does not run is left as it is.
    pub fn stop_after(&mut self, run: u128)
        requires
            run <= LONGEST,
        ensures
            !final(self).running(),
            final(self).started() is None,
            old(self).running() ==> final(self).kept() == run,
            !old(self).running() ==> *final(self) == *old(self),
    {
        proof {
            use_type_invariant(&*self);
        }
        if self.is_active {
            *self = Self { start: None, total: self.total + run, is_active: false };
        }
    }

    /// Stops the stopwatch, which then keeps the time since its start. A
    /// stopwatch that does not run is left as it is.
    pub fn stop(&mut self)
        ensures
            !final(self).running(),
            final(self).started() is None,
            final(self).kept() <= LONGEST,
            !old(self).running() ==> *final(self) == *old(self),
    {
        proof {
            use_type_invariant(&*self);
        }
        if let Some(from) = self.start {
            let run = nanos_of(since(&from));
            self.stop_after(run);
        }
        proof {
            use_type_invariant(&*self);
        }
    }

    /// What the stopwatch shows when its present run, if it runs, has lasted
    /// `run` nanoseconds: the time kept and the run together, in whole
    /// seconds, as a clock shows them.
    pub fn elapsed_after(&self, run: u128) -> (r: String)
        requires
            run <= LONGEST,
        ensures
            self.running() ==> r@ == clock(seconds((self.kept() + run) as nat)),
            !self.running() ==> r@ == clock(seconds(self.kept())),
    {
        proof {
            use_type_invariant(self);
        }
        let nanos: u128 = if self.is_active {
            self.total + run
        } else {
            self.total
        };
        let secs: u64 = (nanos / SECOND) as u64;
        let mut out = String::new();
        append_two_digits(&mut out, secs / 60);
        out.append(":");
        append_two_digits(&mut out, secs % 60);
        proof {
            reveal_strlit(":");
        }
        out
    }

    /// What the stopwatch shows: the time since its start while it runs,
    /// else the time kept, in whole seconds as a clock shows them.
    pub fn elapsed(&self) -> (r: String)
        ensures
            shows(*self, r@),
    {
        proof {
            use_type_invariant(self);
        }
        match self.start {
            Some(from) => {
                let run = nanos_of(since(&from));
                let text = self.elapsed_after(run);
                text
            },
            None => self.elapsed_after(0),
        }
    }

    /// The time kept, in whole seconds.
    pub fn total(&self) -> (r: u64)
        ensures
            r == seconds(self.kept()),
    {
        proof {
            use_type_invariant(self);
        }
        (self.total / SECOND) as u64
    }

    /// Makes the stopwatch idle. The time kept stays.
    pub fn reset(&mut self)
        ensures
            !final(self).running(),
            final(self).started() is None,
            final(self).kept() == old(self).kept(),
    {
        proof {
            use_type_invariant(&*self);
        }
        *self = Self { start: None, total: self.total, is_active: false };
    }
}

} // verus!
