use vstd::prelude::*;

verus! {

/// The wait after the first failed receive, in milliseconds.
pub const INITIAL_DELAY_MS: u64 = 500;

/// The longest wait between two receive attempts, in milliseconds.
pub const MAX_DELAY_MS: u64 = 60000;

/// The wait that follows `delay` when the next attempt fails too: twice as
/// long, up to the ceiling.
pub open spec fn next_delay(delay: u64) -> u64 {
    if 2 * delay > MAX_DELAY_MS {
        MAX_DELAY_MS
    } else {
        (2 * delay) as u64
    }
}

/// How long the poller waits before it receives again after a transport
/// failure. Failures never end the poller; they only lengthen the wait.
pub struct Backoff {
    delay_ms: u64,
}

impl Backoff {
    pub closed spec fn delay(&self) -> u64 {
        self.delay_ms
    }

    pub open spec fn wf(&self) -> bool {
        INITIAL_DELAY_MS <= self.delay() <= MAX_DELAY_MS
    }

    pub fn new() -> (r: Backoff)
        ensures
            r.wf(),
            r.delay() == INITIAL_DELAY_MS,
    {
        Backoff { delay_ms: INITIAL_DELAY_MS }
    }

    /// The wait that the next failure would call for.
    pub fn current_ms(&self) -> (r: u64)
        ensures
            r == self.delay(),
    {
        self.delay_ms
    }

    /// Records a failed receive and returns how long to wait before the next
    /// attempt.
    pub fn on_failure(&mut self) -> (r: u64)
        requires
            old(self).wf(),
        ensures
            r == old(self).delay(),
            final(self).delay() == next_delay(old(self).delay()),
            final(self).wf(),
    {
        let d = self.delay_ms;
        if d > MAX_DELAY_MS / 2 {
            self.delay_ms = MAX_DELAY_MS;
        } else {
            self.delay_ms = 2 * d;
        }
        d
    }

    /// Records a successful receive: the next failure waits the initial delay.
    pub fn on_success(&mut self)
        ensures
            final(self).delay() == INITIAL_DELAY_MS,
            final(self).wf(),
    {
        self.delay_ms = INITIAL_DELAY_MS;
    }
}

} // verus!
