use vstd::prelude::*;

verus! {

/// A countdown measured in milliseconds: it is ready once `elapsed` has
/// reached `duration`.
#[derive(Clone, Copy, Debug, PartialEq, Eq, Structural)]
pub struct Timer {
    pub duration: u64,
    pub elapsed: u64,
}

/// The timer after `delta` more milliseconds; elapsed time stops at the duration.
pub open spec fn timer_after(t: Timer, delta: u64) -> Timer {
    if t.elapsed + delta >= t.duration {
        Timer { duration: t.duration, elapsed: t.duration }
    } else {
        Timer { duration: t.duration, elapsed: (t.elapsed + delta) as u64 }
    }
}

impl Timer {
    /// Elapsed time never passes the duration.
    pub open spec fn wf(&self) -> bool {
        self.elapsed <= self.duration
    }

    /// Whether the countdown has run out.
    pub open spec fn is_ready(&self) -> bool {
        self.elapsed >= self.duration
    }

    /// A fresh countdown of `duration` milliseconds.
    pub fn from_millis(duration: u64) -> (t: Timer)
        ensures
            t == (Timer { duration, elapsed: 0 }),
    {
        Timer { duration, elapsed: 0 }
    }

    /// Lets `delta` milliseconds pass.
    pub fn update(&mut self, delta: u64)
        requires
            old(self).wf(),
        ensures
            *final(self) == timer_after(*old(self), delta),
            final(self).wf(),
    {
        if delta >= self.duration - self.elapsed {
            self.elapsed = self.duration;
        } else {
            self.elapsed = self.elapsed + delta;
        }
    }

    /// Whether the countdown has run out.
    pub fn ready(&self) -> (r: bool)
        ensures
            r == self.is_ready(),
    {
        self.elapsed >= self.duration
    }

    /// Starts the same countdown again.
    pub fn reset(&mut self)
        ensures
            *final(self) == (Timer { duration: old(self).duration, elapsed: 0 }),
    {
        self.elapsed = 0;
    }
}

} // verus!
