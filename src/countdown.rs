use vstd::prelude::*;

verus! {

/// A one-shot countdown measured in nanoseconds: it runs until `elapsed`
/// reaches `duration` and then stays finished.
#[derive(Clone, Copy, Debug, PartialEq, Eq, Structural)]
pub struct Countdown {
    pub elapsed: u64,
    pub duration: u64,
}

impl Countdown {
    /// The elapsed time never passes the duration.
    pub open spec fn wf(self) -> bool {
        self.elapsed <= self.duration
    }

    pub open spec fn is_finished(self) -> bool {
        self.elapsed >= self.duration
    }

    /// The countdown after `delta` more nanoseconds: elapsed time grows by
    /// `delta` and stops at the duration.
    pub open spec fn ticked(self, delta: nat) -> Countdown {
        Countdown {
            elapsed: if self.elapsed + delta >= self.duration {
                self.duration
            } else {
                (self.elapsed + delta) as u64
            },
            duration: self.duration,
        }
    }

    /// A countdown that has just started.
    pub fn once(duration: u64) -> (r: Countdown)
        ensures
            r.elapsed == 0,
            r.duration == duration,
            r.wf(),
    {
        Countdown { elapsed: 0, duration }
    }

    /// Advances the countdown by `delta` nanoseconds.
    pub fn tick(&mut self, delta: u64)
        requires
            old(self).wf(),
        ensures
            *final(self) == old(self).ticked(delta as nat),
            final(self).wf(),
    {
        if delta >= self.duration - self.elapsed {
            self.elapsed = self.duration;
        } else {
            self.elapsed = self.elapsed + delta;
        }
    }

    /// Whether the countdown has run its full duration.
    pub fn finished(&self) -> (r: bool)
        ensures
            r == self.is_finished(),
    {
        self.elapsed >= self.duration
    }
}

} // verus!
