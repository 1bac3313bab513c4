use vstd::prelude::*;

verus! {

/// Tracks passing time against a repeating interval. Times are in nanoseconds.
#[derive(Clone, Copy, Debug)]
pub struct Timer {
    /// Interval tracked by the timer.
    interval: u128,
    /// Time passed since the last interval was reached.
    passed: u128,
}

impl Timer {
    /// The interval of the timer.
    pub closed spec fn spec_interval(&self) -> nat {
        self.interval as nat
    }

    /// The time passed since the interval was last reached.
    pub closed spec fn spec_passed(&self) -> nat {
        self.passed as nat
    }

    /// Creates a new timer for an interval.
    pub fn new(interval: u128) -> (r: Timer)
        ensures
            r.spec_interval() == interval,
            r.spec_passed() == 0,
    {
        Timer { interval, passed: 0 }
    }

    /// Returns the interval of the timer.
    pub fn interval(&self) -> (r: u128)
        ensures
            r == self.spec_interval(),
    {
        self.interval
    }

    /// Returns the time passed since the interval was last reached.
    pub fn passed(&self) -> (r: u128)
        ensures
            r == self.spec_passed(),
    {
        self.passed
    }

    /// Sets the interval of the timer, keeping the time passed.
    pub fn set_interval(&mut self, interval: u128)
        ensures
            final(self).spec_interval() == interval,
            final(self).spec_passed() == old(self).spec_passed(),
    {
        self.interval = interval;
    }

    /// Forgets the time passed.
    pub fn reset(&mut self)
        ensures
            final(self).spec_interval() == old(self).spec_interval(),
            final(self).spec_passed() == 0,
    {
        self.passed = 0;
    }

    /// Adds the time passed and returns whether the interval has been reached; when it has, one
    /// interval is consumed from the time passed.
    pub fn update(&mut self, delta: u128) -> (fired: bool)
        requires
            old(self).spec_passed() + delta <= u128::MAX,
        ensures
            fired == (old(self).spec_passed() + delta >= old(self).spec_interval()),
            final(self).spec_interval() == old(self).spec_interval(),
            final(self).spec_passed() == old(self).spec_passed() + delta - (if fired {
                old(self).spec_interval()
            } else {
                0
            }),
    {
        self.passed = self.passed + delta;
        if self.passed < self.interval {
            false
        } else {
            self.passed = self.passed - self.interval;
            true
        }
    }

    /// Adds the time passed without checking the interval.
    pub fn update_without_consuming(&mut self, delta: u128)
        requires
            old(self).spec_passed() + delta <= u128::MAX,
        ensures
            final(self).spec_interval() == old(self).spec_interval(),
            final(self).spec_passed() == old(self).spec_passed() + delta,
    {
        self.passed = self.passed + delta;
    }
}

/// An update of a timer whose time passed is below its interval, by at most one interval,
/// leaves the time passed below the interval and loses no time: the time passed afterwards plus
/// the interval consumed (when it fired) is the time passed before plus the time added.
pub proof fn law_timer_conserves_time(t: Timer, delta: nat, fired: bool, t2: Timer)
    requires
        t.spec_passed() < t.spec_interval(),
        delta <= t.spec_interval(),
        fired == (t.spec_passed() + delta >= t.spec_interval()),
        t2.spec_interval() == t.spec_interval(),
        t2.spec_passed() == t.spec_passed() + delta - (if fired { t.spec_interval() } else { 0 }),
    ensures
        t2.spec_passed() < t2.spec_interval(),
        t2.spec_passed() + (if fired { t.spec_interval() } else { 0 }) == t.spec_passed() + delta,
{
}

} // verus!
