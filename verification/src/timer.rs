//! Named countdown timers for the match: a fixed set of keys, each holding a
//! number of remaining frames. `tick` decrements every nonzero value by one,
//! so values never underflow and a timer that reached zero stays at zero.

use vstd::prelude::*;

verus! {

/// The named countdowns a match keeps: the match clock and one cooldown per
/// timed ability.
#[derive(Clone, Copy, PartialEq, Eq, Structural, Debug)]
pub enum GameTimer {
    Time,
    TailsProjectile,
    EggmanTracker,
    CreamRing,
    ExetiorRing,
}

impl GameTimer {
    pub open spec fn spec_index(self) -> int {
        match self {
            GameTimer::Time => 0,
            GameTimer::TailsProjectile => 1,
            GameTimer::EggmanTracker => 2,
            GameTimer::CreamRing => 3,
            GameTimer::ExetiorRing => 4,
        }
    }

    fn index(self) -> (r: usize)
        ensures
            r == self.spec_index(),
    {
        match self {
            GameTimer::Time => 0,
            GameTimer::TailsProjectile => 1,
            GameTimer::EggmanTracker => 2,
            GameTimer::CreamRing => 3,
            GameTimer::ExetiorRing => 4,
        }
    }
}

/// A keyed countdown set over the fixed keys of [`GameTimer`].
pub struct Timer {
    frames: Vec<u16>,
}

impl Timer {
    /// Storage holds exactly one slot per key.
    pub closed spec fn wf(&self) -> bool {
        self.frames@.len() == 5
    }

    /// The number of frames remaining on the countdown for `key`.
    pub closed spec fn spec_get(&self, key: GameTimer) -> u16 {
        self.frames@[key.spec_index()]
    }

    /// A fresh timer set: well formed, every countdown at zero.
    pub fn new() -> (r: Timer)
        ensures
            r.wf(),
            forall|k: GameTimer| r.spec_get(k) == 0u16,
    {
        let mut frames: Vec<u16> = Vec::new();
        frames.push(0);
        frames.push(0);
        frames.push(0);
        frames.push(0);
        frames.push(0);
        let r = Timer { frames };
        assert forall|k: GameTimer| r.spec_get(k) == 0u16 by {
            assert(0 <= k.spec_index() < 5);
        }
        r
    }

    /// Advance one frame: every nonzero countdown drops by exactly one and a
    /// countdown at zero stays at zero, so no value ever underflows.
    pub fn tick(&mut self)
        requires
            old(self).wf(),
        ensures
            final(self).wf(),
            forall|k: GameTimer|
                final(self).spec_get(k) == if old(self).spec_get(k) == 0u16 {
                    0u16
                } else {
                    (old(self).spec_get(k) - 1) as u16
                },
    {
        let mut i: usize = 0;
        while i < self.frames.len()
            invariant
                self.wf(),
                i <= 5,
                forall|j: int|
                    0 <= j < i ==> self.frames@[j] == if old(self).frames@[j] == 0u16 {
                        0u16
                    } else {
                        (old(self).frames@[j] - 1) as u16
                    },
                forall|j: int| i <= j < 5 ==> self.frames@[j] == old(self).frames@[j],
            decreases 5 - i,
        {
            let v = self.frames[i];
            if v > 0 {
                self.frames.set(i, v - 1);
            }
            i = i + 1;
        }
        assert forall|k: GameTimer|
            final(self).spec_get(k) == if old(self).spec_get(k) == 0u16 {
                0u16
            } else {
                (old(self).spec_get(k) - 1) as u16
            } by {
            assert(0 <= k.spec_index() < 5);
        }
    }

    /// Read the countdown for `key`.
    pub fn get(&self, key: GameTimer) -> (r: u16)
        requires
            self.wf(),
        ensures
            r == self.spec_get(key),
    {
        self.frames[key.index()]
    }

    /// Overwrite the countdown for `key`, leaving every other key unchanged.
    pub fn set(&mut self, key: GameTimer, value: u16)
        requires
            old(self).wf(),
        ensures
            final(self).wf(),
            final(self).spec_get(key) == value,
            forall|k: GameTimer| k != key ==> final(self).spec_get(k) == old(self).spec_get(k),
    {
        let i = key.index();
        self.frames.set(i, value);
        assert forall|k: GameTimer| k != key implies final(self).spec_get(k) == old(
            self,
        ).spec_get(k) by {
            assert(k.spec_index() != key.spec_index());
        }
    }
}

} // verus!
