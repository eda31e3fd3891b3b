//! The injectable randomness capability.
//!
//! Every draw the search makes comes through a [`RandomSource`]: index draws
//! for the move operator, coordinate draws for city placement, and the
//! Boltzmann acceptance draw. A seeded or scripted source makes whole runs
//! reproducible; [`FixedSource`] is such a source, with fully verified
//! behaviour.

use vstd::prelude::*;

verus! {

use crate::COORD_LIMIT;

/// A source of random draws. Implementations decide the distribution; the
/// contracts pin only what every outcome must satisfy, so all client logic is
/// verified for every possible draw.
pub trait RandomSource {
    /// A draw from `[0, bound)`, uniform for a fair source.
    fn index_below(&mut self, bound: usize) -> (r: usize)
        requires
            bound >= 1,
        ensures
            r < bound,
    ;

    /// A coordinate draw from `[lo, hi]`, uniform for a fair source.
    fn coordinate_in(&mut self, lo: u64, hi: u64) -> (r: u64)
        requires
            1 <= lo <= hi <= COORD_LIMIT,
        ensures
            lo <= r <= hi,
    ;

    /// The Boltzmann acceptance draw for a proposal whose cost exceeds the
    /// current one by `delta`: draw `u` uniformly from `[0, 1)` and answer
    /// whether `u < exp(-delta / temperature)`. With `delta == 0` that
    /// threshold is `exp(0) == 1`, so every draw accepts, and the contract
    /// says so; for `delta > 0` the outcome is the draw's to decide.
    fn boltzmann_accepts(&mut self, delta: u64, temperature: u64) -> (r: bool)
        requires
            temperature >= 1,
        ensures
            delta == 0 ==> r,
    ;
}

/// A scripted randomness source: it replays a fixed cycle of draws, so two
/// runs fed from equal scripts make identical decisions. Its whole behaviour
/// is pinned by the contracts below.
pub struct FixedSource {
    draws: Vec<u64>,
    pos: usize,
}

impl FixedSource {
    pub closed spec fn spec_draws(&self) -> Seq<u64> {
        self.draws@
    }

    pub closed spec fn spec_pos(&self) -> int {
        self.pos as int
    }

    /// The value the next draw returns.
    pub open spec fn spec_next(&self) -> u64 {
        if self.spec_draws().len() == 0 {
            0
        } else if self.spec_pos() < self.spec_draws().len() {
            self.spec_draws()[self.spec_pos()]
        } else {
            self.spec_draws()[0]
        }
    }

    /// The cursor position after one draw.
    pub open spec fn spec_pos_after(&self) -> int {
        if self.spec_draws().len() == 0 {
            self.spec_pos()
        } else {
            let p = if self.spec_pos() < self.spec_draws().len() {
                self.spec_pos()
            } else {
                0
            };
            if p + 1 < self.spec_draws().len() {
                p + 1
            } else {
                0
            }
        }
    }

    /// A source that replays `draws` in a cycle; `None` when the script is
    /// empty.
    pub fn new(draws: Vec<u64>) -> (r: Option<FixedSource>)
        ensures
            match r {
                Some(f) => draws@.len() >= 1 && f.spec_draws() == draws@ && f.spec_pos() == 0,
                None => draws@.len() == 0,
            },
    {
        if draws.len() == 0 {
            None
        } else {
            Some(FixedSource { draws, pos: 0 })
        }
    }

    fn take(&mut self) -> (r: u64)
        ensures
            r == old(self).spec_next(),
            final(self).spec_draws() == old(self).spec_draws(),
            final(self).spec_pos() == old(self).spec_pos_after(),
    {
        if self.draws.len() == 0 {
            return 0;
        }
        let p = if self.pos < self.draws.len() {
            self.pos
        } else {
            0
        };
        let d = self.draws[p];
        self.pos = if p + 1 < self.draws.len() {
            p + 1
        } else {
            0
        };
        d
    }
}

impl RandomSource for FixedSource {
    /// The next scripted draw, reduced modulo `bound`.
    fn index_below(&mut self, bound: usize) -> (r: usize)
        ensures
            r as int == old(self).spec_next() as int % bound as int,
            final(self).spec_draws() == old(self).spec_draws(),
            final(self).spec_pos() == old(self).spec_pos_after(),
    {
        let d = self.take();
        let m = d % (bound as u64);
        assert(m < bound as u64);
        m as usize
    }

    /// The next scripted draw, mapped onto `[lo, hi]` by its remainder.
    fn coordinate_in(&mut self, lo: u64, hi: u64) -> (r: u64)
        ensures
            r as int == lo + old(self).spec_next() as int % (hi - lo + 1),
            final(self).spec_draws() == old(self).spec_draws(),
            final(self).spec_pos() == old(self).spec_pos_after(),
    {
        let d = self.take();
        let span = hi - lo + 1;
        lo + d % span
    }

    /// A strictly worsening proposal is accepted exactly when the next
    /// scripted draw is odd; a zero-delta proposal is always accepted, as the
    /// trait demands. One draw is consumed either way.
    fn boltzmann_accepts(&mut self, delta: u64, temperature: u64) -> (r: bool)
        ensures
            r == (delta == 0 || old(self).spec_next() % 2 == 1),
            final(self).spec_draws() == old(self).spec_draws(),
            final(self).spec_pos() == old(self).spec_pos_after(),
    {
        let d = self.take();
        if delta == 0 {
            true
        } else {
            d % 2 == 1
        }
    }
}

} // verus!
