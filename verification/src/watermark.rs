//! The watermark: the highest catalog entry identifier already broadcast.
//!
//! The watermark is absent until a baseline is established on the loop's
//! first activation; afterwards it only ever moves forward. Entries are
//! compared against [`current_of`], which reads an absent watermark as `0`,
//! so that every identifier exceeds it.

use vstd::prelude::*;

verus! {

/// The identifier an entry must exceed to count as new: the stored
/// watermark, or `0` while none has been established.
pub open spec fn current_of(w: Option<u32>) -> u32 {
    match w {
        Some(i) => i,
        None => 0u32,
    }
}

/// The watermark after an advance to `candidate`: it moves only strictly
/// forward, so a regressing candidate leaves the stored value untouched.
pub open spec fn advanced(w: Option<u32>, candidate: u32) -> Option<u32> {
    if candidate > current_of(w) {
        Some(candidate)
    } else {
        w
    }
}

/// Single mutable cell holding the highest entry identifier already
/// broadcast, or nothing before the first baseline.
pub struct Watermark {
    id: Option<u32>,
}

impl Watermark {
    /// The stored identifier, absent before a baseline exists.
    pub closed spec fn view(&self) -> Option<u32> {
        self.id
    }

    /// A fresh store with no baseline yet.
    pub fn new() -> (r: Self)
        ensures
            r@ is None,
    {
        Watermark { id: None }
    }

    /// Whether a baseline has been established.
    pub fn is_set(&self) -> (r: bool)
        ensures
            r == (self@ is Some),
    {
        self.id.is_some()
    }

    /// The identifier entries are compared against.
    pub fn current(&self) -> (r: u32)
        ensures
            r == current_of(self@),
    {
        match self.id {
            Some(i) => i,
            None => 0u32,
        }
    }

    /// Establishes the first baseline; a later call changes nothing.
    pub fn baseline(&mut self, id: u32) -> (established: bool)
        ensures
            final(self)@ == (if old(self)@ is None {
                Some(id)
            } else {
                old(self)@
            }),
            established == (old(self)@ is None),
    {
        if self.id.is_none() {
            self.id = Some(id);
            true
        } else {
            false
        }
    }

    /// Moves the watermark forward to `candidate` if that is strictly
    /// greater than the current value; a regression is ignored.
    pub fn advance(&mut self, candidate: u32) -> (changed: bool)
        ensures
            final(self)@ == advanced(old(self)@, candidate),
            changed == (candidate > current_of(old(self)@)),
            current_of(final(self)@) >= current_of(old(self)@),
            current_of(final(self)@) >= candidate,
    {
        if candidate > self.current() {
            self.id = Some(candidate);
            true
        } else {
            false
        }
    }
}

/// Monotonic non-decrease: applying `w1` and `w2` with `w1 <= w2` in either
/// order leaves the watermark at `w2`, provided the starting value does not
/// already exceed `w2`.
pub proof fn lemma_advance_monotone(w: Option<u32>, w1: u32, w2: u32)
    requires
        w1 <= w2,
        current_of(w) <= w2,
    ensures
        current_of(advanced(advanced(w, w1), w2)) == w2,
        current_of(advanced(advanced(w, w2), w1)) == w2,
{
}

/// A regression attempt is silently ignored: an advance never lowers the
/// watermark, whatever the candidate.
pub proof fn lemma_advance_never_regresses(w: Option<u32>, candidate: u32)
    ensures
        current_of(advanced(w, candidate)) >= current_of(w),
{
}

} // verus!
