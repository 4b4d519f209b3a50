//! The per-document diff state: the base text a document is compared
//! against, the hunks of the last completed comparison, and a generation
//! counter that lets slow recomputations be recognized as stale.

use vstd::prelude::*;

verus! {

/// A contiguous span of changed lines between the diff base and the
/// current text: lines `before_start..before_end` of the base correspond
/// to lines `after_start..after_end` of the current text.
#[derive(Clone, Copy, PartialEq, Eq, Structural, Debug)]
pub struct Hunk {
    pub before_start: usize,
    pub before_end: usize,
    pub after_start: usize,
    pub after_end: usize,
}

/// Mathematical model of a [`DiffHandle`].
#[verifier::ext_equal]
pub ghost struct DiffHandleModel {
    pub diff_base: Seq<char>,
    pub hunks: Seq<Hunk>,
    pub generation: int,
}

/// The state after storing `base` as the new diff base: the generation
/// advances, the old hunks stay in place until a recomputation for the
/// new base completes.
pub open spec fn set_base_spec(h: DiffHandleModel, base: Seq<char>) -> DiffHandleModel {
    DiffHandleModel { diff_base: base, hunks: h.hunks, generation: h.generation + 1 }
}

/// The state after the diff state is reverted to an empty baseline: the
/// generation advances past every outstanding recomputation request, so
/// hunks computed against the abandoned base can never be installed over
/// the reset.
pub open spec fn reset_spec(h: DiffHandleModel) -> DiffHandleModel {
    DiffHandleModel {
        diff_base: Seq::<char>::empty(),
        hunks: Seq::<Hunk>::empty(),
        generation: h.generation + 1,
    }
}

/// Whether a recomputation begun at generation `generation` may still be
/// applied to `h`: only if no newer base has been stored since.
pub open spec fn recompute_applies_spec(h: DiffHandleModel, generation: int) -> bool {
    generation == h.generation
}

/// The state after a recomputation for generation `generation` delivers
/// `hunks`: installed if the generation is still current, discarded
/// otherwise (stale-write rejection).
pub open spec fn apply_recompute_spec(
    h: DiffHandleModel,
    generation: int,
    hunks: Seq<Hunk>,
) -> DiffHandleModel {
    if recompute_applies_spec(h, generation) {
        DiffHandleModel { diff_base: h.diff_base, hunks, generation: h.generation }
    } else {
        h
    }
}

/// Holds the current diff base and the most recently computed hunks for
/// one document. The base and the hunks are replaced as a unit relative
/// to the generation counter: hunks computed against an older base are
/// never installed over a newer one.
pub struct DiffHandle {
    diff_base: String,
    hunks: Vec<Hunk>,
    generation: u64,
}

impl View for DiffHandle {
    type V = DiffHandleModel;

    closed spec fn view(&self) -> DiffHandleModel {
        DiffHandleModel {
            diff_base: self.diff_base@,
            hunks: self.hunks@,
            generation: self.generation as int,
        }
    }
}

impl DiffHandle {
    /// A fresh handle: empty base, no hunks, generation zero.
    pub fn new() -> (h: DiffHandle)
        ensures
            h@.diff_base == Seq::<char>::empty(),
            h@.hunks == Seq::<Hunk>::empty(),
            h@.generation == 0,
    {
        DiffHandle { diff_base: String::new(), hunks: Vec::new(), generation: 0 }
    }

    /// A consistent snapshot of the current base and hunks.
    pub fn load(&self) -> (r: (&String, &Vec<Hunk>))
        ensures
            r.0@ == self@.diff_base,
            r.1@ == self@.hunks,
    {
        (&self.diff_base, &self.hunks)
    }

    /// The text the owning document is currently diffed against.
    pub fn diff_base(&self) -> (r: &String)
        ensures
            r@ == self@.diff_base,
    {
        &self.diff_base
    }

    /// The hunks of the last completed recomputation.
    pub fn hunks(&self) -> (r: &Vec<Hunk>)
        ensures
            r@ == self@.hunks,
    {
        &self.hunks
    }

    /// The current generation of the stored base.
    pub fn generation(&self) -> (g: u64)
        ensures
            g as int == self@.generation,
    {
        self.generation
    }

    /// Stores `new_base` immediately, so concurrent loads see the fresh
    /// base even before hunks catch up, and returns the generation that a
    /// recomputation against this base must present to be applied.
    pub fn set_base(&mut self, new_base: String) -> (g: u64)
        requires
            old(self)@.generation < u64::MAX,
        ensures
            final(self)@ == set_base_spec(old(self)@, new_base@),
            g as int == final(self)@.generation,
    {
        self.diff_base = new_base;
        self.generation = self.generation + 1;
        self.generation
    }

    /// Reverts the handle to an empty baseline: no base, no hunks, and a
    /// fresh generation so that any recomputation still in flight for the
    /// abandoned base is discarded on arrival.
    pub fn reset(&mut self)
        requires
            old(self)@.generation < u64::MAX,
        ensures
            final(self)@ == reset_spec(old(self)@),
    {
        self.diff_base = String::new();
        self.hunks = Vec::new();
        self.generation = self.generation + 1;
    }

    /// Delivers the result of a recomputation begun at `generation`.
    /// The hunks are installed only if that base is still the stored one;
    /// a result for an outdated base is discarded and the handle is left
    /// unchanged, so the visible pair always reflects the newest base.
    pub fn apply_recompute(&mut self, generation: u64, hunks: Vec<Hunk>) -> (applied: bool)
        ensures
            applied == recompute_applies_spec(old(self)@, generation as int),
            final(self)@ == apply_recompute_spec(old(self)@, generation as int, hunks@),
    {
        if generation == self.generation {
            self.hunks = hunks;
            true
        } else {
            false
        }
    }
}

} // verus!
