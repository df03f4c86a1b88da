//! The phases of a run and the order in which they follow one another.

use vstd::prelude::*;

verus! {

/// One stage of the pipeline. It also serves as the key under which a result
/// is kept.
#[derive(Clone, Copy, Debug, PartialEq, Eq, Structural)]
pub enum Phase {
    Mapped,
    Sorted,
    Reduced,
    Idle,
}

impl Phase {
    /// Position of the phase in the order `Idle`, `Mapped`, `Sorted`, `Reduced`.
    pub open spec fn rank(self) -> nat {
        match self {
            Phase::Idle => 0,
            Phase::Mapped => 1,
            Phase::Sorted => 2,
            Phase::Reduced => 3,
        }
    }

    /// The phase that follows `self`. `Reduced` is followed by itself.
    pub open spec fn next(self) -> Phase {
        match self {
            Phase::Idle => Phase::Mapped,
            Phase::Mapped => Phase::Sorted,
            Phase::Sorted => Phase::Reduced,
            Phase::Reduced => Phase::Reduced,
        }
    }

    /// The phase reached from `Idle` by `count` advances.
    pub open spec fn after(count: nat) -> Phase
        decreases count,
    {
        if count == 0 {
            Phase::Idle
        } else {
            Phase::after((count - 1) as nat).next()
        }
    }

    /// The single transition of the phase state machine.
    pub fn advance(self) -> (r: Phase)
        ensures
            r == self.next(),
    {
        match self {
            Phase::Idle => Phase::Mapped,
            Phase::Mapped => Phase::Sorted,
            _ => Phase::Reduced,
        }
    }
}

/// An advance never leads back: the phase that follows is the same or a later
/// one.
pub proof fn lemma_next_never_regresses(phase: Phase)
    ensures
        phase.next().rank() >= phase.rank(),
        phase.next() != Phase::Idle,
{
}

/// The first advance from `Idle` reaches `Mapped`, the second `Sorted`, the
/// third and every later one `Reduced`.
pub proof fn lemma_after(count: nat)
    ensures
        count == 0 ==> Phase::after(count) == Phase::Idle,
        count == 1 ==> Phase::after(count) == Phase::Mapped,
        count == 2 ==> Phase::after(count) == Phase::Sorted,
        count >= 3 ==> Phase::after(count) == Phase::Reduced,
    decreases count,
{
    if count > 0 {
        lemma_after((count - 1) as nat);
    }
}

/// More advances never reach an earlier phase.
pub proof fn lemma_after_is_monotonic(fewer: nat, more: nat)
    requires
        fewer <= more,
    ensures
        Phase::after(fewer).rank() <= Phase::after(more).rank(),
{
    lemma_after(fewer);
    lemma_after(more);
}

} // verus!
