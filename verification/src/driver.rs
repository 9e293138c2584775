//! The two-state animation driver: while the simulation reports that it
//! continues, each tick requests a repaint; the first tick that reports
//! stop requests the window close, and every tick after that does nothing.

use vstd::prelude::*;

verus! {

/// Whether the animation is still running.
#[derive(Clone, Copy, PartialEq, Eq, Structural, Debug)]
pub enum Phase {
    Running,
    Stopped,
}

/// What the event loop is asked to do after one tick.
#[derive(Clone, Copy, PartialEq, Eq, Structural, Debug)]
pub enum Action {
    /// Request a repaint of the canvas.
    Repaint,
    /// Request the window close; issued on the transition to `Stopped` only.
    Close,
    /// Nothing: the animation is already over.
    Idle,
}

/// The driver's transition function on one continue signal.
pub open spec fn step_spec(phase: Phase, cont: bool) -> (Phase, Action) {
    match phase {
        Phase::Running => if cont {
            (Phase::Running, Action::Repaint)
        } else {
            (Phase::Stopped, Action::Close)
        },
        Phase::Stopped => (Phase::Stopped, Action::Idle),
    }
}

/// Advance the driver by one tick's continue signal.
pub fn step(phase: Phase, cont: bool) -> (r: (Phase, Action))
    ensures
        r == step_spec(phase, cont),
{
    match phase {
        Phase::Running => if cont {
            (Phase::Running, Action::Repaint)
        } else {
            (Phase::Stopped, Action::Close)
        },
        Phase::Stopped => (Phase::Stopped, Action::Idle),
    }
}

/// How often the driver, started in `phase` and fed the continue signals
/// `sigs` in order, emits the action `which`.
pub open spec fn action_count(phase: Phase, sigs: Seq<bool>, which: Action) -> nat
    decreases sigs.len(),
{
    if sigs.len() == 0 {
        0
    } else {
        let next = step_spec(phase, sigs[0]);
        (if next.1 == which {
            1nat
        } else {
            0nat
        }) + action_count(next.0, sigs.subrange(1, sigs.len() as int), which)
    }
}

/// Once stopped, the driver never requests another repaint or close,
/// whatever signals still arrive.
pub proof fn lemma_stopped_is_quiet(sigs: Seq<bool>)
    ensures
        action_count(Phase::Stopped, sigs, Action::Close) == 0,
        action_count(Phase::Stopped, sigs, Action::Repaint) == 0,
    decreases sigs.len(),
{
    if sigs.len() > 0 {
        lemma_stopped_is_quiet(sigs.subrange(1, sigs.len() as int));
    }
}

/// Over any whole run, the window close is requested exactly once if some
/// tick reports stop, and never otherwise.
pub proof fn lemma_close_exactly_once(sigs: Seq<bool>)
    ensures
        action_count(Phase::Running, sigs, Action::Close) == (if (exists|i: int|
            0 <= i < sigs.len() && !sigs[i]) {
            1nat
        } else {
            0nat
        }),
    decreases sigs.len(),
{
    if sigs.len() == 0 {
        if exists|i: int| 0 <= i < sigs.len() && !sigs[i] {
            let i = choose|i: int| 0 <= i < sigs.len() && !sigs[i];
            assert(false);
        }
    } else {
        let rest = sigs.subrange(1, sigs.len() as int);
        if !sigs[0] {
            lemma_stopped_is_quiet(rest);
            assert(0 <= 0 < sigs.len() && !sigs[0]);
        } else {
            lemma_close_exactly_once(rest);
            if exists|i: int| 0 <= i < sigs.len() && !sigs[i] {
                let i = choose|i: int| 0 <= i < sigs.len() && !sigs[i];
                assert(i >= 1);
                assert(rest[i - 1] == sigs[i]);
                assert(exists|j: int| 0 <= j < rest.len() && !rest[j]);
            }
            if exists|j: int| 0 <= j < rest.len() && !rest[j] {
                let j = choose|j: int| 0 <= j < rest.len() && !rest[j];
                assert(sigs[j + 1] == rest[j]);
                assert(exists|i: int| 0 <= i < sigs.len() && !sigs[i]);
            }
        }
    }
}

} // verus!
