//! The bounce budget of a light path: when a path goes on and how it ends.
use vstd::prelude::*;

verus! {

/// What became of a ray on one leg of a light path.
#[derive(Debug, Clone, Copy, PartialEq, Eq, Structural)]
pub enum Leg {
    /// The ray hit a surface, which sent a new ray on.
    Scattered,
    /// The ray hit a surface, which swallowed it.
    Absorbed,
    /// The ray hit nothing and left the scene.
    Escaped,
}

/// What the integrator does once a leg is known.
#[derive(Debug, Clone, Copy, PartialEq, Eq, Structural)]
pub enum Step {
    /// The path goes on along the scattered ray, with `depth` bounces left.
    Follow { depth: i32 },
    /// The path ends and brings no light.
    Black,
    /// The path ends and brings the light of the background.
    Background,
}

/// The number of legs that a path with `depth` bounces left may still look at.
pub open spec fn legs_left(depth: i32) -> nat {
    if depth <= 0 {
        0
    } else {
        depth as nat
    }
}

/// The step that follows a leg when `depth` bounces are left.
pub open spec fn step_spec(depth: i32, leg: Leg) -> Step {
    if depth <= 0 {
        Step::Black
    } else {
        match leg {
            Leg::Scattered => Step::Follow { depth: (depth - 1) as i32 },
            Leg::Absorbed => Step::Black,
            Leg::Escaped => Step::Background,
        }
    }
}

/// How a path with `depth` bounces left ends, when `legs` are what its rays
/// meet one after the other: the number of legs that were looked at, and the
/// last step. A path that runs out of legs has not ended.
pub open spec fn path_end(depth: i32, legs: Seq<Leg>) -> Option<(nat, Step)>
    decreases legs.len(),
{
    if depth <= 0 {
        Some((0, Step::Black))
    } else if legs.len() == 0 {
        None
    } else {
        match step_spec(depth, legs[0]) {
            Step::Follow { depth: rest } => match path_end(rest, legs.skip(1)) {
                Some((seen, last)) => Some((seen + 1, last)),
                None => None,
            },
            last => Some((1, last)),
        }
    }
}

/// Whether the budget is used up, so that the path ends in black before any
/// surface is looked for.
pub fn exhausted(depth: i32) -> (r: bool)
    ensures
        r == (depth <= 0),
        r == (legs_left(depth) == 0),
{
    depth <= 0
}

/// Decides what follows a leg of the path when `depth` bounces are left.
pub fn step(depth: i32, leg: Leg) -> (s: Step)
    ensures
        s == step_spec(depth, leg),
{
    if depth <= 0 {
        return Step::Black;
    }
    match leg {
        Leg::Scattered => Step::Follow { depth: depth - 1 },
        Leg::Absorbed => Step::Black,
        Leg::Escaped => Step::Background,
    }
}

/// With no bounce left the path is black, whatever the ray meets.
pub proof fn lemma_spent_path_is_black(depth: i32, leg: Leg)
    requires
        depth <= 0,
    ensures
        step_spec(depth, leg) == Step::Black,
{
}

/// A path goes on only after a scattering, and each leg that it follows
/// costs one bounce.
pub proof fn lemma_follow_costs_one_bounce(depth: i32, leg: Leg)
    ensures
        (step_spec(depth, leg) matches Step::Follow { depth: rest } ==> leg == Leg::Scattered
            && depth > 0 && legs_left(rest) + 1 == legs_left(depth)),
{
}

/// A path never looks at more legs than it has bounces, and it has ended
/// once that many legs are known.
pub proof fn lemma_path_ends_within_budget(depth: i32, legs: Seq<Leg>)
    ensures
        path_end(depth, legs) matches Some((seen, last)) ==> seen <= legs_left(depth) && seen
            <= legs.len() && !(last matches Step::Follow { .. }),
        legs.len() >= legs_left(depth) ==> path_end(depth, legs) is Some,
    decreases legs.len(),
{
    if depth > 0 && legs.len() > 0 {
        if let Step::Follow { depth: rest } = step_spec(depth, legs[0]) {
            lemma_path_ends_within_budget(rest, legs.skip(1));
        }
    }
}

} // verus!
