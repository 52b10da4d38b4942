//! The phases that an animated visibility widget walks through when it is
//! shown or hidden, and the rules that move it between them.
use vstd::prelude::*;

verus! {

/// The phase of an animated visibility widget.
///
/// Showing a widget walks `Hidden -> SpatialChange -> Transition -> Showing`;
/// hiding it walks the same chain backwards.
#[derive(Clone, Copy, Debug, PartialEq, Eq, Structural)]
pub enum VisibilityPhase {
    Hidden,
    SpatialChange,
    Transition,
    Showing,
}

impl Default for VisibilityPhase {
    fn default() -> (r: Self)
        ensures
            r == VisibilityPhase::Hidden,
    {
        VisibilityPhase::Hidden
    }
}

/// Position of a phase on the chain from `Hidden` (0) to `Showing` (3).
pub open spec fn phase_rank(p: VisibilityPhase) -> int {
    match p {
        VisibilityPhase::Hidden => 0,
        VisibilityPhase::SpatialChange => 1,
        VisibilityPhase::Transition => 2,
        VisibilityPhase::Showing => 3,
    }
}

/// The phase at which a widget of the given visibility comes to rest.
pub open spec fn target_phase(visibility: bool) -> VisibilityPhase {
    if visibility {
        VisibilityPhase::Showing
    } else {
        VisibilityPhase::Hidden
    }
}

/// The phase a widget is put back to before it starts moving towards
/// `visibility`: an interrupted intermediate phase restarts from the end of
/// the chain opposite to the target.
pub open spec fn fixed_phase(p: VisibilityPhase, visibility: bool) -> VisibilityPhase {
    match p {
        VisibilityPhase::SpatialChange | VisibilityPhase::Transition => if visibility {
            VisibilityPhase::Hidden
        } else {
            VisibilityPhase::Showing
        },
        _ => p,
    }
}

/// One step along the chain towards the target phase of `visibility`.
pub open spec fn stepped_phase(p: VisibilityPhase, visibility: bool) -> VisibilityPhase {
    match (visibility, p) {
        (true, VisibilityPhase::Hidden) => VisibilityPhase::SpatialChange,
        (true, VisibilityPhase::SpatialChange) => VisibilityPhase::Transition,
        (true, VisibilityPhase::Transition) => VisibilityPhase::Showing,
        (true, VisibilityPhase::Showing) => VisibilityPhase::Showing,
        (false, VisibilityPhase::Hidden) => VisibilityPhase::Hidden,
        (false, VisibilityPhase::SpatialChange) => VisibilityPhase::Hidden,
        (false, VisibilityPhase::Transition) => VisibilityPhase::SpatialChange,
        (false, VisibilityPhase::Showing) => VisibilityPhase::Transition,
    }
}

/// `n` steps towards the target phase of `visibility`.
pub open spec fn stepped_phase_n(p: VisibilityPhase, visibility: bool, n: nat) -> VisibilityPhase
    decreases n,
{
    if n == 0 {
        p
    } else {
        stepped_phase_n(stepped_phase(p, visibility), visibility, (n - 1) as nat)
    }
}

impl VisibilityPhase {
    /// Puts an interrupted intermediate phase back to the end of the chain
    /// opposite to the target of `visibility`; `Hidden` and `Showing` stay.
    pub fn fix_with_visibility(&mut self, visibility: bool)
        ensures
            *final(self) == fixed_phase(*old(self), visibility),
    {
        *self = match (visibility, *self) {
            (true, VisibilityPhase::SpatialChange) => VisibilityPhase::Hidden,
            (true, VisibilityPhase::Transition) => VisibilityPhase::Hidden,
            (false, VisibilityPhase::SpatialChange) => VisibilityPhase::Showing,
            (false, VisibilityPhase::Transition) => VisibilityPhase::Showing,
            (_, VisibilityPhase::Hidden) | (_, VisibilityPhase::Showing) => return ,
        }
    }

    /// Moves one phase along the chain towards the target of `visibility`.
    pub fn next_phase(&mut self, visibility: bool)
        ensures
            *final(self) == stepped_phase(*old(self), visibility),
    {
        *self = match (visibility, *self) {
            (true, VisibilityPhase::Hidden) => VisibilityPhase::SpatialChange,
            (true, VisibilityPhase::SpatialChange) => VisibilityPhase::Transition,
            (true, VisibilityPhase::Transition) => VisibilityPhase::Showing,
            (true, VisibilityPhase::Showing) => VisibilityPhase::Showing,
            (false, VisibilityPhase::Hidden) => VisibilityPhase::Hidden,
            (false, VisibilityPhase::SpatialChange) => VisibilityPhase::Hidden,
            (false, VisibilityPhase::Transition) => VisibilityPhase::SpatialChange,
            (false, VisibilityPhase::Showing) => VisibilityPhase::Transition,
        }
    }

    /// Whether the phase is the resting phase of `visibility`.
    pub fn is_fully_finished(&self, visibility: bool) -> (r: bool)
        ensures
            r == (*self == target_phase(visibility)),
    {
        match (visibility, *self) {
            (true, VisibilityPhase::Showing) | (false, VisibilityPhase::Hidden) => true,
            _ => false,
        }
    }
}

/// Showing rests at `Showing` and hiding at `Hidden`; the chain ranks
/// `Hidden` first and `Showing` last, the spatial change before the
/// transition.
pub proof fn law_target_and_rank(visibility: bool)
    ensures
        target_phase(visibility) == (if visibility {
            VisibilityPhase::Showing
        } else {
            VisibilityPhase::Hidden
        }),
        phase_rank(VisibilityPhase::Hidden) == 0,
        phase_rank(VisibilityPhase::SpatialChange) == 1,
        phase_rank(VisibilityPhase::Transition) == 2,
        phase_rank(VisibilityPhase::Showing) == 3,
{
}

/// Fixing keeps a resting phase, and puts an intermediate phase back to the
/// end of the chain opposite to the target: `Hidden` when showing,
/// `Showing` when hiding.
pub proof fn law_fix_restarts_from_opposite_end(p: VisibilityPhase, visibility: bool)
    ensures
        p == VisibilityPhase::Hidden || p == VisibilityPhase::Showing ==> fixed_phase(p, visibility)
            == p,
        p == VisibilityPhase::SpatialChange || p == VisibilityPhase::Transition ==> fixed_phase(
            p,
            visibility,
        ) == (if visibility {
            VisibilityPhase::Hidden
        } else {
            VisibilityPhase::Showing
        }),
{
}

/// A fixed phase is always a resting phase, `Hidden` or `Showing`.
pub proof fn law_fix_rests(p: VisibilityPhase, visibility: bool)
    ensures
        fixed_phase(p, visibility) == VisibilityPhase::Hidden || fixed_phase(p, visibility)
            == VisibilityPhase::Showing,
{
}

/// A step moves the rank by exactly one towards the target of
/// `visibility`, and leaves the target itself in place.
pub proof fn law_step_moves_towards_target(p: VisibilityPhase, visibility: bool)
    ensures
        p == target_phase(visibility) ==> stepped_phase(p, visibility) == p,
        p != target_phase(visibility) && visibility ==> phase_rank(stepped_phase(p, visibility))
            == phase_rank(p) + 1,
        p != target_phase(visibility) && !visibility ==> phase_rank(stepped_phase(p, visibility))
            == phase_rank(p) - 1,
{
}

/// From any phase, at most three steps reach the target of `visibility`,
/// which then stays: the walk always comes to rest.
pub proof fn law_walk_reaches_target(p: VisibilityPhase, visibility: bool, n: nat)
    requires
        n >= 3,
    ensures
        stepped_phase_n(p, visibility, n) == target_phase(visibility),
    decreases n,
{
    reveal_with_fuel(stepped_phase_n, 4);
    if n == 3 {
    } else {
        law_walk_reaches_target(p, visibility, (n - 1) as nat);
        law_target_is_fixed_point(visibility, 1);
        lemma_walk_split(p, visibility, (n - 1) as nat, 1);
    }
}

/// Once at the target of `visibility`, any number of steps stays there.
pub proof fn law_target_is_fixed_point(visibility: bool, n: nat)
    ensures
        stepped_phase_n(target_phase(visibility), visibility, n) == target_phase(visibility),
    decreases n,
{
    if n > 0 {
        law_target_is_fixed_point(visibility, (n - 1) as nat);
    }
}

proof fn lemma_walk_split(p: VisibilityPhase, visibility: bool, a: nat, b: nat)
    ensures
        stepped_phase_n(p, visibility, a + b) == stepped_phase_n(
            stepped_phase_n(p, visibility, a),
            visibility,
            b,
        ),
    decreases a,
{
    if a > 0 {
        lemma_walk_split(stepped_phase(p, visibility), visibility, (a - 1) as nat, b);
        assert((a - 1) as nat + b == (a + b - 1) as nat);
    }
}

} // verus!
