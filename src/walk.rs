//! The collision probe: whether a step may be taken, decided from center-
//! column rays cast forward, along x only and along y only, in that order.
use vstd::prelude::*;
use crate::walls::{ColumnData, SurfaceKind};

verus! {

/// Q20 clearance a probe ray must exceed for a move: 0.2 of a cell.
pub const CLEARANCE: i32 = 209715;

/// Which ray the walk decision needs next.
#[derive(Clone, Copy, Debug, PartialEq, Eq, Structural)]
pub enum WalkProbe {
    /// Along the view direction.
    Forward,
    /// Along the view direction with its y part dropped.
    AlongX,
    /// Along the view direction with its x part dropped.
    AlongY,
}

/// The move a walk makes.
#[derive(Clone, Copy, Debug, PartialEq, Eq, Structural)]
pub enum WalkStep {
    /// The full diagonal step.
    Full,
    /// Only the x part of the step.
    OnlyX,
    /// Only the y part of the step.
    OnlyY,
    /// No move.
    Stay,
}

/// What to do after a probe: cast another ray, or move.
#[derive(Clone, Copy, Debug, PartialEq, Eq, Structural)]
pub enum WalkAction {
    Probe(WalkProbe),
    Move(WalkStep),
}

/// The probe passes: the wall is farther than the clearance, or, for the
/// forward ray only, it is a door, which one walks through.
pub open spec fn probe_passes(probe: WalkProbe, result: ColumnData) -> bool {
    result.distance > CLEARANCE || (probe == WalkProbe::Forward && result.kind == SurfaceKind::Door)
}

/// The next step of the walk decision after `probe` came back with `result`:
/// a passing probe grants its move; a failing one asks for the next probe,
/// and after the last one the walker stays.
pub open spec fn walk_next_spec(probe: WalkProbe, result: ColumnData) -> WalkAction {
    if probe_passes(probe, result) {
        WalkAction::Move(
            match probe {
                WalkProbe::Forward => WalkStep::Full,
                WalkProbe::AlongX => WalkStep::OnlyX,
                WalkProbe::AlongY => WalkStep::OnlyY,
            },
        )
    } else {
        match probe {
            WalkProbe::Forward => WalkAction::Probe(WalkProbe::AlongX),
            WalkProbe::AlongX => WalkAction::Probe(WalkProbe::AlongY),
            WalkProbe::AlongY => WalkAction::Move(WalkStep::Stay),
        }
    }
}

/// Decides the walk's next step from the result of the probe ray `probe`.
/// The first probe is `Forward`.
pub fn walk_next(probe: WalkProbe, result: &ColumnData) -> (r: WalkAction)
    ensures
        r == walk_next_spec(probe, *result),
        r == WalkAction::Move(WalkStep::Full) <==> probe == WalkProbe::Forward && (result.distance > CLEARANCE
            || result.kind == SurfaceKind::Door),
        r == WalkAction::Move(WalkStep::OnlyX) <==> probe == WalkProbe::AlongX && result.distance > CLEARANCE,
        r == WalkAction::Move(WalkStep::OnlyY) <==> probe == WalkProbe::AlongY && result.distance > CLEARANCE,
{
    let passes = result.distance > CLEARANCE || (probe == WalkProbe::Forward && result.kind == SurfaceKind::Door);
    if passes {
        WalkAction::Move(
            match probe {
                WalkProbe::Forward => WalkStep::Full,
                WalkProbe::AlongX => WalkStep::OnlyX,
                WalkProbe::AlongY => WalkStep::OnlyY,
            },
        )
    } else {
        match probe {
            WalkProbe::Forward => WalkAction::Probe(WalkProbe::AlongX),
            WalkProbe::AlongX => WalkAction::Probe(WalkProbe::AlongY),
            WalkProbe::AlongY => WalkAction::Move(WalkStep::Stay),
        }
    }
}

/// A walk only ever moves on a probe that saw its wall beyond the clearance,
/// or a door straight ahead: every move other than staying is granted by a
/// passing probe, and a probe that passes always grants a move.
pub proof fn lemma_walk_moves_only_with_clearance(probe: WalkProbe, result: ColumnData)
    ensures
        (walk_next_spec(probe, result) matches WalkAction::Move(step) && step != WalkStep::Stay)
            <==> (result.distance > CLEARANCE || (probe == WalkProbe::Forward && result.kind == SurfaceKind::Door)),
{
}

} // verus!
