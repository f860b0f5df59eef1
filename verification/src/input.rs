//! Per-tick gamepad input snapshots, as plain values.
//!
//! The host's pad driver fills one `State` per tick: `trigger` is
//! edge-triggered (true only on the tick a button transitions to pressed),
//! `hold` is level-triggered (true for every tick the button is down).

use vstd::prelude::*;

verus! {

/// One flag per button of the fixed symbol set {A, B, Left, Right, Up, Down, L, R}.
#[derive(Clone, Copy, PartialEq, Eq, Structural, Debug)]
pub struct Buttons {
    pub a: bool,
    pub b: bool,
    pub left: bool,
    pub right: bool,
    pub up: bool,
    pub down: bool,
    pub l: bool,
    pub r: bool,
}

impl Buttons {
    /// The snapshot with no button marked.
    pub open spec fn spec_none() -> Buttons {
        Buttons { a: false, b: false, left: false, right: false, up: false, down: false, l: false, r: false }
    }

    /// The snapshot with no button marked.
    pub fn none() -> (b: Buttons)
        ensures
            b == Buttons::spec_none(),
    {
        Buttons { a: false, b: false, left: false, right: false, up: false, down: false, l: false, r: false }
    }
}

/// A per-tick input snapshot: which buttons were pressed this tick and which
/// are currently held.
#[derive(Clone, Copy, PartialEq, Eq, Structural, Debug)]
pub struct State {
    pub trigger: Buttons,
    pub hold: Buttons,
}

impl State {
    /// The idle snapshot: nothing pressed, nothing held.
    pub open spec fn spec_idle() -> State {
        State { trigger: Buttons::spec_none(), hold: Buttons::spec_none() }
    }

    /// The idle snapshot: nothing pressed, nothing held.
    pub fn idle() -> (s: State)
        ensures
            s == State::spec_idle(),
    {
        State { trigger: Buttons::none(), hold: Buttons::none() }
    }
}

} // verus!
