//! Placement of the two outputs side by side.
use vstd::prelude::*;

verus! {

/// What the placement reads of an output.
#[derive(Clone, Copy, Debug, PartialEq, Eq, Structural)]
pub struct OutputState {
    pub connected: bool,
    /// The width of the output's current mode in the global coordinate space.
    pub width: i32,
}

/// A position in the global coordinate space.
#[derive(Clone, Copy, Debug, PartialEq, Eq, Structural)]
pub struct Position {
    pub x: i32,
    pub y: i32,
}

/// Where each of the two outputs goes.
#[derive(Clone, Copy, Debug, PartialEq, Eq, Structural)]
pub struct Placement {
    pub left: Position,
    pub right: Position,
}

/// Places the left output at the origin and the right output directly to its
/// right, once both are connected. While either is not, nothing is placed.
pub fn arrange_outputs(left: OutputState, right: OutputState) -> (r: Option<Placement>)
    ensures
        r is Some <==> left.connected && right.connected,
        r is Some ==> r->Some_0 == (Placement {
            left: Position { x: 0, y: 0 },
            right: Position { x: left.width, y: 0 },
        }),
{
    if left.connected && right.connected {
        Some(Placement { left: Position { x: 0, y: 0 }, right: Position { x: left.width, y: 0 } })
    } else {
        None
    }
}

} // verus!
