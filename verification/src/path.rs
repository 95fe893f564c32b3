//! Path segments and the drawing commands that the context hands to the
//! rasteriser.

use vstd::prelude::*;
use crate::color::Color;
use crate::fixed::Fixed;
use crate::geometry::{Rect, Transform};

verus! {

/// One segment of a path, in the coordinates of the caller.
#[derive(Clone, Copy, Debug, PartialEq, Eq, Structural)]
pub enum PathCommand {
    MoveTo { x: Fixed, y: Fixed },
    LineTo { x: Fixed, y: Fixed },
    QuadTo { x1: Fixed, y1: Fixed, x: Fixed, y: Fixed },
    CubicTo { x1: Fixed, y1: Fixed, x2: Fixed, y2: Fixed, x: Fixed, y: Fixed },
    Close,
    Circle { x: Fixed, y: Fixed, radius: Fixed },
    Rect { x: Fixed, y: Fixed, width: Fixed, height: Fixed },
}

/// How a painted colour meets what is already on the surface.
#[derive(Clone, Copy, Debug, PartialEq, Eq, Structural)]
pub enum Blend {
    /// The colour is laid over the surface according to its alpha.
    SourceOver,
    /// The colour replaces what is there, alpha included.
    Source,
}

/// The order to fill a path: interior by the non-zero winding rule,
/// antialiased.
#[derive(Clone, Debug, PartialEq, Eq)]
pub struct PathFill {
    pub commands: Vec<PathCommand>,
    pub color: Color,
    pub transform: Transform,
}

/// The order to stroke a path: butt caps, antialiased.
#[derive(Clone, Debug, PartialEq, Eq)]
pub struct PathStroke {
    pub commands: Vec<PathCommand>,
    pub color: Color,
    pub width: Fixed,
    pub transform: Transform,
}

/// The order to paint a rectangle, antialiased.
#[derive(Clone, Copy, Debug, PartialEq, Eq, Structural)]
pub struct RectPaint {
    pub rect: Rect,
    pub color: Color,
    pub blend: Blend,
    pub transform: Transform,
}

/// The angle of a full turn, in radians.
pub const FULL_TURN: i64 = 6_283_185_307;

/// Whether an arc from `start` to `end`, in radians, is a full circle: it
/// starts at zero and ends within a billionth of a full turn.
pub open spec fn is_full_circle(start: Fixed, end: Fixed) -> bool {
    start.raw == 0 && FULL_TURN - 1 <= end.raw <= FULL_TURN + 1
}

/// A copy of a list of segments.
pub fn copy_commands(commands: &Vec<PathCommand>) -> (copy: Vec<PathCommand>)
    ensures
        copy@ == commands@,
{
    let mut copy: Vec<PathCommand> = Vec::new();
    let mut i: usize = 0;
    while i < commands.len()
        invariant
            i <= commands.len(),
            copy@ == commands@.take(i as int),
        decreases commands.len() - i,
    {
        copy.push(commands[i]);
        i += 1;
        assert(copy@ =~= commands@.take(i as int));
    }
    assert(commands@.take(commands.len() as int) =~= commands@);
    copy
}

} // verus!
