//! Drawing layers.

use vstd::prelude::*;

verus! {

/// The plane a shape is drawn on.
#[derive(Clone, Copy, PartialEq, Eq, Structural, Debug)]
pub enum Layer {
    /// Moves with the camera.
    World,
    /// Fixed on the screen.
    Billboard,
}

impl Layer {
    /// Whether shapes of this layer ignore the camera.
    pub fn billboard(self) -> (fixed: bool)
        ensures
            fixed == (self == Layer::Billboard),
    {
        match self {
            Layer::Billboard => true,
            Layer::World => false,
        }
    }
}

} // verus!
