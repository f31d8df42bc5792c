//! The widget that draws the link between two nodes as an arrow.

use vstd::prelude::*;

verus! {

/// What the link widget keeps between frames: the ids of the shapes that
/// draw it.
pub struct State<I> {
    pub ids: I,
}

} // verus!
