//! The widget that draws a node as a disc coloured by its role.

use vstd::prelude::*;

verus! {

/// The part a node plays in the cluster, as the view colours it.
#[derive(Clone, Copy, PartialEq, Eq, Structural, Debug)]
pub enum NodeRole {
    Leader,
    Member,
    Learner,
    NoRole,
}

/// What the node widget keeps between frames: the ids of the shapes that
/// draw it.
pub struct State<I> {
    pub ids: I,
}

} // verus!
