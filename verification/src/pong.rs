//! The view's camera.
use vstd::prelude::*;

verus! {

/// The camera that the game's view is drawn through. It carries no state:
/// the view is drawn unmoved.
#[derive(Clone, Copy, Debug, PartialEq, Eq, Structural)]
pub struct Camera;

} // verus!
