//! What is remembered of the pointer's gesture from one frame to the next.

use crate::id::Id;
use vstd::prelude::*;

verus! {

/// The widgets that the pointer's current gesture belongs to.
///
/// Only ids are kept. A frame looks each of them up among its own widgets,
/// and a widget that is not there is treated as gone.
#[derive(Clone, Copy, Debug, PartialEq, Eq, Hash)]
pub struct InteractionState {
    /// The widget that a press began on and that a release may click.
    pub click_id: Option<Id>,
    /// The widget that a press began on and that is, or may come to be,
    /// dragged.
    pub drag_id: Option<Id>,
}

impl InteractionState {
    /// The state in which no gesture is under way.
    pub open spec fn idle() -> InteractionState {
        InteractionState { click_id: None, drag_id: None }
    }
}

impl Default for InteractionState {
    /// The state at start-up: no gesture is under way.
    fn default() -> (state: Self)
        ensures
            state == InteractionState::idle(),
    {
        InteractionState { click_id: None, drag_id: None }
    }
}

} // verus!
