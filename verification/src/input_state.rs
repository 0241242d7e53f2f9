//! What the pointer did since the frame before.

use crate::geometry::Pos2;
use vstd::prelude::*;

verus! {

/// A button of the pointing device.
#[derive(Clone, Copy, Debug, PartialEq, Eq, Hash, Structural)]
pub enum PointerButton {
    /// The left button of a mouse, or a touch.
    Primary,
    /// The right button of a mouse.
    Secondary,
    /// The middle button of a mouse.
    Middle,
    /// The first extra button of a mouse, often used to go back.
    Extra1,
    /// The second extra button of a mouse, often used to go forward.
    Extra2,
}

/// A press and release that counts as a click.
#[derive(Clone, Copy, Debug, PartialEq, Eq, Hash, Structural)]
pub struct Click {
    /// Where the click happened.
    pub pos: Pos2,
    /// 1 for a single click, 2 for a double click, and so on.
    pub count: u32,
}

/// One thing that the pointer did.
#[derive(Clone, Copy, Debug, PartialEq, Eq)]
pub enum PointerEvent {
    /// The pointer moved to a position.
    Moved(Pos2),
    /// A button went down.
    Pressed { position: Pos2, button: PointerButton },
    /// A button went up. `click` is set when the press that ends here was
    /// short and still enough to count as a click.
    Released { click: Option<Click>, button: PointerButton },
}

impl PointerEvent {
    /// Is this a button going down?
    pub open spec fn is_press(self) -> bool {
        self is Pressed
    }

    /// Is this a button going up?
    pub open spec fn is_release(self) -> bool {
        self is Released
    }

    /// Is this a button going up at the end of a click?
    pub open spec fn is_click(self) -> bool {
        self matches PointerEvent::Released { click: Some(_), .. }
    }
}

/// Does no button go down in `events`?
pub open spec fn no_press(events: Seq<PointerEvent>) -> bool {
    forall|i: int| 0 <= i < events.len() ==> !(#[trigger] events[i]).is_press()
}

/// Does no button go up in `events`?
pub open spec fn no_release(events: Seq<PointerEvent>) -> bool {
    forall|i: int| 0 <= i < events.len() ==> !(#[trigger] events[i]).is_release()
}

/// Does a button go up at position `release` of `events`, and none go down
/// after that?
pub open spec fn ends_released_at(events: Seq<PointerEvent>, release: int) -> bool {
    &&& 0 <= release < events.len()
    &&& events[release].is_release()
    &&& forall|i: int| release < i < events.len() ==> !(#[trigger] events[i]).is_press()
}

/// Does a button go up in `events`, and none go down after that?
pub open spec fn ends_released(events: Seq<PointerEvent>) -> bool {
    exists|release: int| ends_released_at(events, release)
}

/// The pointer's part of a frame's input.
#[derive(Clone, Debug, PartialEq, Eq)]
pub struct PointerState {
    /// What the pointer did since the frame before, oldest first.
    pub pointer_events: Vec<PointerEvent>,
    /// Whether the pointer has by now moved so far, or been held so long,
    /// that what it does must be a drag and can no longer become a click.
    pub decidedly_dragging: bool,
}

impl PointerState {
    /// Has the pointer by now moved so far, or been held so long, that what
    /// it does must be a drag?
    pub fn is_decidedly_dragging(&self) -> (dragging: bool)
        ensures
            dragging == self.decidedly_dragging,
    {
        self.decidedly_dragging
    }
}

impl Default for PointerState {
    /// A pointer that did nothing.
    fn default() -> (pointer: Self)
        ensures
            pointer.pointer_events@ == Seq::<PointerEvent>::empty(),
            !pointer.decidedly_dragging,
    {
        PointerState { pointer_events: Vec::new(), decidedly_dragging: false }
    }
}

/// The input of one frame.
#[derive(Clone, Debug, PartialEq, Eq)]
pub struct InputState {
    pub pointer: PointerState,
}

impl Default for InputState {
    /// The input of a frame in which nothing happened.
    fn default() -> (input: Self)
        ensures
            input.pointer.pointer_events@ == Seq::<PointerEvent>::empty(),
            !input.pointer.decidedly_dragging,
    {
        InputState { pointer: PointerState::default() }
    }
}

} // verus!
