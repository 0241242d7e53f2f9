//! The widgets of a frame: where each one is and what it reacts to.

use crate::geometry::Rect;
use crate::id::Id;
use crate::id_map::IdMap;
use vstd::prelude::*;

verus! {

/// What a widget reacts to.
#[derive(Clone, Copy, Debug, PartialEq, Eq, Hash, Structural)]
pub struct Sense {
    /// The widget wants to know when it is clicked.
    pub click: bool,
    /// The widget wants to know when it is dragged.
    pub drag: bool,
}

impl Sense {
    /// Reacts to neither clicks nor drags: the widget can only be hovered.
    pub fn hover() -> (sense: Sense)
        ensures
            sense == (Sense { click: false, drag: false }),
    {
        Sense { click: false, drag: false }
    }

    /// Reacts to clicks only.
    pub fn click() -> (sense: Sense)
        ensures
            sense == (Sense { click: true, drag: false }),
    {
        Sense { click: true, drag: false }
    }

    /// Reacts to drags only.
    pub fn drag() -> (sense: Sense)
        ensures
            sense == (Sense { click: false, drag: true }),
    {
        Sense { click: false, drag: true }
    }

    /// Reacts to both clicks and drags.
    pub fn click_and_drag() -> (sense: Sense)
        ensures
            sense == (Sense { click: true, drag: true }),
    {
        Sense { click: true, drag: true }
    }
}

/// One widget as it was laid out in one frame.
#[derive(Clone, Copy, Debug, PartialEq, Eq, Hash, Structural)]
pub struct WidgetRect {
    /// Which widget this is.
    pub id: Id,
    /// Where the widget is in this frame.
    pub rect: Rect,
    /// What the widget reacts to.
    pub sense: Sense,
    /// Whether the widget accepts input at all.
    pub enabled: bool,
}

/// Is every widget of `widgets` stored under its own id?
pub open spec fn keyed_by_id(widgets: Map<Id, WidgetRect>) -> bool {
    forall|id: Id| #[trigger] widgets.contains_key(id) ==> widgets[id].id == id
}

/// The widgets of one frame, found by id.
///
/// The table is built anew in every frame. Its view is the map from the id
/// of each widget of the frame to that widget.
#[derive(Debug)]
pub struct WidgetRects {
    by_id: IdMap<WidgetRect>,
}

impl View for WidgetRects {
    type V = Map<Id, WidgetRect>;

    closed spec fn view(&self) -> Map<Id, WidgetRect> {
        self.by_id@
    }
}

impl WidgetRects {
    /// Every widget of the table is stored under its own id.
    #[verifier::type_invariant]
    pub open spec fn wf(self) -> bool {
        keyed_by_id(self@)
    }

    /// The table of a frame without widgets.
    pub fn new() -> (widgets: Self)
        ensures
            widgets@ == Map::<Id, WidgetRect>::empty(),
            widgets.wf(),
    {
        WidgetRects { by_id: IdMap::new() }
    }

    /// Adds `widget` to the frame. A widget that the table held under the
    /// same id is replaced.
    pub fn insert(&mut self, widget: WidgetRect)
        ensures
            final(self)@ == old(self)@.insert(widget.id, widget),
            final(self).wf(),
    {
        proof {
            use_type_invariant(&*self);
        }
        // The table is taken out while it changes, so that `self` is well
        // formed at every step.
        let mut by_id = IdMap::new();
        std::mem::swap(&mut self.by_id, &mut by_id);
        let _ = by_id.insert(widget.id, widget);
        std::mem::swap(&mut self.by_id, &mut by_id);
    }

    /// How many widgets the frame has.
    pub fn len(&self) -> (len: usize)
        ensures
            len == self@.len(),
    {
        self.by_id.len()
    }

    /// Is the widget `id` part of the frame?
    pub fn contains(&self, id: Id) -> (held: bool)
        ensures
            held == self@.contains_key(id),
    {
        self.by_id.contains_key(id)
    }

    /// The widget `id` as it is in this frame, if it is part of the frame.
    pub fn get(&self, id: Id) -> (widget: Option<&WidgetRect>)
        ensures
            widget == (if self@.contains_key(id) {
                Some(&self@[id])
            } else {
                None
            }),
            widget matches Some(w) ==> w.id == id,
    {
        proof {
            use_type_invariant(self);
        }
        self.by_id.get(id)
    }
}

} // verus!
