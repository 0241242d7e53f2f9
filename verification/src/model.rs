//! What the resolution of a frame means, on mathematical values.
//!
//! A frame's widgets are a map from ids to widgets, its pointer events a
//! sequence. [`resolve`] says what snapshot a frame has and which widgets are
//! tracked after it.

use crate::hit_test::HitsView;
use crate::id::Id;
use crate::input_state::PointerEvent;
use crate::memory::InteractionState;
use crate::widget_rect::WidgetRect;
use vstd::prelude::*;

verus! {

/// The mathematical content of an [`InteractionSnapshot`](crate::interaction::InteractionSnapshot).
pub struct SnapshotView {
    pub clicked: Option<WidgetRect>,
    pub drag_started: Option<WidgetRect>,
    pub dragged: Option<WidgetRect>,
    pub drag_ended: Option<WidgetRect>,
    pub hovered: Map<Id, WidgetRect>,
    pub contains_pointer: Map<Id, WidgetRect>,
}

impl SnapshotView {
    /// The snapshot of a frame in which the pointer does nothing to any
    /// widget.
    pub open spec fn empty() -> SnapshotView {
        SnapshotView {
            clicked: None,
            drag_started: None,
            dragged: None,
            drag_ended: None,
            hovered: Map::empty(),
            contains_pointer: Map::empty(),
        }
    }
}

/// The id of `widget`, if there is a widget.
pub open spec fn id_of(widget: Option<WidgetRect>) -> Option<Id> {
    match widget {
        Some(w) => Some(w.id),
        None => None,
    }
}

/// Are `a` and `b` the same widget, or both no widget? A widget stays the
/// same widget when its rectangle or anything else but its id changes.
pub open spec fn same_widget(a: Option<WidgetRect>, b: Option<WidgetRect>) -> bool {
    id_of(a) == id_of(b)
}

/// The widget that `id` names in the frame `widgets`. There is none if `id`
/// names a widget that is not part of the frame.
pub open spec fn live(widgets: Map<Id, WidgetRect>, id: Option<Id>) -> Option<WidgetRect> {
    match id {
        Some(id) => if widgets.contains_key(id) {
            Some(widgets[id])
        } else {
            None
        },
        None => None,
    }
}

/// The state with which a frame begins: a widget that was pressed for a click
/// and is gone from the frame is forgotten. A widget that was pressed for a
/// drag is kept even if it is gone: what is dragged may have left the layout.
pub open spec fn forget_lost_click(
    widgets: Map<Id, WidgetRect>,
    state: InteractionState,
) -> InteractionState {
    InteractionState {
        click_id: if live(widgets, state.click_id) is Some {
            state.click_id
        } else {
            None
        },
        drag_id: state.drag_id,
    }
}

/// How far a frame's pointer events have been replayed: the tracked widgets,
/// and the widget that was clicked so far in the frame.
pub struct Gesture {
    pub state: InteractionState,
    pub clicked: Option<WidgetRect>,
}

/// The effect of one pointer event.
///
/// - A move changes nothing.
/// - A press begins a click on the widget that the hit test found for clicks,
///   unless a widget is tracked for a click already; and it begins a drag on
///   the widget that the hit test found for drags, unless a widget is tracked
///   for a drag already.
/// - A release that counts as a click clicks the widget that is tracked for a
///   click, if that widget is part of the frame. Every release ends the
///   gesture: no widget is tracked after it.
pub open spec fn after_event(
    widgets: Map<Id, WidgetRect>,
    hits: HitsView,
    before: Gesture,
    event: PointerEvent,
) -> Gesture {
    match event {
        PointerEvent::Moved(_) => before,
        PointerEvent::Pressed { .. } => Gesture {
            state: InteractionState {
                click_id: if before.state.click_id is None {
                    id_of(hits.click)
                } else {
                    before.state.click_id
                },
                drag_id: if before.state.drag_id is None {
                    id_of(hits.drag)
                } else {
                    before.state.drag_id
                },
            },
            clicked: before.clicked,
        },
        PointerEvent::Released { click, .. } => Gesture {
            state: InteractionState::idle(),
            clicked: if click is Some && live(widgets, before.state.click_id) is Some {
                live(widgets, before.state.click_id)
            } else {
                before.clicked
            },
        },
    }
}

/// The effect of the pointer events `events`, oldest first, on `start`.
pub open spec fn after_events(
    widgets: Map<Id, WidgetRect>,
    hits: HitsView,
    start: Gesture,
    events: Seq<PointerEvent>,
) -> Gesture
    decreases events.len(),
{
    if events.len() == 0 {
        start
    } else {
        after_event(
            widgets,
            hits,
            after_events(widgets, hits, start, events.drop_last()),
            events.last(),
        )
    }
}

/// Does a press that is held on `widget` drag it?
///
/// A widget that reacts to drags only is dragged at once. On a widget that
/// reacts to clicks too the press may still become a click, so the widget is
/// dragged only once the pointer is decidedly dragging.
pub open spec fn is_dragged(widget: WidgetRect, decidedly_dragging: bool) -> bool {
    if widget.sense.click && widget.sense.drag {
        decidedly_dragging
    } else {
        widget.sense.drag
    }
}

/// The widget that is dragged in the frame `widgets` when `drag_id` is
/// tracked for a drag.
pub open spec fn dragged_widget(
    widgets: Map<Id, WidgetRect>,
    drag_id: Option<Id>,
    decidedly_dragging: bool,
) -> Option<WidgetRect> {
    match live(widgets, drag_id) {
        Some(widget) => if is_dragged(widget, decidedly_dragging) {
            Some(widget)
        } else {
            None
        },
        None => None,
    }
}

/// `map` with `widget`, if there is one, stored under its id.
pub open spec fn with_widget(map: Map<Id, WidgetRect>, widget: Option<WidgetRect>) -> Map<
    Id,
    WidgetRect,
> {
    match widget {
        Some(w) => map.insert(w.id, w),
        None => map,
    }
}

/// `map` with each of `widgets` stored under its id, one after the other:
/// where two of them have the same id, the later one stays.
pub open spec fn with_widgets(map: Map<Id, WidgetRect>, widgets: Seq<WidgetRect>) -> Map<
    Id,
    WidgetRect,
>
    decreases widgets.len(),
{
    if widgets.len() == 0 {
        map
    } else {
        with_widgets(map, widgets.drop_last()).insert(widgets.last().id, widgets.last())
    }
}

/// Does one of `widgets` have the id `id`?
pub open spec fn has_id(widgets: Seq<WidgetRect>, id: Id) -> bool {
    exists|i: int| 0 <= i < widgets.len() && (#[trigger] widgets[i]).id == id
}

/// Is `widgets[i]` the last of `widgets` that has its id?
pub open spec fn is_last_with_its_id(widgets: Seq<WidgetRect>, i: int) -> bool {
    &&& 0 <= i < widgets.len()
    &&& forall|j: int| i < j < widgets.len() ==> (#[trigger] widgets[j]).id != widgets[i].id
}

/// The widgets that the pointer is over: all those whose rectangle holds the
/// pointer, and the two that the hit test found for clicks and for drags.
pub open spec fn pointer_is_over(hits: HitsView) -> Map<Id, WidgetRect> {
    with_widget(
        with_widget(with_widgets(Map::empty(), hits.contains_pointer), hits.click),
        hits.drag,
    )
}

/// The widgets that the pointer hovers over.
///
/// - While a widget is clicked or dragged, only these one or two widgets are
///   hovered.
/// - Else, if the hit test found a widget for clicks or for drags, only these
///   one or two widgets are hovered.
/// - Else the topmost widget under the pointer is hovered, if there is any.
pub open spec fn hovered_widgets(
    clicked: Option<WidgetRect>,
    dragged: Option<WidgetRect>,
    hits: HitsView,
) -> Map<Id, WidgetRect> {
    if clicked is Some || dragged is Some {
        with_widget(with_widget(Map::empty(), clicked), dragged)
    } else if hits.click is Some || hits.drag is Some {
        with_widget(with_widget(Map::empty(), hits.click), hits.drag)
    } else if hits.contains_pointer.len() > 0 {
        with_widget(Map::empty(), Some(hits.contains_pointer.last()))
    } else {
        Map::empty()
    }
}

/// What the resolution of a frame yields: the frame's snapshot, and the
/// widgets that are tracked from then on.
pub struct Resolved {
    pub snapshot: SnapshotView,
    pub state: InteractionState,
}

/// The resolution of a frame.
///
/// `prev` is the snapshot of the frame before, `widgets` the widgets of this
/// frame, `hits` its hit test, `events` what the pointer did since the frame
/// before, oldest first, and `state` the widgets tracked since then.
pub open spec fn resolve(
    prev: SnapshotView,
    widgets: Map<Id, WidgetRect>,
    hits: HitsView,
    events: Seq<PointerEvent>,
    decidedly_dragging: bool,
    state: InteractionState,
) -> Resolved {
    let start = Gesture { state: forget_lost_click(widgets, state), clicked: None };
    let end = after_events(widgets, hits, start, events);
    let dragged = dragged_widget(widgets, end.state.drag_id, decidedly_dragging);
    let drag_changed = !same_widget(dragged, prev.dragged);
    Resolved {
        snapshot: SnapshotView {
            clicked: end.clicked,
            drag_started: if drag_changed {
                dragged
            } else {
                None
            },
            dragged,
            drag_ended: if drag_changed {
                prev.dragged
            } else {
                None
            },
            hovered: hovered_widgets(end.clicked, dragged, hits),
            contains_pointer: pointer_is_over(hits),
        },
        state: end.state,
    }
}

} // verus!
