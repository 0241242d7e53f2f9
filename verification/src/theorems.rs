//! What holds of every frame that [`resolve`] resolves, and of frames that
//! follow one another.
//!
//! The lemmas come first: they are about the replay of a frame's pointer
//! events. The theorems after them are about whole frames.

use crate::hit_test::HitsView;
use crate::id::Id;
use crate::input_state::{
    ends_released, ends_released_at, no_press, no_release, PointerEvent,
};
use crate::model::{
    after_event, after_events, dragged_widget, forget_lost_click, has_id, id_of,
    is_last_with_its_id, live, resolve, same_widget, with_widgets, Gesture, SnapshotView,
};
use crate::memory::InteractionState;
use crate::widget_rect::{keyed_by_id, WidgetRect};
use vstd::prelude::*;

verus! {

/// Replaying one list of events and then another is replaying the two lists
/// joined.
pub proof fn lemma_replay_in_two_parts(
    widgets: Map<Id, WidgetRect>,
    hits: HitsView,
    start: Gesture,
    first: Seq<PointerEvent>,
    second: Seq<PointerEvent>,
)
    ensures
        after_events(widgets, hits, start, first + second) == after_events(
            widgets,
            hits,
            after_events(widgets, hits, start, first),
            second,
        ),
    decreases second.len(),
{
    if second.len() == 0 {
        assert(first + second =~= first);
    } else {
        assert((first + second).drop_last() =~= first + second.drop_last());
        assert((first + second).last() == second.last());
        lemma_replay_in_two_parts(widgets, hits, start, first, second.drop_last());
    }
}

/// As long as no button goes up, nothing is clicked, and a widget that is
/// tracked stays tracked. Where no widget is tracked, the first press begins
/// to track the widget that the hit test found.
pub proof fn lemma_replay_without_release(
    widgets: Map<Id, WidgetRect>,
    hits: HitsView,
    start: Gesture,
    events: Seq<PointerEvent>,
)
    requires
        no_release(events),
    ensures
        ({
            let end = after_events(widgets, hits, start, events);
            &&& end.clicked == start.clicked
            &&& end.state.click_id == if start.state.click_id is Some || no_press(events) {
                start.state.click_id
            } else {
                id_of(hits.click)
            }
            &&& end.state.drag_id == if start.state.drag_id is Some || no_press(events) {
                start.state.drag_id
            } else {
                id_of(hits.drag)
            }
        }),
    decreases events.len(),
{
    if events.len() > 0 {
        let before = events.drop_last();
        assert forall|i: int| 0 <= i < before.len() implies
            !(#[trigger] before[i]).is_release() by {
            assert(before[i] == events[i]);
        }
        lemma_replay_without_release(widgets, hits, start, before);
        assert(!events[events.len() - 1].is_release());
        if no_press(events) {
            assert forall|i: int| 0 <= i < before.len() implies
                !(#[trigger] before[i]).is_press() by {
                assert(before[i] == events[i]);
            }
            assert(!events[events.len() - 1].is_press());
        } else if no_press(before) {
            let i = choose|i: int| 0 <= i < events.len() && (#[trigger] events[i]).is_press();
            if i < before.len() {
                assert(before[i].is_press());
            }
            assert(events.last().is_press());
        } else {
            let i = choose|i: int| 0 <= i < before.len() && (#[trigger] before[i]).is_press();
            assert(events[i].is_press());
        }
    }
}

/// After a button went up and none went down since, no widget is tracked.
pub proof fn lemma_idle_after_release(
    widgets: Map<Id, WidgetRect>,
    hits: HitsView,
    start: Gesture,
    events: Seq<PointerEvent>,
    release: int,
)
    requires
        ends_released_at(events, release),
    ensures
        after_events(widgets, hits, start, events).state == InteractionState::idle(),
    decreases events.len(),
{
    if release < events.len() - 1 {
        let before = events.drop_last();
        assert(before[release] == events[release]);
        assert forall|i: int| release < i < before.len() implies
            !(#[trigger] before[i]).is_press() by {
            assert(before[i] == events[i]);
        }
        lemma_idle_after_release(widgets, hits, start, before, release);
        assert(!events[events.len() - 1].is_press());
    }
}

/// A widget that is clicked in a frame is a widget of that frame, unless it
/// was clicked before the replay began.
pub proof fn lemma_clicked_is_live(
    widgets: Map<Id, WidgetRect>,
    hits: HitsView,
    start: Gesture,
    events: Seq<PointerEvent>,
)
    ensures
        ({
            let end = after_events(widgets, hits, start, events);
            ||| end.clicked == start.clicked
            ||| exists|id: Id| #[trigger]
                widgets.contains_key(id) && end.clicked == Some(widgets[id])
        }),
    decreases events.len(),
{
    if events.len() > 0 {
        lemma_clicked_is_live(widgets, hits, start, events.drop_last());
        let before = after_events(widgets, hits, start, events.drop_last());
        let end = after_event(widgets, hits, before, events.last());
        if end.clicked != before.clicked {
            assert(widgets.contains_key(before.state.click_id->0));
        }
    }
}

/// The widget that is tracked for a click after a replay is the one that was
/// tracked before, or the one that the hit test found for clicks. The same
/// holds of the widget that is tracked for a drag.
pub proof fn lemma_tracked_origin(
    widgets: Map<Id, WidgetRect>,
    hits: HitsView,
    start: Gesture,
    events: Seq<PointerEvent>,
)
    ensures
        ({
            let end = after_events(widgets, hits, start, events);
            &&& end.state.click_id is Some ==> end.state.click_id == start.state.click_id
                || end.state.click_id == id_of(hits.click)
            &&& end.state.drag_id is Some ==> end.state.drag_id == start.state.drag_id
                || end.state.drag_id == id_of(hits.drag)
            &&& no_press(events) && start.state.click_id is None ==> end.state.click_id is None
            &&& no_press(events) && start.state.drag_id is None ==> end.state.drag_id is None
        }),
    decreases events.len(),
{
    if events.len() > 0 {
        let before = events.drop_last();
        lemma_tracked_origin(widgets, hits, start, before);
        if no_press(events) {
            assert forall|i: int| 0 <= i < before.len() implies
                !(#[trigger] before[i]).is_press() by {
                assert(before[i] == events[i]);
            }
            assert(!events[events.len() - 1].is_press());
        }
    }
}

/// A widget is clicked only if it was tracked for a click when the replay
/// began, or if a button went down while the hit test found it for clicks.
pub proof fn lemma_click_is_tracked(
    widgets: Map<Id, WidgetRect>,
    hits: HitsView,
    start: Gesture,
    events: Seq<PointerEvent>,
    id: Id,
)
    requires
        keyed_by_id(widgets),
        start.state.click_id != Some(id),
        id_of(start.clicked) != Some(id),
        id_of(hits.click) != Some(id) || no_press(events),
    ensures
        id_of(after_events(widgets, hits, start, events).clicked) != Some(id),
        after_events(widgets, hits, start, events).state.click_id != Some(id),
    decreases events.len(),
{
    if events.len() > 0 {
        let before = events.drop_last();
        if no_press(events) {
            assert forall|i: int| 0 <= i < before.len() implies
                !(#[trigger] before[i]).is_press() by {
                assert(before[i] == events[i]);
            }
            assert(!events[events.len() - 1].is_press());
        }
        lemma_click_is_tracked(widgets, hits, start, before, id);
    }
}

/// What a map holds after widgets were stored in it under their ids: the ids
/// that it held before and the ids of the widgets; and under the id of each
/// of the widgets, the last of them that has this id.
pub proof fn lemma_with_widgets_holds(map: Map<Id, WidgetRect>, widgets: Seq<WidgetRect>)
    ensures
        forall|id: Id| #[trigger]
            with_widgets(map, widgets).contains_key(id) <==> map.contains_key(id) || has_id(
                widgets,
                id,
            ),
        forall|id: Id|
            map.contains_key(id) && !has_id(widgets, id) ==> #[trigger] with_widgets(
                map,
                widgets,
            )[id] == map[id],
        forall|i: int| #[trigger]
            is_last_with_its_id(widgets, i) ==> with_widgets(map, widgets)[widgets[i].id]
                == widgets[i],
    decreases widgets.len(),
{
    if widgets.len() > 0 {
        let before = widgets.drop_last();
        let last = widgets.last();
        let after = with_widgets(map, widgets);
        lemma_with_widgets_holds(map, before);
        assert(after == with_widgets(map, before).insert(last.id, last));
        assert forall|id: Id| has_id(widgets, id) <==> has_id(before, id) || id == last.id by {
            if has_id(widgets, id) && id != last.id {
                let i = choose|i: int| 0 <= i < widgets.len() && (#[trigger] widgets[i]).id == id;
                assert(before[i].id == id);
            }
            if has_id(before, id) {
                let i = choose|i: int| 0 <= i < before.len() && (#[trigger] before[i]).id == id;
                assert(widgets[i].id == id);
            }
            if id == last.id {
                assert(widgets[widgets.len() - 1].id == id);
            }
        }
        assert forall|id: Id| #[trigger]
            after.contains_key(id) <==> map.contains_key(id) || has_id(widgets, id) by {
            assert(with_widgets(map, before).contains_key(id) <==> map.contains_key(id) || has_id(
                before,
                id,
            ));
        }
        assert forall|id: Id| map.contains_key(id) && !has_id(widgets, id) implies #[trigger]
            after[id] == map[id] by {
            assert(!has_id(before, id) && id != last.id);
            assert(with_widgets(map, before)[id] == map[id]);
        }
        assert forall|i: int| #[trigger] is_last_with_its_id(widgets, i) implies
            after[widgets[i].id] == widgets[i] by {
            if i < before.len() {
                assert(widgets[widgets.len() - 1].id != widgets[i].id);
                assert(before[i] == widgets[i]);
                assert forall|j: int| i < j < before.len() implies (#[trigger] before[j]).id
                    != before[i].id by {
                    assert(widgets[j].id != widgets[i].id);
                }
                assert(is_last_with_its_id(before, i));
            }
        }
    }
}

/// Storing widgets under their ids keeps a map keyed by id.
pub proof fn lemma_with_widgets_keyed_by_id(map: Map<Id, WidgetRect>, widgets: Seq<WidgetRect>)
    requires
        keyed_by_id(map),
    ensures
        keyed_by_id(with_widgets(map, widgets)),
    decreases widgets.len(),
{
    if widgets.len() > 0 {
        lemma_with_widgets_keyed_by_id(map, widgets.drop_last());
    }
}

/// The widgets that a frame reports as clicked, as dragged and as newly
/// dragged are widgets of that frame, each stored under its own id.
pub proof fn theorem_results_are_live(
    prev: SnapshotView,
    widgets: Map<Id, WidgetRect>,
    hits: HitsView,
    events: Seq<PointerEvent>,
    decidedly_dragging: bool,
    state: InteractionState,
)
    requires
        keyed_by_id(widgets),
    ensures
        ({
            let snapshot = resolve(prev, widgets, hits, events, decidedly_dragging, state).snapshot;
            &&& snapshot.clicked matches Some(w) ==> widgets.contains_key(w.id) && widgets[w.id]
                == w
            &&& snapshot.dragged matches Some(w) ==> widgets.contains_key(w.id) && widgets[w.id]
                == w
            &&& snapshot.drag_started matches Some(w) ==> widgets.contains_key(w.id)
                && widgets[w.id] == w
        }),
{
    let start = Gesture { state: forget_lost_click(widgets, state), clicked: None };
    lemma_clicked_is_live(widgets, hits, start, events);
}

/// The widgets that a frame reports as hovered and as under the pointer are
/// each stored under their own id.
pub proof fn theorem_maps_are_keyed_by_id(
    prev: SnapshotView,
    widgets: Map<Id, WidgetRect>,
    hits: HitsView,
    events: Seq<PointerEvent>,
    decidedly_dragging: bool,
    state: InteractionState,
)
    ensures
        ({
            let snapshot = resolve(prev, widgets, hits, events, decidedly_dragging, state).snapshot;
            &&& keyed_by_id(snapshot.hovered)
            &&& keyed_by_id(snapshot.contains_pointer)
        }),
{
    lemma_with_widgets_keyed_by_id(Map::empty(), hits.contains_pointer);
}

/// The widgets under the pointer are those that the hit test names: the
/// ones whose rectangle holds the pointer, the one found for clicks and the
/// one found for drags. Where several of them have the same id, the one
/// found for drags stays, else the one found for clicks, else the topmost.
pub proof fn theorem_under_the_pointer(
    prev: SnapshotView,
    widgets: Map<Id, WidgetRect>,
    hits: HitsView,
    events: Seq<PointerEvent>,
    decidedly_dragging: bool,
    state: InteractionState,
)
    ensures
        ({
            let frame = resolve(prev, widgets, hits, events, decidedly_dragging, state);
            let over = frame.snapshot.contains_pointer;
            let listed = hits.contains_pointer;
            &&& forall|id: Id| #[trigger]
                over.contains_key(id) <==> has_id(listed, id) || id_of(hits.click) == Some(id)
                    || id_of(hits.drag) == Some(id)
            &&& hits.drag matches Some(w) ==> over[w.id] == w
            &&& hits.click matches Some(w) ==> id_of(hits.drag) != Some(w.id) ==> over[w.id] == w
            &&& forall|i: int| #[trigger]
                is_last_with_its_id(listed, i) && id_of(hits.click) != Some(listed[i].id) && id_of(
                    hits.drag,
                ) != Some(listed[i].id) ==> over[listed[i].id] == listed[i]
        }),
{
    lemma_with_widgets_holds(Map::empty(), hits.contains_pointer);
}

/// A click needs a press and a release: when a button goes down over a
/// widget while no widget is tracked for a click, and goes up again in a
/// later frame at the end of a click, then the widget is clicked in that
/// later frame, and only there, provided that it is still a widget of that
/// frame.
///
/// The first frame has a press and no release. The second frame has one
/// release, which ends a click.
pub proof fn theorem_click_recognition(
    prev: SnapshotView,
    state: InteractionState,
    widgets1: Map<Id, WidgetRect>,
    hits1: HitsView,
    events1: Seq<PointerEvent>,
    decidedly_dragging1: bool,
    widgets2: Map<Id, WidgetRect>,
    hits2: HitsView,
    events2: Seq<PointerEvent>,
    decidedly_dragging2: bool,
    pressed: WidgetRect,
    release: int,
)
    requires
        live(widgets1, state.click_id) is None,
        hits1.click == Some(pressed),
        !no_press(events1),
        no_release(events1),
        widgets2.contains_key(pressed.id),
        0 <= release < events2.len(),
        events2[release].is_click(),
        forall|i: int|
            0 <= i < events2.len() && i != release ==> !(#[trigger] events2[i]).is_release(),
    ensures
        ({
            let frame1 = resolve(prev, widgets1, hits1, events1, decidedly_dragging1, state);
            let frame2 = resolve(
                frame1.snapshot,
                widgets2,
                hits2,
                events2,
                decidedly_dragging2,
                frame1.state,
            );
            &&& frame1.snapshot.clicked is None
            &&& frame1.state.click_id == Some(pressed.id)
            &&& frame2.snapshot.clicked == Some(widgets2[pressed.id])
        }),
{
    let start1 = Gesture { state: forget_lost_click(widgets1, state), clicked: None };
    lemma_replay_without_release(widgets1, hits1, start1, events1);
    let frame1 = resolve(prev, widgets1, hits1, events1, decidedly_dragging1, state);
    assert(frame1.state.click_id == Some(pressed.id));

    let start2 = Gesture { state: forget_lost_click(widgets2, frame1.state), clicked: None };
    let before = events2.take(release);
    let after = events2.skip(release + 1);
    assert(events2 =~= before.push(events2[release]) + after);
    lemma_replay_in_two_parts(widgets2, hits2, start2, before.push(events2[release]), after);
    assert(before.push(events2[release]).drop_last() =~= before);
    assert forall|i: int| 0 <= i < before.len() implies !(#[trigger] before[i]).is_release() by {
        assert(before[i] == events2[i]);
    }
    lemma_replay_without_release(widgets2, hits2, start2, before);
    let released = after_events(widgets2, hits2, start2, before.push(events2[release]));
    assert(released.clicked == Some(widgets2[pressed.id]));
    assert forall|i: int| 0 <= i < after.len() implies !(#[trigger] after[i]).is_release() by {
        assert(after[i] == events2[release + 1 + i]);
    }
    lemma_replay_without_release(widgets2, hits2, released, after);
}

/// Without a release there is no click: in a frame in which no button goes
/// up, no widget is clicked.
pub proof fn theorem_no_click_without_release(
    prev: SnapshotView,
    widgets: Map<Id, WidgetRect>,
    hits: HitsView,
    events: Seq<PointerEvent>,
    decidedly_dragging: bool,
    state: InteractionState,
)
    requires
        no_release(events),
    ensures
        resolve(prev, widgets, hits, events, decidedly_dragging, state).snapshot.clicked is None,
{
    let start = Gesture { state: forget_lost_click(widgets, state), clicked: None };
    lemma_replay_without_release(widgets, hits, start, events);
}

/// A press and a release in the same frame do not make a drag: in a frame
/// in which a button goes up and none goes down after that, no widget is
/// dragged and no drag starts, whatever the widgets react to. No widget is
/// tracked after such a frame.
pub proof fn theorem_no_drag_after_release(
    prev: SnapshotView,
    widgets: Map<Id, WidgetRect>,
    hits: HitsView,
    events: Seq<PointerEvent>,
    decidedly_dragging: bool,
    state: InteractionState,
)
    requires
        ends_released(events),
    ensures
        ({
            let frame = resolve(prev, widgets, hits, events, decidedly_dragging, state);
            &&& frame.snapshot.dragged is None
            &&& frame.snapshot.drag_started is None
            &&& frame.state == InteractionState::idle()
        }),
{
    let start = Gesture { state: forget_lost_click(widgets, state), clicked: None };
    let release = choose|release: int| ends_released_at(events, release);
    lemma_idle_after_release(widgets, hits, start, events, release);
}

/// After the last release of a frame the gesture begins anew: if a button
/// goes down after it, the widgets that the hit test found are tracked, and
/// if none does, no widget is tracked.
pub proof fn theorem_tracked_after_release(
    prev: SnapshotView,
    widgets: Map<Id, WidgetRect>,
    hits: HitsView,
    events: Seq<PointerEvent>,
    decidedly_dragging: bool,
    state: InteractionState,
    release: int,
)
    requires
        0 <= release < events.len(),
        events[release].is_release(),
        no_release(events.skip(release + 1)),
    ensures
        ({
            let frame = resolve(prev, widgets, hits, events, decidedly_dragging, state);
            &&& frame.state == if no_press(events.skip(release + 1)) {
                InteractionState::idle()
            } else {
                InteractionState { click_id: id_of(hits.click), drag_id: id_of(hits.drag) }
            }
            &&& frame.snapshot.dragged == dragged_widget(
                widgets,
                frame.state.drag_id,
                decidedly_dragging,
            )
        }),
{
    let start = Gesture { state: forget_lost_click(widgets, state), clicked: None };
    let before = events.take(release + 1);
    let after = events.skip(release + 1);
    assert(events =~= before + after);
    lemma_replay_in_two_parts(widgets, hits, start, before, after);
    assert(ends_released_at(before, release));
    lemma_idle_after_release(widgets, hits, start, before, release);
    lemma_replay_without_release(
        widgets,
        hits,
        after_events(widgets, hits, start, before),
        after,
    );
}

/// The edges of a drag come in pairs.
///
/// - A drag starts on a widget in a frame in which that widget is dragged,
///   and was not dragged in the frame before.
/// - A drag ends on a widget in a frame in which that widget is not dragged,
///   and was dragged in the frame before.
/// - A widget that is dragged in two frames in a row neither starts nor ends
///   a drag in the second of them.
pub proof fn theorem_drag_edges(
    prev: SnapshotView,
    widgets: Map<Id, WidgetRect>,
    hits: HitsView,
    events: Seq<PointerEvent>,
    decidedly_dragging: bool,
    state: InteractionState,
)
    ensures
        ({
            let snapshot = resolve(prev, widgets, hits, events, decidedly_dragging, state).snapshot;
            &&& snapshot.drag_started is Some ==> snapshot.drag_started == snapshot.dragged
                && !same_widget(snapshot.drag_started, prev.dragged)
            &&& snapshot.drag_ended is Some ==> snapshot.drag_ended == prev.dragged
                && !same_widget(snapshot.drag_ended, snapshot.dragged)
            &&& same_widget(snapshot.dragged, prev.dragged) ==> snapshot.drag_started is None
                && snapshot.drag_ended is None
            &&& !same_widget(snapshot.dragged, prev.dragged) ==> snapshot.drag_started
                == snapshot.dragged && snapshot.drag_ended == prev.dragged
        }),
{
}

/// While a widget is clicked or dragged, nothing else is hovered: the
/// hovered widgets are then the clicked widget and the dragged widget, and
/// no other.
pub proof fn theorem_hover_suppression(
    prev: SnapshotView,
    widgets: Map<Id, WidgetRect>,
    hits: HitsView,
    events: Seq<PointerEvent>,
    decidedly_dragging: bool,
    state: InteractionState,
)
    ensures
        ({
            let snapshot = resolve(prev, widgets, hits, events, decidedly_dragging, state).snapshot;
            snapshot.clicked is Some || snapshot.dragged is Some ==> {
                &&& forall|id: Id| #[trigger]
                    snapshot.hovered.contains_key(id) <==> id_of(snapshot.clicked) == Some(id)
                        || id_of(snapshot.dragged) == Some(id)
                &&& forall|id: Id| #[trigger]
                    snapshot.hovered.contains_key(id) ==> Some(snapshot.hovered[id])
                        == snapshot.clicked || Some(snapshot.hovered[id]) == snapshot.dragged
            }
        }),
{
}

/// Where no widget is clicked or dragged and the pointer rests on widgets
/// that react to it, these are hovered: the widget that the hit test found
/// for clicks and the one that it found for drags, and no other.
pub proof fn theorem_hover_on_candidates(
    prev: SnapshotView,
    widgets: Map<Id, WidgetRect>,
    hits: HitsView,
    events: Seq<PointerEvent>,
    decidedly_dragging: bool,
    state: InteractionState,
)
    requires
        hits.click is Some || hits.drag is Some,
    ensures
        ({
            let snapshot = resolve(prev, widgets, hits, events, decidedly_dragging, state).snapshot;
            snapshot.clicked is None && snapshot.dragged is None ==> {
                &&& forall|id: Id| #[trigger]
                    snapshot.hovered.contains_key(id) <==> id_of(hits.click) == Some(id) || id_of(
                        hits.drag,
                    ) == Some(id)
                &&& hits.drag matches Some(w) ==> snapshot.hovered[w.id] == w
                &&& hits.click matches Some(w) ==> id_of(hits.drag) != Some(w.id)
                    ==> snapshot.hovered[w.id] == w
            }
        }),
{
}

/// A widget that is tracked for a drag and is gone from the frame is not
/// dragged in that frame, yet it stays tracked until a button goes up.
pub proof fn theorem_drag_target_gone(
    prev: SnapshotView,
    widgets: Map<Id, WidgetRect>,
    hits: HitsView,
    events: Seq<PointerEvent>,
    decidedly_dragging: bool,
    state: InteractionState,
    id: Id,
)
    requires
        keyed_by_id(widgets),
        state.drag_id == Some(id),
        !widgets.contains_key(id),
    ensures
        ({
            let frame = resolve(prev, widgets, hits, events, decidedly_dragging, state);
            &&& id_of(frame.snapshot.dragged) != Some(id)
            &&& id_of(frame.snapshot.drag_started) != Some(id)
            &&& no_release(events) ==> frame.state.drag_id == Some(id)
                && frame.snapshot.dragged is None
        }),
{
    let start = Gesture { state: forget_lost_click(widgets, state), clicked: None };
    if no_release(events) {
        lemma_replay_without_release(widgets, hits, start, events);
    }
}

/// A widget that is tracked for a click and is gone from the frame is
/// forgotten: it is not clicked in that frame, and it is not tracked after
/// the frame, unless the hit test found it for clicks all the same. Without
/// a press in that frame, no widget is tracked for a click after it.
pub proof fn theorem_click_target_gone_in_frame(
    prev: SnapshotView,
    widgets: Map<Id, WidgetRect>,
    hits: HitsView,
    events: Seq<PointerEvent>,
    decidedly_dragging: bool,
    state: InteractionState,
    id: Id,
)
    requires
        keyed_by_id(widgets),
        state.click_id == Some(id),
        !widgets.contains_key(id),
    ensures
        ({
            let frame = resolve(prev, widgets, hits, events, decidedly_dragging, state);
            &&& forget_lost_click(widgets, state).click_id is None
            &&& id_of(frame.snapshot.clicked) != Some(id)
            &&& no_press(events) ==> frame.state.click_id is None
            &&& id_of(hits.click) != Some(id) ==> frame.state.click_id != Some(id)
        }),
{
    let start = Gesture { state: forget_lost_click(widgets, state), clicked: None };
    theorem_results_are_live(prev, widgets, hits, events, decidedly_dragging, state);
    lemma_tracked_origin(widgets, hits, start, events);
}

/// A widget that is tracked for a click and is gone from the frame is
/// forgotten in that frame, and a release in the next frame does not click
/// it, even if it is back by then, unless a new press begins on it.
///
/// The hit test of the first frame names widgets of that frame only. In the
/// second frame no button goes down, or the hit test finds another widget
/// for clicks, or none.
pub proof fn theorem_click_target_gone(
    prev: SnapshotView,
    state: InteractionState,
    id: Id,
    widgets1: Map<Id, WidgetRect>,
    hits1: HitsView,
    events1: Seq<PointerEvent>,
    decidedly_dragging1: bool,
    widgets2: Map<Id, WidgetRect>,
    hits2: HitsView,
    events2: Seq<PointerEvent>,
    decidedly_dragging2: bool,
)
    requires
        keyed_by_id(widgets1),
        keyed_by_id(widgets2),
        state.click_id == Some(id),
        !widgets1.contains_key(id),
        hits1.within(widgets1),
        id_of(hits2.click) != Some(id) || no_press(events2),
    ensures
        ({
            let frame1 = resolve(prev, widgets1, hits1, events1, decidedly_dragging1, state);
            let frame2 = resolve(
                frame1.snapshot,
                widgets2,
                hits2,
                events2,
                decidedly_dragging2,
                frame1.state,
            );
            &&& id_of(frame1.snapshot.clicked) != Some(id)
            &&& frame1.state.click_id != Some(id)
            &&& no_press(events1) ==> frame1.state.click_id is None
            &&& id_of(frame2.snapshot.clicked) != Some(id)
            &&& frame2.state.click_id != Some(id)
        }),
{
    theorem_click_target_gone_in_frame(
        prev,
        widgets1,
        hits1,
        events1,
        decidedly_dragging1,
        state,
        id,
    );
    let frame1 = resolve(prev, widgets1, hits1, events1, decidedly_dragging1, state);
    let start2 = Gesture { state: forget_lost_click(widgets2, frame1.state), clicked: None };
    lemma_click_is_tracked(widgets2, hits2, start2, events2, id);
}

/// Where the pointer rests on widgets that react to nothing, one widget is
/// hovered: the topmost of them, which the hit test lists last.
pub proof fn theorem_passive_hover(
    prev: SnapshotView,
    widgets: Map<Id, WidgetRect>,
    hits: HitsView,
    events: Seq<PointerEvent>,
    decidedly_dragging: bool,
    state: InteractionState,
)
    requires
        hits.click is None,
        hits.drag is None,
    ensures
        ({
            let snapshot = resolve(prev, widgets, hits, events, decidedly_dragging, state).snapshot;
            let over = hits.contains_pointer;
            snapshot.clicked is None && snapshot.dragged is None ==> {
                &&& over.len() > 0 ==> snapshot.hovered == Map::<Id, WidgetRect>::empty().insert(
                    over.last().id,
                    over.last(),
                ) && snapshot.hovered.len() == 1
                &&& over.len() == 0 ==> snapshot.hovered == Map::<Id, WidgetRect>::empty()
            }
        }),
{
    let over = hits.contains_pointer;
    if over.len() > 0 {
        let hovered = Map::<Id, WidgetRect>::empty().insert(over.last().id, over.last());
        assert(hovered.dom() =~= set![over.last().id]);
    }
}

} // verus!
