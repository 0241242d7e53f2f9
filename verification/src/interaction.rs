//! How the pointer interacts with the widgets of a frame.
//!
//! A frame is resolved in one call of [`interact`]. What that call computes
//! is defined by [`resolve`](crate::model::resolve), a function on
//! mathematical values.

use crate::hit_test::WidgetHits;
use crate::id::Id;
use crate::id_map::{lists_values, IdMap};
use crate::input_state::{ends_released, no_press, no_release, InputState, PointerEvent};
use crate::memory::InteractionState;
use crate::model::{
    after_events, hovered_widgets, id_of, pointer_is_over, resolve, same_widget, with_widget,
    with_widgets, Gesture, SnapshotView,
};
use crate::theorems::{
    theorem_click_target_gone_in_frame, theorem_drag_edges, theorem_drag_target_gone,
    theorem_hover_suppression, theorem_maps_are_keyed_by_id, theorem_no_click_without_release,
    theorem_no_drag_after_release, theorem_passive_hover, theorem_results_are_live,
};
use crate::ui::{Grid, GridView, Ui};
use crate::widget_rect::{keyed_by_id, WidgetRect, WidgetRects};
use vstd::prelude::*;

verus! {

/// What the pointer does to the widgets in one frame.
///
/// It is computed once, at the start of the frame, and then read by every
/// widget of the frame.
#[derive(Debug)]
pub struct InteractionSnapshot {
    /// The widget that a release clicked in this frame, if any.
    pub clicked: Option<WidgetRect>,
    /// The widget that is dragged in this frame and was not dragged in the
    /// frame before. It is the widget in `dragged`.
    pub drag_started: Option<WidgetRect>,
    /// The widget that is dragged in this frame, from the frame in which its
    /// drag starts to the last frame before the one in which it ends.
    pub dragged: Option<WidgetRect>,
    /// The widget that was dragged in the frame before and is not dragged in
    /// this frame.
    pub drag_ended: Option<WidgetRect>,
    /// The widgets that the pointer hovers over, by id.
    pub hovered: IdMap<WidgetRect>,
    /// The widgets that the pointer is over, hovered or not, by id.
    pub contains_pointer: IdMap<WidgetRect>,
}

impl View for InteractionSnapshot {
    type V = SnapshotView;

    open spec fn view(&self) -> SnapshotView {
        SnapshotView {
            clicked: self.clicked,
            drag_started: self.drag_started,
            dragged: self.dragged,
            drag_ended: self.drag_ended,
            hovered: self.hovered@,
            contains_pointer: self.contains_pointer@,
        }
    }
}

impl Clone for InteractionSnapshot {
    /// A snapshot with the same content.
    fn clone(&self) -> (copy: Self)
        ensures
            copy@ == self@,
    {
        InteractionSnapshot {
            clicked: self.clicked,
            drag_started: self.drag_started,
            dragged: self.dragged,
            drag_ended: self.drag_ended,
            hovered: self.hovered.clone(),
            contains_pointer: self.contains_pointer.clone(),
        }
    }
}

impl Default for InteractionSnapshot {
    /// The snapshot to begin with, before any frame was resolved.
    fn default() -> (snapshot: Self)
        ensures
            snapshot@ == SnapshotView::empty(),
    {
        InteractionSnapshot {
            clicked: None,
            drag_started: None,
            dragged: None,
            drag_ended: None,
            hovered: IdMap::new(),
            contains_pointer: IdMap::new(),
        }
    }
}

/// The cells that name `widgets`, one for each, in their order.
pub open spec fn short_forms(widgets: Seq<WidgetRect>) -> Seq<Seq<char>> {
    Seq::new(widgets.len(), |i: int| widgets[i].id.short_form())
}

/// The table `grid` after one more row: what was in its current row, then a
/// cell with `name`, then a cell for each of `widgets`.
pub open spec fn with_row(grid: GridView, name: Seq<char>, widgets: Seq<WidgetRect>) -> GridView {
    GridView {
        name: grid.name,
        rows: grid.rows.push(grid.row.push(name) + short_forms(widgets)),
        row: Seq::empty(),
    }
}

/// `widget` as a list of one widget or of none.
pub open spec fn zero_or_one(widget: Option<WidgetRect>) -> Seq<WidgetRect> {
    match widget {
        Some(w) => seq![w],
        None => Seq::empty(),
    }
}

/// The table that shows `snapshot`. It is called `interaction` and has six
/// rows, one for each field of the snapshot, each with the field's name and
/// then its widgets. The widgets of `snapshot.hovered` come in the order of
/// `hovered`, those of `snapshot.contains_pointer` in the order of
/// `contains_pointer`.
pub open spec fn shown(
    snapshot: SnapshotView,
    hovered: Seq<WidgetRect>,
    contains_pointer: Seq<WidgetRect>,
) -> GridView {
    let grid = GridView::new("interaction"@);
    let grid = with_row(grid, "clicked"@, zero_or_one(snapshot.clicked));
    let grid = with_row(grid, "drag_started"@, zero_or_one(snapshot.drag_started));
    let grid = with_row(grid, "dragged"@, zero_or_one(snapshot.dragged));
    let grid = with_row(grid, "drag_ended"@, zero_or_one(snapshot.drag_ended));
    let grid = with_row(grid, "hovered"@, hovered);
    with_row(grid, "contains_pointer"@, contains_pointer)
}

/// `widget` as a list of one widget or of none.
fn list_of(widget: &Option<WidgetRect>) -> (list: Vec<&WidgetRect>)
    ensures
        list@.unref() == zero_or_one(*widget),
{
    let mut list: Vec<&WidgetRect> = Vec::new();
    if let Some(w) = widget {
        list.push(w);
    }
    assert(list@.unref() =~= zero_or_one(*widget));
    list
}

/// Adds a row to `grid`: a cell with `name`, then a cell for each of
/// `widgets`.
fn show_row(grid: &mut Grid, name: &str, widgets: &Vec<&WidgetRect>)
    ensures
        final(grid)@ == with_row(old(grid)@, name@, widgets@.unref()),
{
    grid.label(name);
    let mut i: usize = 0;
    while i < widgets.len()
        invariant
            i <= widgets.len(),
            grid@.name == old(grid)@.name,
            grid@.rows == old(grid)@.rows,
            grid@.row == old(grid)@.row.push(name@) + short_forms(
                widgets@.unref().take(i as int),
            ),
        decreases widgets.len() - i,
    {
        let text = widgets[i].id.short_debug_format();
        grid.label(text.as_str());
        i += 1;
        assert(short_forms(widgets@.unref().take(i as int)) =~= short_forms(
            widgets@.unref().take(i - 1),
        ).push(text@));
    }
    assert(widgets@.unref().take(i as int) =~= widgets@.unref());
    grid.end_row();
}

impl InteractionSnapshot {
    /// Shows the snapshot in `ui`, with the widgets of `self.hovered` in the
    /// order of `hovered` and those of `self.contains_pointer` in the order
    /// of `contains_pointer`.
    pub fn ui_in_order(
        &self,
        ui: &mut Ui,
        hovered: &Vec<&WidgetRect>,
        contains_pointer: &Vec<&WidgetRect>,
    )
        ensures
            final(ui)@ == old(ui)@.push(
                shown(self@, hovered@.unref(), contains_pointer@.unref()),
            ),
    {
        let mut grid = Grid::new("interaction");
        show_row(&mut grid, "clicked", &list_of(&self.clicked));
        show_row(&mut grid, "drag_started", &list_of(&self.drag_started));
        show_row(&mut grid, "dragged", &list_of(&self.dragged));
        show_row(&mut grid, "drag_ended", &list_of(&self.drag_ended));
        show_row(&mut grid, "hovered", hovered);
        show_row(&mut grid, "contains_pointer", contains_pointer);
        ui.show(grid);
    }

    /// Shows the snapshot in `ui`, as a table with a row for each field:
    /// the field's name, and then the short form of the id of each of its
    /// widgets. The widgets of `hovered` and of `contains_pointer` come in no
    /// particular order.
    pub fn ui(&self, ui: &mut Ui)
        ensures
            exists|hovered: Seq<WidgetRect>, contains_pointer: Seq<WidgetRect>|
                {
                    &&& lists_values(hovered, self@.hovered)
                    &&& lists_values(contains_pointer, self@.contains_pointer)
                    &&& final(ui)@ == old(ui)@.push(
                        #[trigger] shown(self@, hovered, contains_pointer),
                    )
                },
    {
        let hovered = self.hovered.values();
        let contains_pointer = self.contains_pointer.values();
        self.ui_in_order(ui, &hovered, &contains_pointer);
        assert(lists_values(hovered@.unref(), self@.hovered));
        assert(lists_values(contains_pointer@.unref(), self@.contains_pointer));
    }
}

/// Stores `widget`, if there is one, under its id.
fn insert_widget(map: &mut IdMap<WidgetRect>, widget: &Option<WidgetRect>)
    ensures
        final(map)@ == with_widget(old(map)@, *widget),
{
    if let Some(w) = widget {
        let _ = map.insert(w.id, *w);
    }
}

/// The widgets that the pointer is over, by id.
fn collect_pointer_is_over(hits: &WidgetHits) -> (over: IdMap<WidgetRect>)
    ensures
        over@ == pointer_is_over(hits@),
{
    let mut over = IdMap::new();
    let mut i: usize = 0;
    while i < hits.contains_pointer.len()
        invariant
            i <= hits.contains_pointer.len(),
            over@ == with_widgets(Map::empty(), hits.contains_pointer@.take(i as int)),
        decreases hits.contains_pointer.len() - i,
    {
        let widget = hits.contains_pointer[i];
        let _ = over.insert(widget.id, widget);
        i += 1;
        proof {
            let done = hits.contains_pointer@.take(i as int);
            assert(done.drop_last() == hits.contains_pointer@.take(i - 1));
            assert(done.last() == widget);
        }
    }
    assert(hits.contains_pointer@.take(i as int) == hits.contains_pointer@);
    insert_widget(&mut over, &hits.click);
    insert_widget(&mut over, &hits.drag);
    over
}

/// The widgets that the pointer hovers over, by id.
fn collect_hovered(
    clicked: &Option<WidgetRect>,
    dragged: &Option<WidgetRect>,
    hits: &WidgetHits,
) -> (hovered: IdMap<WidgetRect>)
    ensures
        hovered@ == hovered_widgets(*clicked, *dragged, hits@),
{
    let mut hovered = IdMap::new();
    if clicked.is_some() || dragged.is_some() {
        // While a widget is clicked or dragged, nothing else is hovered.
        insert_widget(&mut hovered, clicked);
        insert_widget(&mut hovered, dragged);
    } else if hits.click.is_some() || hits.drag.is_some() {
        // The pointer rests on one or two widgets that react to it.
        insert_widget(&mut hovered, &hits.click);
        insert_widget(&mut hovered, &hits.drag);
    } else if hits.contains_pointer.len() > 0 {
        // Whatever is topmost is hovered.
        let topmost = hits.contains_pointer[hits.contains_pointer.len() - 1];
        let _ = hovered.insert(topmost.id, topmost);
    }
    hovered
}

/// Resolves a frame: finds the widgets that the pointer clicks, drags and
/// hovers over, and updates the widgets that its gesture is tracked on.
///
/// `prev_snapshot` is the snapshot of the frame before, `widgets` holds the
/// widgets of this frame, `hits` is this frame's hit test and `input` holds
/// what the pointer did since the frame before.
pub fn interact(
    prev_snapshot: &InteractionSnapshot,
    widgets: &WidgetRects,
    hits: &WidgetHits,
    input: &InputState,
    interaction: &mut InteractionState,
) -> (snapshot: InteractionSnapshot)
    ensures
        snapshot@ == resolve(
            prev_snapshot@,
            widgets@,
            hits@,
            input.pointer.pointer_events@,
            input.pointer.decidedly_dragging,
            *old(interaction),
        ).snapshot,
        *final(interaction) == resolve(
            prev_snapshot@,
            widgets@,
            hits@,
            input.pointer.pointer_events@,
            input.pointer.decidedly_dragging,
            *old(interaction),
        ).state,
        // The widgets that are clicked and dragged are widgets of this frame.
        snapshot.clicked matches Some(w) ==> widgets@.contains_key(w.id) && widgets@[w.id] == w,
        snapshot.dragged matches Some(w) ==> widgets@.contains_key(w.id) && widgets@[w.id] == w,
        // The hovered widgets, and those under the pointer, are each stored
        // under their own id.
        keyed_by_id(snapshot.hovered@),
        keyed_by_id(snapshot.contains_pointer@),
        // Without a release there is no click.
        no_release(input.pointer.pointer_events@) ==> snapshot.clicked is None,
        // A press and a release in the same frame do not make a drag.
        ends_released(input.pointer.pointer_events@) ==> snapshot.dragged is None
            && snapshot.drag_started is None && *final(interaction) == InteractionState::idle(),
        // A drag starts on the widget that is dragged, and ends on the widget
        // that was dragged and no longer is.
        snapshot.drag_started is Some ==> snapshot.drag_started == snapshot.dragged
            && !same_widget(snapshot.drag_started, prev_snapshot.dragged),
        snapshot.drag_ended is Some ==> snapshot.drag_ended == prev_snapshot.dragged
            && !same_widget(snapshot.drag_ended, snapshot.dragged),
        // While a widget is clicked or dragged, nothing else is hovered.
        snapshot.clicked is Some || snapshot.dragged is Some ==> forall|id: Id| #[trigger]
            snapshot.hovered@.contains_key(id) <==> id_of(snapshot.clicked) == Some(id)
                || id_of(snapshot.dragged) == Some(id),
        // Where the pointer rests on widgets that react to nothing, the
        // topmost of them is hovered, and it alone.
        snapshot.clicked is None && snapshot.dragged is None && hits.click is None
            && hits.drag is None && hits.contains_pointer.len() > 0 ==> snapshot.hovered@
            == Map::<Id, WidgetRect>::empty().insert(
            hits.contains_pointer@.last().id,
            hits.contains_pointer@.last(),
        ),
        // A widget that was to be dragged and is gone is not dragged, but it
        // stays tracked until a button goes up.
        old(interaction).drag_id matches Some(id) ==> !widgets@.contains_key(id) ==> {
            &&& id_of(snapshot.dragged) != Some(id)
            &&& no_release(input.pointer.pointer_events@) ==> final(interaction).drag_id
                == Some(id)
        },
        // A widget that was to be clicked and is gone is not clicked, and it
        // is forgotten.
        old(interaction).click_id matches Some(id) ==> !widgets@.contains_key(id) ==> {
            &&& id_of(snapshot.clicked) != Some(id)
            &&& no_press(input.pointer.pointer_events@) ==> final(interaction).click_id is None
            &&& id_of(hits.click) != Some(id) ==> final(interaction).click_id != Some(id)
        },
{
    proof {
        use_type_invariant(widgets);
        let events = input.pointer.pointer_events@;
        let dragging = input.pointer.decidedly_dragging;
        let state = *old(interaction);
        theorem_results_are_live(prev_snapshot@, widgets@, hits@, events, dragging, state);
        theorem_maps_are_keyed_by_id(prev_snapshot@, widgets@, hits@, events, dragging, state);
        if no_release(events) {
            theorem_no_click_without_release(
                prev_snapshot@,
                widgets@,
                hits@,
                events,
                dragging,
                state,
            );
        }
        if ends_released(events) {
            theorem_no_drag_after_release(prev_snapshot@, widgets@, hits@, events, dragging, state);
        }
        theorem_drag_edges(prev_snapshot@, widgets@, hits@, events, dragging, state);
        theorem_hover_suppression(prev_snapshot@, widgets@, hits@, events, dragging, state);
        if hits.click is None && hits.drag is None {
            theorem_passive_hover(prev_snapshot@, widgets@, hits@, events, dragging, state);
        }
        if let Some(id) = state.drag_id {
            if !widgets@.contains_key(id) {
                theorem_drag_target_gone(
                    prev_snapshot@,
                    widgets@,
                    hits@,
                    events,
                    dragging,
                    state,
                    id,
                );
            }
        }
        if let Some(id) = state.click_id {
            if !widgets@.contains_key(id) {
                theorem_click_target_gone_in_frame(
                    prev_snapshot@,
                    widgets@,
                    hits@,
                    events,
                    dragging,
                    state,
                    id,
                );
            }
        }
    }
    if let Some(id) = interaction.click_id {
        if !widgets.contains(id) {
            // The widget that was to be clicked is gone.
            interaction.click_id = None;
        }
    }
    // A widget that was to be dragged stays tracked even when it is gone:
    // while it is carried from one place to another it may be part of no
    // layout.

    let ghost start = Gesture { state: *interaction, clicked: None };
    let events = &input.pointer.pointer_events;
    let mut clicked: Option<WidgetRect> = None;

    // A press and a release in the same frame do not make a drag.
    let mut i: usize = 0;
    while i < events.len()
        invariant
            i <= events.len(),
            (Gesture { state: *interaction, clicked }) == after_events(
                widgets@,
                hits@,
                start,
                events@.take(i as int),
            ),
        decreases events.len() - i,
    {
        match events[i] {
            PointerEvent::Moved(_) => {},
            PointerEvent::Pressed { .. } => {
                if interaction.click_id.is_none() {
                    interaction.click_id = match hits.click {
                        Some(w) => Some(w.id),
                        None => None,
                    };
                }
                if interaction.drag_id.is_none() {
                    interaction.drag_id = match hits.drag {
                        Some(w) => Some(w.id),
                        None => None,
                    };
                }
            },
            PointerEvent::Released { click, .. } => {
                if click.is_some() {
                    if let Some(id) = interaction.click_id {
                        if let Some(widget) = widgets.get(id) {
                            clicked = Some(*widget);
                        }
                    }
                }
                interaction.drag_id = None;
                interaction.click_id = None;
            },
        }
        i += 1;
        proof {
            let done = events@.take(i as int);
            assert(done.drop_last() == events@.take(i - 1));
            assert(done.last() == events@[i - 1]);
        }
    }
    assert(events@.take(i as int) == events@);

    // Is something dragged?
    let mut dragged: Option<WidgetRect> = None;
    if let Some(id) = interaction.drag_id {
        if let Some(widget) = widgets.get(id) {
            let is_dragged = if widget.sense.click && widget.sense.drag {
                // The press may still become a click, so the decision waits
                // until the pointer has moved far enough.
                input.pointer.is_decidedly_dragging()
            } else {
                widget.sense.drag
            };
            if is_dragged {
                dragged = Some(*widget);
            }
        }
    }

    let drag_changed = match (&dragged, &prev_snapshot.dragged) {
        (Some(now), Some(before)) => now.id != before.id,
        (None, None) => false,
        _ => true,
    };
    let drag_ended = if drag_changed {
        prev_snapshot.dragged
    } else {
        None
    };
    let drag_started = if drag_changed {
        dragged
    } else {
        None
    };

    let contains_pointer = collect_pointer_is_over(hits);
    let hovered = collect_hovered(&clicked, &dragged, hits);

    InteractionSnapshot { clicked, drag_started, dragged, drag_ended, hovered, contains_pointer }
}

} // verus!
