use pointer_interaction::geometry::{Pos2, Rect};
use pointer_interaction::hit_test::WidgetHits;
use pointer_interaction::id::Id;
use pointer_interaction::input_state::{
    Click, InputState, PointerButton, PointerEvent, PointerState,
};
use pointer_interaction::interaction::{interact, InteractionSnapshot};
use pointer_interaction::memory::InteractionState;
use pointer_interaction::widget_rect::{Sense, WidgetRect, WidgetRects};

fn widget(id: u64, sense: Sense) -> WidgetRect {
    let left = (id as i32) * 100;
    WidgetRect {
        id: Id::new(id),
        rect: Rect::from_min_max(Pos2::new(left, 0), Pos2::new(left + 50, 20)),
        sense,
        enabled: true,
    }
}

fn frame_of(all: &[WidgetRect]) -> WidgetRects {
    let mut widgets = WidgetRects::new();
    for w in all {
        widgets.insert(*w);
    }
    widgets
}

fn hits_on(w: WidgetRect) -> WidgetHits {
    WidgetHits {
        contains_pointer: vec![w],
        click: if w.sense.click { Some(w) } else { None },
        drag: if w.sense.drag { Some(w) } else { None },
    }
}

fn input(events: Vec<PointerEvent>, decidedly_dragging: bool) -> InputState {
    InputState { pointer: PointerState { pointer_events: events, decidedly_dragging } }
}

fn moved() -> PointerEvent {
    PointerEvent::Moved(Pos2::new(5, 5))
}

fn pressed() -> PointerEvent {
    PointerEvent::Pressed { position: Pos2::new(5, 5), button: PointerButton::Primary }
}

fn released_with_click() -> PointerEvent {
    PointerEvent::Released {
        click: Some(Click { pos: Pos2::new(5, 5), count: 1 }),
        button: PointerButton::Primary,
    }
}

fn released_without_click() -> PointerEvent {
    PointerEvent::Released { click: None, button: PointerButton::Primary }
}

fn ids(map: &pointer_interaction::id_map::IdMap<WidgetRect>) -> Vec<u64> {
    let mut ids: Vec<u64> = map.values().iter().map(|w| w.id.value()).collect();
    ids.sort();
    ids
}

#[test]
fn click_and_drag_widget_is_clicked_on_release() {
    let a = widget(1, Sense::click_and_drag());
    let widgets = frame_of(&[a]);
    let hits = hits_on(a);
    let mut state = InteractionState::default();

    let frame1 = interact(
        &InteractionSnapshot::default(),
        &widgets,
        &hits,
        &input(vec![pressed()], false),
        &mut state,
    );
    assert_eq!(frame1.dragged, None);
    assert_eq!(frame1.drag_started, None);
    assert_eq!(frame1.drag_ended, None);
    assert_eq!(frame1.clicked, None);
    assert_eq!(ids(&frame1.hovered), vec![1]);
    assert_eq!(frame1.hovered.get(a.id), Some(&a));
    assert_eq!(state.click_id, Some(a.id));
    assert_eq!(state.drag_id, Some(a.id));

    let frame2 = interact(
        &frame1,
        &widgets,
        &hits,
        &input(vec![released_with_click()], false),
        &mut state,
    );
    assert_eq!(frame2.clicked, Some(a));
    assert_eq!(frame2.dragged, None);
    assert_eq!(frame2.drag_started, None);
    assert_eq!(frame2.drag_ended, None);
    assert_eq!(ids(&frame2.hovered), vec![1]);
    assert_eq!(state, InteractionState { click_id: None, drag_id: None });
}

#[test]
fn drag_only_widget_is_dragged_from_press_to_release() {
    let b = widget(2, Sense::drag());
    let widgets = frame_of(&[b]);
    let hits = hits_on(b);
    let mut state = InteractionState::default();

    let frame1 = interact(
        &InteractionSnapshot::default(),
        &widgets,
        &hits,
        &input(vec![pressed()], false),
        &mut state,
    );
    assert_eq!(frame1.dragged, Some(b));
    assert_eq!(frame1.drag_started, Some(b));
    assert_eq!(frame1.drag_ended, None);
    assert_eq!(frame1.clicked, None);
    assert_eq!(state.drag_id, Some(b.id));
    assert_eq!(state.click_id, None);

    let frame2 = interact(&frame1, &widgets, &hits, &input(vec![moved()], false), &mut state);
    assert_eq!(frame2.dragged, Some(b));
    assert_eq!(frame2.drag_started, None);
    assert_eq!(frame2.drag_ended, None);
    assert_eq!(state.drag_id, Some(b.id));

    let frame3 = interact(
        &frame2,
        &widgets,
        &hits,
        &input(vec![released_without_click()], false),
        &mut state,
    );
    assert_eq!(frame3.dragged, None);
    assert_eq!(frame3.drag_started, None);
    assert_eq!(frame3.drag_ended, Some(b));
    assert_eq!(frame3.clicked, None);
    assert_eq!(state, InteractionState::default());
}

#[test]
fn click_is_recognized_on_the_release_frame_only() {
    let a = widget(3, Sense::click());
    let widgets = frame_of(&[a, widget(4, Sense::click())]);
    let hits = hits_on(a);
    let mut state = InteractionState::default();

    let frame1 = interact(
        &InteractionSnapshot::default(),
        &widgets,
        &hits,
        &input(vec![moved(), pressed(), moved()], false),
        &mut state,
    );
    assert_eq!(frame1.clicked, None);
    assert_eq!(state.click_id, Some(a.id));

    let frame2 = interact(&frame1, &widgets, &hits, &input(vec![], false), &mut state);
    assert_eq!(frame2.clicked, None);
    assert_eq!(state.click_id, Some(a.id));

    let frame3 = interact(
        &frame2,
        &widgets,
        &hits,
        &input(vec![moved(), released_with_click()], false),
        &mut state,
    );
    assert_eq!(frame3.clicked, Some(a));
    assert_eq!(state.click_id, None);

    let frame4 = interact(&frame3, &widgets, &hits, &input(vec![], false), &mut state);
    assert_eq!(frame4.clicked, None);
}

#[test]
fn click_goes_to_the_widget_as_it_is_in_the_release_frame() {
    let a = widget(3, Sense::click());
    let mut state = InteractionState::default();
    let frame1 = interact(
        &InteractionSnapshot::default(),
        &frame_of(&[a]),
        &hits_on(a),
        &input(vec![pressed()], false),
        &mut state,
    );
    let mut moved_a = a;
    moved_a.rect = Rect::from_min_max(Pos2::new(7, 7), Pos2::new(9, 9));
    // The pointer has left the widget, which still gets the click.
    let frame2 = interact(
        &frame1,
        &frame_of(&[moved_a]),
        &WidgetHits::default(),
        &input(vec![released_with_click()], false),
        &mut state,
    );
    assert_eq!(frame2.clicked, Some(moved_a));
    assert_eq!(ids(&frame2.hovered), vec![3]);
    assert_eq!(frame2.hovered.get(a.id), Some(&moved_a));
    assert!(frame2.contains_pointer.is_empty());
}

#[test]
fn release_without_click_clicks_nothing_and_ends_the_gesture() {
    let a = widget(3, Sense::click());
    let widgets = frame_of(&[a]);
    let mut state = InteractionState { click_id: Some(a.id), drag_id: None };
    let frame = interact(
        &InteractionSnapshot::default(),
        &widgets,
        &hits_on(a),
        &input(vec![released_without_click()], false),
        &mut state,
    );
    assert_eq!(frame.clicked, None);
    assert_eq!(state, InteractionState { click_id: None, drag_id: None });
}

#[test]
fn press_and_release_in_one_frame_is_no_drag() {
    for sense in [Sense::drag(), Sense::click_and_drag()] {
        for decidedly_dragging in [false, true] {
            let b = widget(5, sense);
            let mut state = InteractionState::default();
            let frame = interact(
                &InteractionSnapshot::default(),
                &frame_of(&[b]),
                &hits_on(b),
                &input(vec![pressed(), released_without_click()], decidedly_dragging),
                &mut state,
            );
            assert_eq!(frame.dragged, None);
            assert_eq!(frame.drag_started, None);
            assert_eq!(frame.drag_ended, None);
            assert_eq!(state, InteractionState::default());
        }
    }
}

#[test]
fn press_and_click_release_in_one_frame_clicks() {
    let a = widget(5, Sense::click_and_drag());
    let mut state = InteractionState::default();
    let frame = interact(
        &InteractionSnapshot::default(),
        &frame_of(&[a]),
        &hits_on(a),
        &input(vec![pressed(), released_with_click()], false),
        &mut state,
    );
    assert_eq!(frame.clicked, Some(a));
    assert_eq!(frame.dragged, None);
    assert_eq!(frame.drag_started, None);
    assert_eq!(state, InteractionState::default());
}

#[test]
fn press_after_release_in_one_frame_begins_a_new_gesture() {
    let b = widget(5, Sense::drag());
    let c = widget(6, Sense::drag());
    let widgets = frame_of(&[b, c]);
    let mut state = InteractionState { click_id: None, drag_id: Some(b.id) };
    let mut prev = InteractionSnapshot::default();
    prev.dragged = Some(b);
    let frame = interact(
        &prev,
        &widgets,
        &hits_on(c),
        &input(vec![released_without_click(), pressed()], false),
        &mut state,
    );
    assert_eq!(frame.dragged, Some(c));
    assert_eq!(frame.drag_started, Some(c));
    assert_eq!(frame.drag_ended, Some(b));
    assert_eq!(state.drag_id, Some(c.id));
}

#[test]
fn second_press_keeps_the_tracked_widgets() {
    let a = widget(1, Sense::click_and_drag());
    let b = widget(2, Sense::click_and_drag());
    let widgets = frame_of(&[a, b]);
    let mut state = InteractionState { click_id: Some(a.id), drag_id: Some(a.id) };
    let _ = interact(
        &InteractionSnapshot::default(),
        &widgets,
        &hits_on(b),
        &input(vec![pressed()], false),
        &mut state,
    );
    assert_eq!(state, InteractionState { click_id: Some(a.id), drag_id: Some(a.id) });
}

#[test]
fn press_adopts_click_and_drag_widgets_independently() {
    let a = widget(1, Sense::click());
    let b = widget(2, Sense::drag());
    let widgets = frame_of(&[a, b]);
    let hits = WidgetHits { contains_pointer: vec![b, a], click: Some(a), drag: Some(b) };
    let mut state = InteractionState { click_id: None, drag_id: None };
    let frame = interact(
        &InteractionSnapshot::default(),
        &widgets,
        &hits,
        &input(vec![pressed()], false),
        &mut state,
    );
    assert_eq!(state, InteractionState { click_id: Some(a.id), drag_id: Some(b.id) });
    assert_eq!(frame.dragged, Some(b));
    assert_eq!(ids(&frame.hovered), vec![2]);

    // One of the two is tracked already: only the other is adopted.
    let mut state = InteractionState { click_id: None, drag_id: Some(a.id) };
    let _ = interact(
        &InteractionSnapshot::default(),
        &widgets,
        &hits,
        &input(vec![pressed()], false),
        &mut state,
    );
    assert_eq!(state, InteractionState { click_id: Some(a.id), drag_id: Some(a.id) });
}

#[test]
fn press_over_nothing_tracks_nothing() {
    let a = widget(1, Sense::click_and_drag());
    let mut state = InteractionState::default();
    let frame = interact(
        &InteractionSnapshot::default(),
        &frame_of(&[a]),
        &WidgetHits::default(),
        &input(vec![pressed(), released_with_click()], false),
        &mut state,
    );
    assert_eq!(state, InteractionState::default());
    assert_eq!(frame.clicked, None);
    assert_eq!(frame.dragged, None);
    assert!(frame.hovered.is_empty());
    assert!(frame.contains_pointer.is_empty());
}

#[test]
fn click_and_drag_widget_is_dragged_once_the_pointer_is_decidedly_dragging() {
    let a = widget(1, Sense::click_and_drag());
    let widgets = frame_of(&[a]);
    let hits = hits_on(a);
    let mut state = InteractionState::default();
    let frame1 = interact(
        &InteractionSnapshot::default(),
        &widgets,
        &hits,
        &input(vec![pressed()], false),
        &mut state,
    );
    assert_eq!(frame1.dragged, None);
    let frame2 = interact(&frame1, &widgets, &hits, &input(vec![moved()], true), &mut state);
    assert_eq!(frame2.dragged, Some(a));
    assert_eq!(frame2.drag_started, Some(a));
    assert_eq!(frame2.drag_ended, None);
    let frame3 = interact(&frame2, &widgets, &hits, &input(vec![moved()], true), &mut state);
    assert_eq!(frame3.dragged, Some(a));
    assert_eq!(frame3.drag_started, None);
    assert_eq!(frame3.drag_ended, None);
    // The drag has crossed the threshold, so the release is no click.
    let frame4 = interact(
        &frame3,
        &widgets,
        &hits,
        &input(vec![released_without_click()], true),
        &mut state,
    );
    assert_eq!(frame4.dragged, None);
    assert_eq!(frame4.drag_ended, Some(a));
    assert_eq!(frame4.clicked, None);
}

#[test]
fn widget_that_senses_nothing_is_never_dragged() {
    let a = widget(1, Sense::hover());
    let mut state = InteractionState { click_id: None, drag_id: Some(a.id) };
    let frame = interact(
        &InteractionSnapshot::default(),
        &frame_of(&[a]),
        &WidgetHits::default(),
        &input(vec![], true),
        &mut state,
    );
    assert_eq!(frame.dragged, None);
    assert_eq!(state.drag_id, Some(a.id));
}

#[test]
fn click_only_widget_tracked_for_a_drag_is_not_dragged() {
    let a = widget(1, Sense::click());
    let mut state = InteractionState { click_id: None, drag_id: Some(a.id) };
    let frame = interact(
        &InteractionSnapshot::default(),
        &frame_of(&[a]),
        &WidgetHits::default(),
        &input(vec![], true),
        &mut state,
    );
    assert_eq!(frame.dragged, None);
}

#[test]
fn drag_edges_pair_up() {
    let b = widget(2, Sense::drag());
    let widgets = frame_of(&[b]);
    let hits = hits_on(b);
    let mut state = InteractionState::default();
    let mut prev = InteractionSnapshot::default();
    let frames = vec![
        input(vec![], false),
        input(vec![pressed()], false),
        input(vec![moved()], false),
        input(vec![], true),
        input(vec![released_without_click()], false),
        input(vec![], false),
        input(vec![pressed()], false),
        input(vec![released_with_click(), pressed()], false),
        input(vec![released_with_click()], false),
    ];
    let mut starts = 0;
    let mut ends = 0;
    for frame_input in &frames {
        let frame = interact(&prev, &widgets, &hits, frame_input, &mut state);
        if let Some(started) = frame.drag_started {
            starts += 1;
            assert_eq!(frame.dragged, Some(started));
            assert_ne!(prev.dragged.map(|w| w.id), Some(started.id));
        }
        if let Some(ended) = frame.drag_ended {
            ends += 1;
            assert_eq!(prev.dragged, Some(ended));
            assert_ne!(frame.dragged.map(|w| w.id), Some(ended.id));
        }
        prev = frame;
    }
    assert_eq!(starts, 2);
    assert_eq!(ends, 2);
}

#[test]
fn dragged_widget_that_moves_stays_the_same_widget() {
    let b = widget(2, Sense::drag());
    let mut state = InteractionState { click_id: None, drag_id: Some(b.id) };
    let mut prev = InteractionSnapshot::default();
    prev.dragged = Some(b);
    let mut moved_b = b;
    moved_b.rect = Rect::from_min_max(Pos2::new(40, 40), Pos2::new(90, 60));
    let frame = interact(
        &prev,
        &frame_of(&[moved_b]),
        &hits_on(moved_b),
        &input(vec![moved()], false),
        &mut state,
    );
    assert_eq!(frame.dragged, Some(moved_b));
    assert_eq!(frame.drag_started, None);
    assert_eq!(frame.drag_ended, None);
}

#[test]
fn nothing_else_is_hovered_while_dragging() {
    let b = widget(2, Sense::drag());
    let c = widget(3, Sense::click());
    let d = widget(4, Sense::hover());
    let widgets = frame_of(&[b, c, d]);
    let mut state = InteractionState { click_id: None, drag_id: Some(b.id) };
    // The pointer is over `c` and `d` by now.
    let hits = WidgetHits { contains_pointer: vec![d, c], click: Some(c), drag: None };
    let frame = interact(
        &InteractionSnapshot::default(),
        &widgets,
        &hits,
        &input(vec![moved()], false),
        &mut state,
    );
    assert_eq!(frame.dragged, Some(b));
    assert_eq!(ids(&frame.hovered), vec![2]);
    assert_eq!(frame.hovered.len(), 1);
    assert_eq!(ids(&frame.contains_pointer), vec![3, 4]);
}

#[test]
fn clicked_and_dragged_widgets_are_both_hovered() {
    let a = widget(1, Sense::click());
    let b = widget(2, Sense::drag());
    let d = widget(4, Sense::hover());
    let widgets = frame_of(&[a, b, d]);
    let mut state = InteractionState { click_id: Some(a.id), drag_id: None };
    let hits = WidgetHits { contains_pointer: vec![d, b], click: None, drag: Some(b) };
    let frame = interact(
        &InteractionSnapshot::default(),
        &widgets,
        &hits,
        &input(vec![released_with_click(), pressed()], false),
        &mut state,
    );
    assert_eq!(frame.clicked, Some(a));
    assert_eq!(frame.dragged, Some(b));
    assert_eq!(ids(&frame.hovered), vec![1, 2]);
    assert_eq!(frame.hovered.get(a.id), Some(&a));
    assert_eq!(frame.hovered.get(b.id), Some(&b));
    assert_eq!(frame.hovered.get(d.id), None);
}

#[test]
fn resting_pointer_hovers_the_candidates() {
    let a = widget(1, Sense::click());
    let b = widget(2, Sense::drag());
    let d = widget(4, Sense::hover());
    let widgets = frame_of(&[a, b, d]);
    let mut state = InteractionState::default();
    let hits = WidgetHits { contains_pointer: vec![a, b, d], click: Some(a), drag: Some(b) };
    let frame = interact(
        &InteractionSnapshot::default(),
        &widgets,
        &hits,
        &input(vec![moved()], false),
        &mut state,
    );
    assert_eq!(frame.clicked, None);
    assert_eq!(frame.dragged, None);
    assert_eq!(ids(&frame.hovered), vec![1, 2]);
    assert_eq!(ids(&frame.contains_pointer), vec![1, 2, 4]);
    assert_eq!(state, InteractionState::default());

    let hits = WidgetHits { contains_pointer: vec![d], click: Some(a), drag: None };
    let frame = interact(&frame, &widgets, &hits, &input(vec![], false), &mut state);
    assert_eq!(ids(&frame.hovered), vec![1]);
}

#[test]
fn vanished_drag_target_stays_tracked_until_release() {
    let b = widget(2, Sense::drag());
    let other = widget(3, Sense::drag());
    let mut state = InteractionState::default();
    let frame1 = interact(
        &InteractionSnapshot::default(),
        &frame_of(&[b, other]),
        &hits_on(b),
        &input(vec![pressed()], false),
        &mut state,
    );
    assert_eq!(frame1.dragged, Some(b));

    // The widget is in the air: it is not part of the frame.
    let frame2 = interact(
        &frame1,
        &frame_of(&[other]),
        &hits_on(other),
        &input(vec![moved(), pressed()], false),
        &mut state,
    );
    assert_eq!(frame2.dragged, None);
    assert_eq!(frame2.drag_started, None);
    assert_eq!(frame2.drag_ended, Some(b));
    assert_eq!(state.drag_id, Some(b.id));

    // It is back, and dragged again.
    let frame3 = interact(
        &frame2,
        &frame_of(&[b, other]),
        &hits_on(other),
        &input(vec![moved()], false),
        &mut state,
    );
    assert_eq!(frame3.dragged, Some(b));
    assert_eq!(frame3.drag_started, Some(b));
    assert_eq!(frame3.drag_ended, None);

    let frame4 = interact(
        &frame3,
        &frame_of(&[other]),
        &hits_on(other),
        &input(vec![released_without_click()], false),
        &mut state,
    );
    assert_eq!(frame4.dragged, None);
    assert_eq!(frame4.drag_ended, Some(b));
    assert_eq!(state.drag_id, None);
}

#[test]
fn vanished_click_target_is_forgotten() {
    let a = widget(1, Sense::click());
    let other = widget(3, Sense::hover());
    let mut state = InteractionState::default();
    let frame1 = interact(
        &InteractionSnapshot::default(),
        &frame_of(&[a, other]),
        &hits_on(a),
        &input(vec![pressed()], false),
        &mut state,
    );
    assert_eq!(state.click_id, Some(a.id));

    let frame2 = interact(
        &frame1,
        &frame_of(&[other]),
        &hits_on(other),
        &input(vec![moved()], false),
        &mut state,
    );
    assert_eq!(state.click_id, None);
    assert_eq!(frame2.clicked, None);

    // The widget is back when the button goes up, but the click is lost.
    let frame3 = interact(
        &frame2,
        &frame_of(&[a, other]),
        &hits_on(a),
        &input(vec![released_with_click()], false),
        &mut state,
    );
    assert_eq!(frame3.clicked, None);
    assert_eq!(state.click_id, None);
}

#[test]
fn release_in_the_frame_where_the_click_target_is_gone_clicks_nothing() {
    let a = widget(1, Sense::click());
    let other = widget(3, Sense::hover());
    let mut state = InteractionState { click_id: Some(a.id), drag_id: None };
    let frame = interact(
        &InteractionSnapshot::default(),
        &frame_of(&[other]),
        &hits_on(other),
        &input(vec![released_with_click()], false),
        &mut state,
    );
    assert_eq!(frame.clicked, None);
    assert_eq!(state, InteractionState::default());
}

#[test]
fn only_the_topmost_passive_widget_is_hovered() {
    let below = widget(1, Sense::hover());
    let above = widget(2, Sense::hover());
    let widgets = frame_of(&[below, above]);
    let hits = WidgetHits { contains_pointer: vec![below, above], click: None, drag: None };
    let mut state = InteractionState::default();
    let frame = interact(
        &InteractionSnapshot::default(),
        &widgets,
        &hits,
        &input(vec![moved()], false),
        &mut state,
    );
    assert_eq!(frame.hovered.len(), 1);
    assert_eq!(frame.hovered.get(above.id), Some(&above));
    assert!(!frame.hovered.contains_key(below.id));
    assert_eq!(ids(&frame.contains_pointer), vec![1, 2]);
}

#[test]
fn pointer_over_nothing_gives_an_empty_snapshot() {
    let a = widget(1, Sense::click_and_drag());
    let mut state = InteractionState::default();
    let frame = interact(
        &InteractionSnapshot::default(),
        &frame_of(&[a]),
        &WidgetHits::default(),
        &input(vec![moved()], false),
        &mut state,
    );
    assert_eq!(frame.clicked, None);
    assert_eq!(frame.drag_started, None);
    assert_eq!(frame.dragged, None);
    assert_eq!(frame.drag_ended, None);
    assert!(frame.hovered.is_empty());
    assert_eq!(frame.hovered.len(), 0);
    assert!(frame.contains_pointer.is_empty());
    assert_eq!(state, InteractionState::default());
}

#[test]
fn contains_pointer_merges_the_candidates() {
    let a = widget(1, Sense::click());
    let b = widget(2, Sense::drag());
    let d = widget(4, Sense::hover());
    let hits = WidgetHits { contains_pointer: vec![d], click: Some(a), drag: Some(b) };
    let mut state = InteractionState::default();
    let frame = interact(
        &InteractionSnapshot::default(),
        &frame_of(&[a, b, d]),
        &hits,
        &input(vec![], false),
        &mut state,
    );
    assert_eq!(frame.contains_pointer.len(), 3);
    assert_eq!(frame.contains_pointer.get(a.id), Some(&a));
    assert_eq!(frame.contains_pointer.get(b.id), Some(&b));
    assert_eq!(frame.contains_pointer.get(d.id), Some(&d));
}

#[test]
fn contains_pointer_keeps_the_last_entry_of_an_id() {
    let first = widget(1, Sense::hover());
    let mut second = first;
    second.rect = Rect::from_min_max(Pos2::new(1, 1), Pos2::new(2, 2));
    let mut third = first;
    third.sense = Sense::drag();
    let mut state = InteractionState::default();

    let hits = WidgetHits { contains_pointer: vec![first, second], click: None, drag: None };
    let frame = interact(
        &InteractionSnapshot::default(),
        &frame_of(&[second]),
        &hits,
        &input(vec![], false),
        &mut state,
    );
    assert_eq!(frame.contains_pointer.len(), 1);
    assert_eq!(frame.contains_pointer.get(first.id), Some(&second));

    let hits =
        WidgetHits { contains_pointer: vec![first, second], click: None, drag: Some(third) };
    let frame = interact(
        &InteractionSnapshot::default(),
        &frame_of(&[third]),
        &hits,
        &input(vec![], false),
        &mut state,
    );
    assert_eq!(frame.contains_pointer.len(), 1);
    assert_eq!(frame.contains_pointer.get(first.id), Some(&third));
    assert_eq!(frame.hovered.get(first.id), Some(&third));
}

#[test]
fn hit_on_a_widget_outside_the_frame_is_tracked_but_yields_nothing() {
    let ghost = widget(9, Sense::click_and_drag());
    let a = widget(1, Sense::hover());
    let mut state = InteractionState::default();
    let frame = interact(
        &InteractionSnapshot::default(),
        &frame_of(&[a]),
        &hits_on(ghost),
        &input(vec![pressed()], true),
        &mut state,
    );
    assert_eq!(state, InteractionState { click_id: Some(ghost.id), drag_id: Some(ghost.id) });
    assert_eq!(frame.dragged, None);
    assert_eq!(frame.clicked, None);
    assert_eq!(ids(&frame.hovered), vec![9]);
}

#[test]
fn same_inputs_give_the_same_snapshot() {
    let a = widget(1, Sense::click_and_drag());
    let b = widget(2, Sense::drag());
    let widgets = frame_of(&[a, b]);
    let hits = WidgetHits { contains_pointer: vec![a, b], click: Some(a), drag: Some(b) };
    let events = input(vec![pressed(), moved(), released_with_click(), pressed()], true);
    let mut prev = InteractionSnapshot::default();
    prev.dragged = Some(a);

    let mut state1 = InteractionState { click_id: Some(b.id), drag_id: None };
    let mut state2 = state1;
    let one = interact(&prev, &widgets, &hits, &events, &mut state1);
    let two = interact(&prev, &widgets, &hits, &events, &mut state2);
    assert_eq!(state1, state2);
    assert_eq!(one.clicked, two.clicked);
    assert_eq!(one.drag_started, two.drag_started);
    assert_eq!(one.dragged, two.dragged);
    assert_eq!(one.drag_ended, two.drag_ended);
    assert_eq!(ids(&one.hovered), ids(&two.hovered));
    assert_eq!(ids(&one.contains_pointer), ids(&two.contains_pointer));

    assert_eq!(one.clicked, Some(b));
    assert_eq!(one.dragged, Some(b));
    assert_eq!(one.drag_started, Some(b));
    assert_eq!(one.drag_ended, Some(a));
    assert_eq!(state1, InteractionState { click_id: Some(a.id), drag_id: Some(b.id) });
}

#[test]
fn snapshot_clone_and_default() {
    let empty = InteractionSnapshot::default();
    assert_eq!(empty.clicked, None);
    assert_eq!(empty.drag_started, None);
    assert_eq!(empty.dragged, None);
    assert_eq!(empty.drag_ended, None);
    assert!(empty.hovered.is_empty());
    assert!(empty.contains_pointer.is_empty());

    let b = widget(2, Sense::drag());
    let mut state = InteractionState::default();
    let frame = interact(
        &empty,
        &frame_of(&[b]),
        &hits_on(b),
        &input(vec![pressed()], false),
        &mut state,
    );
    let copy = frame.clone();
    assert_eq!(copy.clicked, frame.clicked);
    assert_eq!(copy.drag_started, Some(b));
    assert_eq!(copy.dragged, Some(b));
    assert_eq!(copy.drag_ended, None);
    assert_eq!(copy.hovered.get(b.id), Some(&b));
    assert_eq!(copy.hovered.len(), 1);
    assert_eq!(copy.contains_pointer.get(b.id), Some(&b));
}

#[test]
fn every_short_event_list_gives_a_coherent_snapshot() {
    let kinds = [moved(), pressed(), released_with_click(), released_without_click()];
    let senses = [Sense::hover(), Sense::click(), Sense::drag(), Sense::click_and_drag()];
    let mut lists: Vec<Vec<PointerEvent>> = vec![vec![]];
    let mut longest: Vec<Vec<PointerEvent>> = vec![vec![]];
    for _ in 0..4 {
        let mut longer = Vec::new();
        for list in &longest {
            for kind in kinds {
                let mut next = list.clone();
                next.push(kind);
                longer.push(next);
            }
        }
        lists.extend(longer.iter().cloned());
        longest = longer;
    }
    assert_eq!(lists.len(), 1 + 4 + 16 + 64 + 256);

    let mut frames = 0;
    for events in &lists {
        for sense in senses {
            for decidedly_dragging in [false, true] {
                for mid_gesture in [false, true] {
                    let a = widget(1, sense);
                    let b = widget(2, Sense::click_and_drag());
                    let widgets = frame_of(&[a, b]);
                    let hits = hits_on(a);
                    let mut prev = InteractionSnapshot::default();
                    let mut state = InteractionState::default();
                    if mid_gesture {
                        prev.dragged = Some(b);
                        state = InteractionState { click_id: Some(b.id), drag_id: Some(b.id) };
                    }
                    let frame = interact(
                        &prev,
                        &widgets,
                        &hits,
                        &input(events.clone(), decidedly_dragging),
                        &mut state,
                    );
                    frames += 1;

                    let dragged_id = frame.dragged.map(|w| w.id);
                    let before_id = prev.dragged.map(|w| w.id);
                    if dragged_id == before_id {
                        assert_eq!(frame.drag_started, None);
                        assert_eq!(frame.drag_ended, None);
                    } else {
                        assert_eq!(frame.drag_started, frame.dragged);
                        assert_eq!(frame.drag_ended, prev.dragged);
                    }
                    for w in [frame.clicked, frame.dragged].into_iter().flatten() {
                        assert_eq!(widgets.get(w.id), Some(&w));
                        assert_eq!(frame.hovered.get(w.id), Some(&w));
                    }
                    if frame.clicked.is_some() || frame.dragged.is_some() {
                        for id in ids(&frame.hovered) {
                            assert!(
                                frame.clicked.map(|w| w.id.value()) == Some(id)
                                    || frame.dragged.map(|w| w.id.value()) == Some(id)
                            );
                        }
                    } else {
                        let mut candidates: Vec<u64> =
                            hits.click.iter().chain(&hits.drag).map(|w| w.id.value()).collect();
                        if candidates.is_empty() {
                            candidates.push(a.id.value());
                        }
                        candidates.dedup();
                        assert_eq!(ids(&frame.hovered), candidates);
                    }
                    assert_eq!(ids(&frame.contains_pointer), vec![1]);

                    let last_release =
                        events.iter().rposition(|e| matches!(e, PointerEvent::Released { .. }));
                    let last_press =
                        events.iter().rposition(|e| matches!(e, PointerEvent::Pressed { .. }));
                    match last_release {
                        None => {
                            assert_eq!(frame.clicked, None);
                            if mid_gesture {
                                assert_eq!(state.click_id, Some(b.id));
                                assert_eq!(state.drag_id, Some(b.id));
                            } else if last_press.is_some() {
                                assert_eq!(state.click_id, hits.click.map(|w| w.id));
                                assert_eq!(state.drag_id, hits.drag.map(|w| w.id));
                            } else {
                                assert_eq!(state, InteractionState::default());
                            }
                        }
                        Some(release) => {
                            if last_press.map_or(true, |press| press < release) {
                                assert_eq!(state, InteractionState::default());
                                assert_eq!(frame.dragged, None);
                                assert_eq!(frame.drag_started, None);
                            } else {
                                assert_eq!(state.click_id, hits.click.map(|w| w.id));
                                assert_eq!(state.drag_id, hits.drag.map(|w| w.id));
                            }
                        }
                    }
                }
            }
        }
    }
    assert_eq!(frames, 341 * 4 * 2 * 2);
}
