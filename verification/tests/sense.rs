use stage2d::{ClipPolygon, Interactions, PointerButton, SenseShape, SenseShapeType, Stage};

type Rect = (i32, i32, i32, i32);
type TestStage = Stage<u32, (i32, i32), Rect>;

fn at(x: i32, y: i32) -> impl Fn(&SenseShape<Rect>) -> bool {
    move |shape| {
        let (left, top, width, height) = shape.geometry;
        x >= left && y >= top && x <= left + width && y <= top + height
    }
}

fn nowhere() -> impl Fn(&SenseShape<Rect>) -> bool {
    |_| false
}

#[test]
fn first_frame_resolves_no_hover() {
    let mut stage = TestStage::new((0, 0));
    let hit = at(50, 50);
    let answer = stage.rect_sense((0, 0, 100, 100), false, &hit);
    assert!(!answer.hovering);
    assert!(!answer.hover_started);
    assert!(answer.hovering_bypass);
    assert_eq!(stage.interactions().hovering, None);
    assert_eq!(stage.interactions().hover_started, None);
}

#[test]
fn second_frame_resolves_the_declared_shape() {
    let mut stage = TestStage::new((0, 0));
    let hit = at(50, 50);
    stage.rect_sense((0, 0, 100, 100), false, &hit);
    stage.start((0, 0), &hit);
    assert_eq!(stage.interactions().hovering, Some(0));
    assert_eq!(stage.interactions().hover_started, Some(0));
    assert_eq!(stage.interactions().hover_ended, None);
    let answer = stage.rect_sense((0, 0, 100, 100), false, &hit);
    assert!(answer.hovering);
    assert!(answer.hover_started);
    assert!(!answer.hover_ended);
    assert!(answer.hovering_bypass);
}

#[test]
fn topmost_of_two_overlapping_rects_wins() {
    let mut stage = TestStage::new((0, 0));
    let hit = at(50, 50);
    stage.rect_sense((0, 0, 100, 100), false, &hit);
    stage.rect_sense((25, 25, 100, 100), false, &hit);
    stage.start((0, 0), &hit);
    assert_eq!(stage.interactions().hovering, Some(1));
    assert_eq!(stage.find_top_old_sense(&hit), Some(1));
    assert_eq!(stage.find_top_old_sense(&at(10, 10)), Some(0));
    assert_eq!(stage.find_top_old_sense(&at(120, 120)), Some(1));
    assert_eq!(stage.find_top_old_sense(&at(300, 300)), None);
}

#[test]
fn hover_edges_fire_once() {
    let mut stage = TestStage::new((0, 0));
    let on_a = at(10, 10);
    let on_b = at(210, 10);
    let declare = |stage: &mut TestStage, hit: &dyn Fn(&SenseShape<Rect>) -> bool| {
        stage.rect_sense((0, 0, 100, 100), false, &hit);
        stage.rect_sense((200, 0, 100, 100), false, &hit);
    };
    declare(&mut stage, &on_a);
    stage.start((0, 0), &on_a);
    assert_eq!(stage.interactions().hovering, Some(0));
    assert_eq!(stage.interactions().hover_started, Some(0));
    declare(&mut stage, &on_a);
    stage.start((0, 0), &on_a);
    assert_eq!(stage.interactions().hovering, Some(0));
    assert_eq!(stage.interactions().hover_started, None);
    assert_eq!(stage.interactions().hover_ended, None);
    declare(&mut stage, &on_b);
    stage.start((0, 0), &on_b);
    assert_eq!(stage.interactions().hovering, Some(1));
    assert_eq!(stage.interactions().hover_started, Some(1));
    assert_eq!(stage.interactions().hover_ended, Some(0));
    declare(&mut stage, &nowhere());
    stage.start((0, 0), &nowhere());
    assert_eq!(stage.interactions().hovering, None);
    assert_eq!(stage.interactions().hover_started, None);
    assert_eq!(stage.interactions().hover_ended, Some(1));
}

#[test]
fn resolution_uses_the_previous_frame_only() {
    let mut stage = TestStage::new((0, 0));
    let hit = at(50, 50);
    stage.rect_sense((0, 0, 100, 100), false, &hit);
    stage.start((0, 0), &hit);
    assert_eq!(stage.interactions().hovering, Some(0));
    stage.start((0, 0), &hit);
    assert_eq!(stage.interactions().hovering, None);
    assert_eq!(stage.interactions().hover_ended, Some(0));
}

#[test]
fn identities_count_from_zero_each_frame() {
    let mut stage = TestStage::new((0, 0));
    let hit = at(250, 50);
    stage.rect_sense((0, 0, 100, 100), false, &hit);
    stage.ellipse_sense((100, 0, 100, 100), true, &hit);
    let third = stage.rect_sense((200, 0, 100, 100), false, &hit);
    assert!(third.hovering_bypass);
    assert!(!third.hovering);
    stage.start((0, 0), &hit);
    assert_eq!(stage.interactions().hovering, Some(2));
    let first = stage.rect_sense((200, 0, 100, 100), false, &hit);
    assert!(!first.hovering);
    stage.rect_sense((0, 0, 1, 1), false, &hit);
    let third = stage.rect_sense((0, 0, 1, 1), false, &hit);
    assert!(third.hovering);
    assert!(!third.hovering_bypass);
}

#[test]
fn shape_kind_and_centering_are_recorded() {
    let mut stage = TestStage::new((0, 0));
    let seen = std::cell::RefCell::new(Vec::new());
    let hit = |shape: &SenseShape<Rect>| {
        seen.borrow_mut().push((shape.typ, shape.centered, shape.geometry));
        false
    };
    stage.rect_sense((1, 2, 3, 4), false, &hit);
    stage.ellipse_sense((5, 6, 7, 8), true, &hit);
    stage.add_sense(
        SenseShape { typ: SenseShapeType::Ellipse, centered: false, geometry: (9, 9, 9, 9) },
        &hit,
    );
    assert_eq!(
        *seen.borrow(),
        vec![
            (SenseShapeType::Rect, false, (1, 2, 3, 4)),
            (SenseShapeType::Ellipse, true, (5, 6, 7, 8)),
            (SenseShapeType::Ellipse, false, (9, 9, 9, 9)),
        ]
    );
    seen.borrow_mut().clear();
    stage.start((0, 0), &hit);
    assert_eq!(
        *seen.borrow(),
        vec![
            (SenseShapeType::Ellipse, false, (9, 9, 9, 9)),
            (SenseShapeType::Ellipse, true, (5, 6, 7, 8)),
            (SenseShapeType::Rect, false, (1, 2, 3, 4)),
        ]
    );
}

#[test]
fn scan_stops_at_the_topmost_hit() {
    let mut stage = TestStage::new((0, 0));
    let hit = at(50, 50);
    stage.rect_sense((0, 0, 100, 100), false, &hit);
    stage.rect_sense((0, 0, 100, 100), false, &hit);
    stage.rect_sense((500, 500, 1, 1), false, &hit);
    stage.start((0, 0), &nowhere());
    let calls = std::cell::Cell::new(0);
    let counting = |shape: &SenseShape<Rect>| {
        calls.set(calls.get() + 1);
        hit(shape)
    };
    assert_eq!(stage.find_top_old_sense(&counting), Some(1));
    assert_eq!(calls.get(), 2);
}

#[test]
fn press_holds_the_region_under_the_pointer() {
    let mut stage = TestStage::new((0, 0));
    let hit = at(50, 50);
    stage.rect_sense((0, 0, 100, 100), false, &hit);
    stage.start((0, 0), &hit);
    assert!(!stage.mouse_down());
    stage.pointer_pressed(PointerButton::Primary, &hit);
    assert!(stage.mouse_down());
    assert!(!stage.right_mouse_down());
    assert_eq!(stage.interactions().holding, None);

    stage.rect_sense((0, 0, 100, 100), false, &hit);
    stage.start((0, 0), &hit);
    assert_eq!(stage.interactions().holding, Some(0));
    assert_eq!(stage.interactions().click_started, Some(0));
    assert_eq!(stage.interactions().click_ended, None);
    let answer = stage.rect_sense((0, 0, 100, 100), false, &hit);
    assert!(answer.holding);
    assert!(answer.click_started);
    assert!(!answer.right_holding);

    stage.start((0, 0), &hit);
    assert_eq!(stage.interactions().holding, Some(0));
    assert_eq!(stage.interactions().click_started, None);

    stage.pointer_released(PointerButton::Primary);
    assert!(!stage.mouse_down());
    let answer = stage.rect_sense((0, 0, 100, 100), false, &hit);
    assert!(answer.holding);
    stage.start((0, 0), &hit);
    assert_eq!(stage.interactions().holding, None);
    assert_eq!(stage.interactions().click_started, None);
    assert_eq!(stage.interactions().click_ended, Some(0));
}

#[test]
fn press_on_nothing_holds_nothing() {
    let mut stage = TestStage::new((0, 0));
    let hit = at(50, 50);
    stage.rect_sense((0, 0, 100, 100), false, &hit);
    stage.start((0, 0), &hit);
    stage.pointer_pressed(PointerButton::Primary, &at(500, 500));
    assert!(!stage.mouse_down());
}

#[test]
fn secondary_button_is_tracked_apart() {
    let mut stage = TestStage::new((0, 0));
    let hit = at(250, 50);
    stage.rect_sense((0, 0, 100, 100), false, &hit);
    stage.rect_sense((200, 0, 100, 100), false, &hit);
    stage.start((0, 0), &hit);
    stage.pointer_pressed(PointerButton::Secondary, &hit);
    assert!(stage.right_mouse_down());
    assert!(!stage.mouse_down());
    stage.start((0, 0), &nowhere());
    let state: Interactions<Option<u64>> = stage.interactions();
    assert_eq!(state.right_holding, Some(1));
    assert_eq!(state.right_click_started, Some(1));
    assert_eq!(state.right_click_ended, None);
    assert_eq!(state.holding, None);
    assert_eq!(state.click_started, None);
    stage.pointer_released(PointerButton::Secondary);
    stage.start((0, 0), &nowhere());
    assert_eq!(stage.interactions().right_holding, None);
    assert_eq!(stage.interactions().right_click_ended, Some(1));
}

#[test]
fn update_interactions_advances_one_frame() {
    let mut stage = TestStage::new((0, 0));
    let hit = at(50, 50);
    stage.rect_sense((0, 0, 100, 100), false, &hit);
    stage.start((0, 0), &hit);
    assert_eq!(stage.interactions().hover_started, Some(0));
    stage.update_interactions(&hit);
    assert_eq!(stage.interactions().hovering, Some(0));
    assert_eq!(stage.interactions().hover_started, None);
    stage.update_interactions(&nowhere());
    assert_eq!(stage.interactions().hovering, None);
    assert_eq!(stage.interactions().hover_ended, Some(0));
}

#[test]
fn new_stage_has_the_unused_clip() {
    let stage = TestStage::new((7, 7));
    assert_eq!(stage.clip_polygon_points(), &vec![(7, 7)]);
    assert_eq!(stage.clip_polygons(), &vec![ClipPolygon { start: 0, end: 0, parent: 0 }]);
}

#[test]
fn clips_nest_inside_the_active_clip() {
    let mut stage = TestStage::new((0, 0));
    let outside = stage.get_clip_id();
    stage.add_clip(vec![(0, 0), (10, 0), (10, 10)]);
    let first = stage.get_clip_id();
    assert_ne!(first, outside);
    stage.add_clip(vec![(1, 1), (2, 1), (2, 2), (1, 2)]);
    let second = stage.get_clip_id();
    assert_ne!(second, first);
    assert_eq!(
        stage.clip_polygons(),
        &vec![
            ClipPolygon { start: 0, end: 0, parent: 0 },
            ClipPolygon { start: 1, end: 4, parent: 0 },
            ClipPolygon { start: 4, end: 8, parent: 1 },
        ]
    );
    assert_eq!(stage.clip_polygon_points().len(), 8);
    assert_eq!(stage.clip_polygon_points()[4], (1, 1));

    stage.set_clip_id(outside);
    assert_eq!(stage.get_clip_id(), outside);
    stage.add_clip(vec![]);
    assert_eq!(stage.clip_polygons()[3], ClipPolygon { start: 8, end: 8, parent: 0 });
    stage.set_clip_id(first);
    stage.add_clip(vec![(5, 5)]);
    assert_eq!(stage.clip_polygons()[4], ClipPolygon { start: 8, end: 9, parent: 1 });
}

#[test]
fn start_drops_the_clips() {
    let mut stage = TestStage::new((0, 0));
    stage.add_clip(vec![(0, 0), (10, 0), (10, 10)]);
    stage.start((3, 4), &nowhere());
    assert_eq!(stage.clip_polygon_points(), &vec![(3, 4)]);
    assert_eq!(stage.clip_polygons(), &vec![ClipPolygon { start: 0, end: 0, parent: 0 }]);
    stage.add_clip(vec![(1, 1)]);
    assert_eq!(stage.clip_polygons()[1], ClipPolygon { start: 1, end: 2, parent: 0 });
}
