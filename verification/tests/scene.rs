use shape_pipeline::command::{ShapeCommand, ShapeOp};
use shape_pipeline::sampling::sample;
use shape_pipeline::scene::{Outcome, Scene};
use shape_pipeline::shape::{Geometry, Shape};
use shape_pipeline::RESOLUTION;

type Point = [f32; 3];

fn add(a: &Point, b: &Point) -> Point {
    [a[0] + b[0], a[1] + b[1], a[2] + b[2]]
}

fn approach(a: &Point, b: &Point) -> Point {
    [
        a[0] + (b[0] - a[0]) * 0.05,
        a[1] + (b[1] - a[1]) * 0.05,
        a[2] + (b[2] - a[2]) * 0.05,
    ]
}

fn circle(radius: f32) -> Vec<Point> {
    sample(&|i: usize| {
        let angle = 2.0 * std::f32::consts::PI * (i as f32 / RESOLUTION as f32);
        [radius * angle.cos(), radius * angle.sin(), 0.0]
    })
}

fn circle_shape(radius: f32, created_at: u128) -> Shape<Point> {
    Shape::new(circle(radius), created_at, [0.0, 0.0, 0.0])
}

fn registered(scene: &mut Scene<Point>, shape: Shape<Point>) -> usize {
    match scene.apply(ShapeCommand::Register(shape), &add) {
        Outcome::Registered { handle } => handle,
        other => panic!("not registered: {:?}", other),
    }
}

fn close(a: &Point, b: &Point) -> bool {
    (a[0] - b[0]).abs() < 1e-4 && (a[1] - b[1]).abs() < 1e-4 && (a[2] - b[2]).abs() < 1e-4
}

#[test]
fn new_shape_is_at_rest_and_unrevealed() {
    let shape = circle_shape(2.0, 77);
    assert_eq!(shape.external_id, 77);
    assert_eq!(shape.created_at, 77);
    assert_eq!(shape.draw_after, None);
    assert_eq!(shape.draw_progress, 0);
    assert_eq!(shape.center, [0.0, 0.0, 0.0]);
    assert!(matches!(shape.geometry, Geometry::Fixed { .. }));
    assert_eq!(shape.geometry.origin_points().len(), RESOLUTION);
}

#[test]
fn registry_and_store_counts_agree() {
    let mut scene: Scene<Point> = Scene::new();
    assert_eq!(scene.registry.len(), 0);
    assert_eq!(scene.store.len(), 0);
    let cmds = vec![
        ShapeCommand::Register(circle_shape(1.0, 1)),
        ShapeCommand::Register(circle_shape(2.0, 2)),
        ShapeCommand::Register(circle_shape(3.0, 3)),
        ShapeCommand::clear_shape(2),
        ShapeCommand::clear_shape(2),
        ShapeCommand::Register(circle_shape(4.0, 4)),
        ShapeCommand::clear_all_shapes(),
        ShapeCommand::Register(circle_shape(5.0, 5)),
    ];
    let expected = [1usize, 2, 3, 2, 2, 3, 0, 1];
    for (cmd, count) in cmds.into_iter().zip(expected) {
        scene.apply(cmd, &add);
        assert_eq!(scene.registry.len(), count);
        assert_eq!(scene.store.len(), count);
    }
}

#[test]
fn register_stores_under_next_handle() {
    let mut scene: Scene<Point> = Scene::new();
    let a = registered(&mut scene, circle_shape(1.0, 10));
    let b = registered(&mut scene, circle_shape(2.0, 20));
    assert_eq!(a, 0);
    assert_eq!(b, 1);
    assert_eq!(scene.registry.resolve(10), Some(0));
    assert_eq!(scene.registry.resolve(20), Some(1));
    assert_eq!(scene.store.get(1).unwrap().external_id, 20);
    assert_eq!(scene.store.get(0).unwrap().geometry.origin_points()[0], [1.0, 0.0, 0.0]);
}

#[test]
fn duplicate_identifier_is_dropped() {
    let mut scene: Scene<Point> = Scene::new();
    registered(&mut scene, circle_shape(1.0, 10));
    let outcome = scene.apply(ShapeCommand::Register(circle_shape(9.0, 10)), &add);
    assert_eq!(outcome, Outcome::DuplicateId);
    assert_eq!(scene.store.len(), 1);
    assert_eq!(scene.registry.len(), 1);
    assert_eq!(scene.store.get(0).unwrap().geometry.origin_points()[0], [1.0, 0.0, 0.0]);
}

#[test]
fn draw_reveals_one_point_per_frame() {
    let mut scene: Scene<Point> = Scene::new();
    let x = registered(&mut scene, circle_shape(2.0, 5));
    assert_eq!(scene.apply(ShapeCommand::draw(5), &add), Outcome::Applied);
    assert_eq!(scene.store.get(x).unwrap().draw_after, Some(0));

    let frame = scene.tick(5, &approach);
    assert_eq!(frame, vec![Some(1)]);
    assert_eq!(scene.store.get(x).unwrap().draw_progress, 1);

    for k in 2..=RESOLUTION {
        let frame = scene.tick(5 + k as u128, &approach);
        assert_eq!(frame, vec![Some(k)]);
        assert_eq!(scene.store.get(x).unwrap().draw_progress, k);
    }
    let expected = circle(2.0);
    assert_eq!(scene.store.get(x).unwrap().geometry.origin_points(), &expected);

    for _ in 0..3 {
        let frame = scene.tick(10_000, &approach);
        assert_eq!(frame, vec![Some(RESOLUTION)]);
        assert_eq!(scene.store.get(x).unwrap().draw_progress, RESOLUTION);
    }
}

#[test]
fn undrawn_shape_is_never_shown() {
    let mut scene: Scene<Point> = Scene::new();
    let x = registered(&mut scene, circle_shape(2.0, 5));
    for k in 0..10u128 {
        assert_eq!(scene.tick(1_000_000_000 * k, &approach), vec![None]);
    }
    assert_eq!(scene.store.get(x).unwrap().draw_progress, 0);
}

#[test]
fn reveal_waits_for_the_delay() {
    let mut scene: Scene<Point> = Scene::new();
    let x = registered(&mut scene, circle_shape(2.0, 1_000));
    let op = ShapeCommand::Op(ShapeOp::DrawAfter { id: 1_000, millis: 5 });
    assert_eq!(scene.apply(op, &add), Outcome::Applied);
    assert_eq!(scene.tick(0, &approach), vec![None]);
    assert_eq!(scene.tick(1_000 + 4_999_999, &approach), vec![None]);
    assert_eq!(scene.store.get(x).unwrap().draw_progress, 0);
    assert_eq!(scene.tick(1_000 + 5_000_000, &approach), vec![Some(1)]);
    assert_eq!(scene.tick(1_000 + 5_000_001, &approach), vec![Some(2)]);
    assert!(scene.store.get(x).unwrap().is_due(1_000 + 5_000_000));
    assert!(!scene.store.get(x).unwrap().is_due(1_000 + 4_999_999));
}

#[test]
fn delay_of_the_greatest_length_does_not_overflow() {
    let mut shape = circle_shape(1.0, 0);
    shape.set_draw_after(u64::MAX);
    assert!(!shape.is_due(u64::MAX as u128 * 1_000_000 - 1));
    assert!(shape.is_due(u64::MAX as u128 * 1_000_000));
}

#[test]
fn convert_removes_target_and_morphs_for_resolution_frames() {
    let mut scene: Scene<Point> = Scene::new();
    let a = registered(&mut scene, circle_shape(1.0, 100));
    let b = registered(&mut scene, circle_shape(3.0, 200));
    scene.apply(ShapeCommand::draw(100), &add);
    scene.apply(ShapeCommand::draw(200), &add);
    scene.tick(300, &approach);
    assert_eq!(scene.store.get(a).unwrap().draw_progress, 1);

    let outcome = scene.apply(ShapeCommand::convert_shape(100, 200), &add);
    assert_eq!(outcome, Outcome::Applied);
    assert_eq!(scene.registry.resolve(200), None);
    assert!(!scene.store.contains(b));
    assert_eq!(scene.registry.resolve(100), Some(a));
    assert_eq!(scene.store.len(), 1);
    assert_eq!(scene.registry.len(), 1);
    {
        let from = scene.store.get(a).unwrap();
        assert_eq!(from.draw_progress, 0);
        match &from.geometry {
            Geometry::Moving { current, target } => {
                assert_eq!(current, &circle(1.0));
                assert_eq!(target, &circle(3.0));
            }
            Geometry::Fixed { .. } => panic!("the source does not move"),
        }
    }

    for k in 1..RESOLUTION {
        let frame = scene.tick(1_000, &approach);
        assert_eq!(frame, vec![Some(RESOLUTION), None]);
        let from = scene.store.get(a).unwrap();
        assert_eq!(from.draw_progress, k);
        assert!(matches!(from.geometry, Geometry::Moving { .. }));
    }
    let frame = scene.tick(1_000, &approach);
    assert_eq!(frame, vec![Some(RESOLUTION), None]);
    let from = scene.store.get(a).unwrap();
    assert_eq!(from.draw_progress, RESOLUTION);
    let wanted = circle(3.0);
    match &from.geometry {
        Geometry::Fixed { points } => {
            assert_eq!(points.len(), RESOLUTION);
            for (p, w) in points.iter().zip(&wanted) {
                assert!(close(p, w), "{:?} is not near {:?}", p, w);
            }
        }
        Geometry::Moving { .. } => panic!("the morph has not ended"),
    }

    scene.tick(1_000, &approach);
    let from = scene.store.get(a).unwrap();
    assert!(matches!(from.geometry, Geometry::Fixed { .. }));
    assert_eq!(from.draw_progress, RESOLUTION);
}

#[test]
fn one_morph_step_covers_a_twentieth_of_the_way() {
    let mut shape: Shape<Point> = Shape::new(vec![[0.0, 0.0, 0.0], [4.0, 8.0, 0.0]], 1, [0.0; 3]);
    shape.morph_into(vec![[20.0, 40.0, -20.0]]);
    let shown = shape.advance(0, &approach);
    assert_eq!(shown, Some(2));
    assert_eq!(shape.draw_progress, 1);
    match &shape.geometry {
        Geometry::Moving { current, target } => {
            assert_eq!(current, &vec![[1.0, 2.0, -1.0], [4.0, 8.0, 0.0]]);
            assert_eq!(target, &vec![[20.0, 40.0, -20.0]]);
        }
        Geometry::Fixed { .. } => panic!("the shape does not move"),
    }
}

#[test]
fn convert_captures_the_moving_side_of_a_moving_target() {
    let mut scene: Scene<Point> = Scene::new();
    let a = registered(&mut scene, Shape::new(vec![[0.0; 3]], 1, [0.0; 3]));
    registered(&mut scene, Shape::new(vec![[1.0; 3]], 2, [0.0; 3]));
    registered(&mut scene, Shape::new(vec![[2.0; 3]], 3, [0.0; 3]));
    scene.apply(ShapeCommand::convert_shape(2, 3), &add);
    scene.apply(ShapeCommand::convert_shape(1, 2), &add);
    assert_eq!(scene.store.len(), 1);
    match &scene.store.get(a).unwrap().geometry {
        Geometry::Moving { current, target } => {
            assert_eq!(current, &vec![[0.0; 3]]);
            assert_eq!(target, &vec![[1.0; 3]]);
        }
        Geometry::Fixed { .. } => panic!("the source does not move"),
    }
}

#[test]
fn convert_into_itself_removes_the_shape() {
    let mut scene: Scene<Point> = Scene::new();
    registered(&mut scene, circle_shape(1.0, 100));
    let outcome = scene.apply(ShapeCommand::convert_shape(100, 100), &add);
    assert_eq!(outcome, Outcome::Applied);
    assert!(scene.store.is_empty());
    assert!(scene.registry.is_empty());
}

#[test]
fn unknown_identifier_changes_nothing() {
    let mut scene: Scene<Point> = Scene::new();
    let a = registered(&mut scene, circle_shape(1.0, 100));
    scene.apply(ShapeCommand::draw(100), &add);
    scene.tick(100, &approach);
    let before = scene.store.get(a).unwrap().clone();
    let ops = vec![
        ShapeCommand::draw(7),
        ShapeCommand::Op(ShapeOp::DrawAfter { id: 7, millis: 3 }),
        ShapeCommand::transition(7, [1.0, 1.0, 1.0]),
        ShapeCommand::clear_shape(7),
        ShapeCommand::convert_shape(100, 7),
        ShapeCommand::convert_shape(7, 100),
        ShapeCommand::convert_shape(7, 8),
    ];
    for op in ops {
        assert_eq!(scene.apply(op, &add), Outcome::UnknownId);
        assert_eq!(scene.store.len(), 1);
        assert_eq!(scene.registry.len(), 1);
        assert_eq!(scene.registry.resolve(100), Some(a));
        assert_eq!(scene.registry.resolve(7), None);
        assert_eq!(scene.store.get(a), Some(&before));
        assert_eq!(scene.store.handle_bound(), 1);
    }
}

#[test]
fn clear_all_forgets_every_identifier() {
    let mut scene: Scene<Point> = Scene::new();
    registered(&mut scene, circle_shape(1.0, 100));
    registered(&mut scene, circle_shape(2.0, 200));
    assert_eq!(scene.apply(ShapeCommand::clear_all_shapes(), &add), Outcome::Applied);
    assert!(scene.store.is_empty());
    assert!(scene.registry.is_empty());
    assert_eq!(scene.store.handle_bound(), 0);
    assert_eq!(scene.apply(ShapeCommand::draw(100), &add), Outcome::UnknownId);
    assert_eq!(scene.apply(ShapeCommand::clear_shape(200), &add), Outcome::UnknownId);
    assert_eq!(scene.apply(ShapeCommand::transition(100, [1.0; 3]), &add), Outcome::UnknownId);
    assert!(scene.store.is_empty());
    assert!(scene.registry.is_empty());
    assert_eq!(scene.tick(0, &approach), Vec::<Option<usize>>::new());
    assert_eq!(registered(&mut scene, circle_shape(1.0, 300)), 0);
}

#[test]
fn cleared_identifier_is_not_given_again() {
    let mut scene: Scene<Point> = Scene::new();
    registered(&mut scene, circle_shape(1.0, 100));
    registered(&mut scene, circle_shape(2.0, 200));
    scene.apply(ShapeCommand::clear_shape(100), &add);
    let again = scene.apply(ShapeCommand::Register(circle_shape(1.0, 100)), &add);
    assert_eq!(again, Outcome::DuplicateId);
    assert_eq!(scene.registry.resolve(100), None);
    assert_eq!(scene.store.len(), 1);
    scene.apply(ShapeCommand::clear_all_shapes(), &add);
    let again = scene.apply(ShapeCommand::Register(circle_shape(2.0, 200)), &add);
    assert_eq!(again, Outcome::DuplicateId);
    assert!(scene.store.is_empty());
    assert!(scene.registry.is_empty());
}

#[test]
fn clear_shape_removes_shape_and_entry() {
    let mut scene: Scene<Point> = Scene::new();
    let a = registered(&mut scene, circle_shape(1.0, 100));
    let b = registered(&mut scene, circle_shape(2.0, 200));
    assert_eq!(scene.apply(ShapeCommand::clear_shape(100), &add), Outcome::Applied);
    assert!(!scene.store.contains(a));
    assert!(scene.store.contains(b));
    assert_eq!(scene.registry.resolve(100), None);
    assert_eq!(scene.registry.resolve(200), Some(b));
    assert_eq!(registered(&mut scene, circle_shape(3.0, 300)), 2);
}

#[test]
fn transition_adds_the_accumulated_center() {
    let mut scene: Scene<Point> = Scene::new();
    let a = registered(&mut scene, Shape::new(vec![[0.0, 0.0, 0.0], [1.0, 2.0, 3.0]], 100, [0.0; 3]));
    scene.apply(ShapeCommand::transition(100, [1.0, 0.0, -1.0]), &add);
    {
        let s = scene.store.get(a).unwrap();
        assert_eq!(s.center, [1.0, 0.0, -1.0]);
        assert_eq!(s.geometry.origin_points(), &vec![[1.0, 0.0, -1.0], [2.0, 2.0, 2.0]]);
    }
    scene.apply(ShapeCommand::transition(100, [1.0, 1.0, 0.0]), &add);
    let s = scene.store.get(a).unwrap();
    assert_eq!(s.center, [2.0, 1.0, -1.0]);
    assert_eq!(s.geometry.origin_points(), &vec![[3.0, 1.0, -2.0], [4.0, 3.0, 1.0]]);
    assert_eq!(s.draw_progress, 0);
    assert_eq!(s.draw_after, None);
}

#[test]
fn transition_moves_both_sides_of_a_morph() {
    let mut shape: Shape<Point> = Shape::new(vec![[0.0; 3]], 1, [0.0; 3]);
    shape.morph_into(vec![[10.0, 10.0, 10.0]]);
    shape.translate(&[1.0, 2.0, 3.0], &add);
    assert_eq!(shape.center, [1.0, 2.0, 3.0]);
    assert_eq!(
        shape.geometry,
        Geometry::Moving { current: vec![[1.0, 2.0, 3.0]], target: vec![[11.0, 12.0, 13.0]] }
    );
}

#[test]
fn morph_blends_as_far_as_the_target_reaches() {
    let mut shape: Shape<Point> = Shape::new(vec![[0.0; 3], [0.0; 3], [5.0; 3]], 1, [0.0; 3]);
    shape.morph_into(vec![[20.0; 3], [40.0; 3]]);
    assert_eq!(shape.advance(0, &approach), Some(3));
    assert_eq!(shape.geometry.origin_points(), &vec![[1.0; 3], [2.0; 3], [5.0; 3]]);
}

#[test]
fn short_shape_shows_no_more_than_its_points() {
    let mut shape: Shape<Point> = Shape::new(vec![[0.0; 3], [1.0; 3]], 1, [0.0; 3]);
    shape.set_draw_after(0);
    assert_eq!(shape.advance(1, &approach), Some(1));
    assert_eq!(shape.advance(1, &approach), Some(2));
    assert_eq!(shape.advance(1, &approach), Some(2));
    assert_eq!(shape.draw_progress, 3);
    let empty: Shape<Point> = Shape::new(Vec::new(), 1, [0.0; 3]);
    let mut empty = empty;
    empty.set_draw_after(0);
    assert_eq!(empty.advance(1, &approach), Some(0));
}

#[test]
fn apply_all_reports_each_command_in_order() {
    let mut scene: Scene<Point> = Scene::new();
    let outcomes = scene.apply_all(
        vec![
            ShapeCommand::Register(circle_shape(1.0, 1)),
            ShapeCommand::draw(1),
            ShapeCommand::draw(2),
            ShapeCommand::Register(circle_shape(1.0, 1)),
            ShapeCommand::Register(circle_shape(1.0, 2)),
            ShapeCommand::clear_all_shapes(),
        ],
        &add,
    );
    assert_eq!(
        outcomes,
        vec![
            Outcome::Registered { handle: 0 },
            Outcome::Applied,
            Outcome::UnknownId,
            Outcome::DuplicateId,
            Outcome::Registered { handle: 1 },
            Outcome::Applied,
        ]
    );
    assert!(scene.store.is_empty());
    assert_eq!(scene.apply_all(Vec::new(), &add), Vec::new());
}

#[test]
fn resolve_replaces_identifiers_by_handles() {
    let mut scene: Scene<Point> = Scene::new();
    registered(&mut scene, circle_shape(1.0, 11));
    registered(&mut scene, circle_shape(1.0, 22));
    assert_eq!(
        scene.resolve(ShapeOp::ConvertShape { from: 22, to: 11 }),
        Some(ShapeOp::ConvertShape { from: 1, to: 0 })
    );
    assert_eq!(scene.resolve(ShapeOp::ConvertShape { from: 22, to: 33 }), None);
    assert_eq!(scene.resolve(ShapeOp::ClearShape(22)), Some(ShapeOp::ClearShape(1)));
    assert_eq!(
        scene.resolve(ShapeOp::Transition { id: 11, target: [1.0; 3] }),
        Some(ShapeOp::Transition { id: 0, target: [1.0; 3] })
    );
    assert_eq!(
        scene.resolve(ShapeOp::DrawAfter { id: 11, millis: 9 }),
        Some(ShapeOp::DrawAfter { id: 0, millis: 9 })
    );
    assert_eq!(scene.resolve(ShapeOp::DrawAfter { id: 12, millis: 9 }), None);
    assert_eq!(scene.resolve(ShapeOp::ClearAll), Some(ShapeOp::ClearAll));
}

#[test]
fn perform_on_a_dead_handle_changes_nothing() {
    let mut scene: Scene<Point> = Scene::new();
    let a = registered(&mut scene, circle_shape(1.0, 11));
    let before = scene.store.get(a).unwrap().clone();
    scene.perform(ShapeOp::ClearShape(5), &add);
    scene.perform(ShapeOp::DrawAfter { id: 5, millis: 1 }, &add);
    scene.perform(ShapeOp::Transition { id: 5, target: [1.0; 3] }, &add);
    scene.perform(ShapeOp::ConvertShape { from: a, to: 5 }, &add);
    assert_eq!(scene.store.get(a), Some(&before));
    assert_eq!(scene.registry.len(), 1);
    scene.perform(ShapeOp::ConvertShape { from: 5, to: a }, &add);
    assert!(scene.store.is_empty());
    assert!(scene.registry.is_empty());
}
