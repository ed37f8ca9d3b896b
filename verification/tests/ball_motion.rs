use mechanics::ball::{
    Ball, BallControlParams, BallControlType, BallMovementType, BallProperty, BallState, BallType,
    ENDING_DONE_EVENT, STARTING_DONE_EVENT, TAILING_SIZE,
};
use mechanics::vector::{Vector, COORD_MAX};

fn ball(movement_type: BallMovementType, pos: (i64, i64), v: (i64, i64)) -> Ball {
    Ball::new(
        BallType::Goal,
        BallProperty {
            radius: 10,
            pos: Vector::new(pos.0, pos.1),
            v: Vector::new(v.0, v.1),
            movement_type,
        },
        BallControlParams::default(),
        1,
        2,
        3,
    )
}

#[test]
fn event_codes_are_distinct() {
    assert_eq!(STARTING_DONE_EVENT, 0);
    assert_eq!(ENDING_DONE_EVENT, 1);
}

#[test]
fn property_validity() {
    let good = BallProperty {
        radius: 1,
        pos: Vector::new(0, 0),
        v: Vector::new(0, 0),
        movement_type: BallMovementType::Fixed,
    };
    assert!(good.is_valid());
    assert!(!BallProperty { radius: 0, ..good }.is_valid());
    assert!(!BallProperty { radius: -3, ..good }.is_valid());
    assert!(!BallProperty { radius: COORD_MAX + 1, ..good }.is_valid());
    assert!(!BallProperty { pos: Vector::new(COORD_MAX + 1, 0), ..good }.is_valid());
    assert!(!BallProperty { v: Vector::new(0, -COORD_MAX - 1), ..good }.is_valid());
    assert!(BallProperty { radius: COORD_MAX, ..good }.is_valid());
}

#[test]
fn movable_ball_travels_by_its_velocity() {
    let mut b = ball(BallMovementType::Movable, (1, 2), (3, -4));
    assert_eq!(b.travel(), Vector::new(4, -2));
    assert_eq!(b.property().pos, Vector::new(4, -2));
    assert_eq!(b.property().v, Vector::new(3, -4));
    assert_eq!(b.travel(), Vector::new(7, -6));
}

#[test]
fn fixed_balls_do_not_travel() {
    let mut fixed = ball(BallMovementType::Fixed, (1, 2), (3, -4));
    assert_eq!(fixed.travel(), Vector::new(1, 2));
    assert!(fixed.tailings().is_empty());
    let mut bowl = ball(BallMovementType::FixedReversed, (1, 2), (3, -4));
    assert_eq!(bowl.travel(), Vector::new(1, 2));
    assert_eq!(bowl.property().pos, Vector::new(1, 2));
}

#[test]
fn travel_saturates_at_the_edge_of_the_field() {
    let mut b = ball(BallMovementType::Movable, (COORD_MAX - 2, 0), (5, 0));
    assert_eq!(b.travel(), Vector::new(COORD_MAX, 0));
    assert!(b.property().is_valid());
}

#[test]
fn jump_places_any_ball() {
    let mut fixed = ball(BallMovementType::Fixed, (1, 2), (3, -4));
    fixed.jump(Vector::new(100, 200));
    assert_eq!(fixed.property().pos, Vector::new(100, 200));
    assert_eq!(fixed.property().v, Vector::new(3, -4));
    assert_eq!(fixed.tailings(), vec![Vector::new(100, 200)]);
}

#[test]
fn update_pos_and_update_v_set_the_property() {
    let mut b = ball(BallMovementType::Movable, (0, 0), (0, 0));
    b.update_pos(Vector::new(5, 6));
    b.update_v(Vector::new(-1, -2));
    assert_eq!(b.property().pos, Vector::new(5, 6));
    assert_eq!(b.property().v, Vector::new(-1, -2));
    assert_eq!(b.property().radius, 10);
    assert_eq!(b.property().movement_type, BallMovementType::Movable);
}

#[test]
fn trail_is_newest_first() {
    let mut b = ball(BallMovementType::Movable, (0, 0), (1, 0));
    assert!(b.tailings().is_empty());
    b.travel();
    b.travel();
    b.travel();
    assert_eq!(
        b.tailings(),
        vec![Vector::new(3, 0), Vector::new(2, 0), Vector::new(1, 0)]
    );
}

#[test]
fn trail_keeps_the_last_five_positions() {
    assert_eq!(TAILING_SIZE, 5);
    let mut b = ball(BallMovementType::Movable, (0, 0), (1, 0));
    for _ in 0..8 {
        b.travel();
    }
    assert_eq!(
        b.tailings(),
        vec![
            Vector::new(8, 0),
            Vector::new(7, 0),
            Vector::new(6, 0),
            Vector::new(5, 0),
            Vector::new(4, 0)
        ]
    );
}

#[test]
fn lifecycle_setters() {
    let mut b = ball(BallMovementType::Movable, (0, 0), (1, 0));
    assert_eq!(b.state(), BallState::Created);
    b.trigger_starting();
    assert_eq!(b.state(), BallState::Starting);
    b.trigger_anime(BallState::Running);
    assert_eq!(b.state(), BallState::Running);
    b.trigger_ending();
    assert_eq!(b.state(), BallState::Ending);
    b.trigger_anime(BallState::Dead);
    assert_eq!(b.state(), BallState::Dead);
    b.trigger_anime(BallState::Paused);
    assert_eq!(b.state(), BallState::Paused);
}

#[test]
fn type_names() {
    assert_eq!(BallType::Stone.to_string(), "stone");
    assert_eq!(BallType::Goal.to_string(), "goal");
    assert_eq!(BallType::Bomb.to_string(), "bomb");
    assert_eq!(BallControlType::Angle.to_string(), "angle");
    assert_eq!(BallControlType::Force.to_string(), "force");
    assert_eq!(BallControlType::Move2D.to_string(), "move_2d");
    assert_eq!(BallControlType::Move1D.to_string(), "move_1d");
}

#[test]
fn a_ball_without_controls_shows_nothing() {
    let b = ball(BallMovementType::Movable, (0, 0), (1, 0));
    assert!(b.control_displays().is_empty());
    let params = b.control_params();
    assert!(params.x.is_none() && params.y.is_none());
    assert!(params.force.is_none() && params.angle.is_none());
}

#[test]
fn control_displays_in_order() {
    let params = BallControlParams {
        x: Some((-5, 5)),
        y: Some((0, 12)),
        force: Some((1, 9)),
        angle: Some((-90, 90)),
    };
    let b = Ball::new(
        BallType::Stone,
        BallProperty {
            radius: 10,
            pos: Vector::new(0, 0),
            v: Vector::new(0, 0),
            movement_type: BallMovementType::Movable,
        },
        params,
        1,
        2,
        3,
    );
    let displays = b.control_displays();
    let got: Vec<(Option<BallType>, BallControlType, String)> = displays
        .iter()
        .map(|d| (d.ball_type, d.control_type, d.text.clone()))
        .collect();
    assert_eq!(
        got,
        vec![
            (Some(BallType::Stone), BallControlType::Move2D, "((-5, 5),(0, 12))".to_string()),
            (Some(BallType::Stone), BallControlType::Move1D, "(-5, 5)".to_string()),
            (Some(BallType::Stone), BallControlType::Move1D, "(0, 12)".to_string()),
            (Some(BallType::Stone), BallControlType::Angle, "(-90, 90)".to_string()),
            (Some(BallType::Stone), BallControlType::Force, "(1, 9)".to_string()),
        ]
    );
}

#[test]
fn control_displays_for_a_single_axis() {
    let params = BallControlParams { x: None, y: Some((i64::MIN, i64::MAX)), force: None, angle: None };
    let b = Ball::new(
        BallType::Bomb,
        BallProperty {
            radius: 10,
            pos: Vector::new(0, 0),
            v: Vector::new(0, 0),
            movement_type: BallMovementType::Fixed,
        },
        params,
        1,
        2,
        3,
    );
    let displays = b.control_displays();
    assert_eq!(displays.len(), 1);
    assert_eq!(displays[0].ball_type, Some(BallType::Bomb));
    assert_eq!(displays[0].control_type, BallControlType::Move1D);
    assert_eq!(displays[0].text, "(-9223372036854775808, 9223372036854775807)");
}
