use mechanics::ball::{
    Ball, BallControlParams, BallMovementType, BallProperty, BallState, BallType, HIT_WINDOW,
};
use mechanics::vector::Vector;

fn stone(entity: u64) -> Ball {
    Ball::new(
        BallType::Stone,
        BallProperty {
            radius: 10,
            pos: Vector::new(0, 0),
            v: Vector::new(1, 0),
            movement_type: BallMovementType::Movable,
        },
        BallControlParams::default(),
        entity,
        entity + 1,
        entity + 2,
    )
}

#[test]
fn new_ball_is_created_and_allows_any_opponent() {
    let mut ball = stone(10);
    assert_eq!(ball.state(), BallState::Created);
    assert_eq!(ball.ball_type(), BallType::Stone);
    assert_eq!(ball.root_entity(), 10);
    assert_eq!(ball.bg_entity(), 11);
    assert_eq!(ball.dyn_entity(), 12);
    assert!(ball.check_hit_window(99));
    assert!(ball.check_hit_window(99));
}

#[test]
fn window_suppresses_five_checks_then_allows_the_sixth() {
    let mut ball = stone(1);
    ball.store_hit_entity(7);
    for _ in 0..HIT_WINDOW {
        assert!(!ball.check_hit_window(7));
    }
    assert!(ball.check_hit_window(7));
    // the entry is gone: the next check is allowed as well
    assert!(ball.check_hit_window(7));
}

#[test]
fn hit_window_is_five() {
    assert_eq!(HIT_WINDOW, 5);
}

#[test]
fn window_is_kept_per_opponent() {
    let mut ball = stone(1);
    ball.store_hit_entity(7);
    assert!(ball.check_hit_window(8));
    assert!(!ball.check_hit_window(7));
}

#[test]
fn storing_again_restarts_the_window() {
    let mut ball = stone(1);
    ball.store_hit_entity(7);
    assert!(!ball.check_hit_window(7));
    assert!(!ball.check_hit_window(7));
    ball.store_hit_entity(7);
    for _ in 0..5 {
        assert!(!ball.check_hit_window(7));
    }
    assert!(ball.check_hit_window(7));
}

#[test]
fn clearing_forgets_every_window() {
    let mut ball = stone(1);
    ball.store_hit_entity(7);
    ball.store_hit_entity(8);
    ball.clear_hit_counter();
    assert!(ball.check_hit_window(7));
    assert!(ball.check_hit_window(8));
}
