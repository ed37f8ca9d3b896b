use mechanics::ball::{
    Ball, BallControlParams, BallMovementType, BallProperty, BallState, BallType,
    ENDING_DONE_EVENT, STARTING_DONE_EVENT,
};
use mechanics::phase::preparing::{advance, state_update, DoneEvent};
use mechanics::timer::GameRefreshTimer;
use mechanics::vector::Vector;

fn make(
    ball_type: BallType,
    movement_type: BallMovementType,
    radius: i64,
    pos: (i64, i64),
    v: (i64, i64),
    entity: u64,
) -> Ball {
    Ball::new(
        ball_type,
        BallProperty {
            radius,
            pos: Vector::new(pos.0, pos.1),
            v: Vector::new(v.0, v.1),
            movement_type,
        },
        BallControlParams::default(),
        entity,
        entity + 1000,
        entity + 2000,
    )
}

fn running_stone(radius: i64, pos: (i64, i64), v: (i64, i64), entity: u64) -> Ball {
    let mut b = make(BallType::Stone, BallMovementType::Movable, radius, pos, v, entity);
    b.trigger_anime(BallState::Running);
    b
}

fn positions(balls: &Vec<Ball>) -> Vec<(i64, i64)> {
    balls.iter().map(|b| (b.property().pos.x, b.property().pos.y)).collect()
}

fn velocities(balls: &Vec<Ball>) -> Vec<(i64, i64)> {
    balls.iter().map(|b| (b.property().v.x, b.property().v.y)).collect()
}

#[test]
fn created_balls_start_and_take_no_part_in_physics() {
    let mut balls = vec![
        make(BallType::Stone, BallMovementType::Movable, 10, (0, 0), (5, 0), 1),
        make(BallType::Goal, BallMovementType::Movable, 10, (5, 0), (-5, 0), 2),
    ];
    let report = advance(&mut balls, &Vec::new());
    assert_eq!(report.started, vec![1, 2]);
    assert!(report.succeeded.is_empty());
    assert!(report.failed.is_empty());
    assert!(report.hit.is_empty());
    assert!(report.removed.is_empty());
    assert_eq!(balls[0].state(), BallState::Starting);
    assert_eq!(balls[1].state(), BallState::Starting);
    assert_eq!(positions(&balls), vec![(0, 0), (5, 0)]);
    // a second tick starts nothing anew
    let report = advance(&mut balls, &Vec::new());
    assert!(report.started.is_empty());
    assert_eq!(positions(&balls), vec![(0, 0), (5, 0)]);
}

#[test]
fn starting_balls_run_once_their_entry_animation_is_over() {
    let mut balls = vec![
        make(BallType::Stone, BallMovementType::Movable, 10, (0, 0), (5, 0), 1),
        make(BallType::Stone, BallMovementType::Movable, 10, (100, 0), (0, 0), 2),
    ];
    advance(&mut balls, &Vec::new());
    let events = vec![DoneEvent { entity: 2, user_data: STARTING_DONE_EVENT }];
    advance(&mut balls, &events);
    assert_eq!(balls[0].state(), BallState::Starting);
    assert_eq!(balls[1].state(), BallState::Running);
    // the event came after the physics of its tick: nothing has moved yet
    assert_eq!(positions(&balls), vec![(0, 0), (100, 0)]);
}

#[test]
fn a_created_ball_can_start_and_run_in_one_tick() {
    let mut balls = vec![make(BallType::Stone, BallMovementType::Movable, 10, (0, 0), (5, 0), 7)];
    let events = vec![DoneEvent { entity: 7, user_data: STARTING_DONE_EVENT }];
    let report = advance(&mut balls, &events);
    assert_eq!(report.started, vec![7]);
    assert_eq!(balls[0].state(), BallState::Running);
    assert_eq!(positions(&balls), vec![(0, 0)]);
}

#[test]
fn starting_done_does_not_bring_an_ending_ball_back() {
    let mut b = running_stone(10, (0, 0), (1, 0), 1);
    b.trigger_ending();
    let mut balls = vec![b];
    advance(&mut balls, &vec![DoneEvent { entity: 1, user_data: STARTING_DONE_EVENT }]);
    assert_eq!(balls[0].state(), BallState::Ending);
    assert_eq!(positions(&balls), vec![(0, 0)]);
}

#[test]
fn running_balls_travel_when_nothing_touches_them() {
    let mut balls = vec![running_stone(10, (-15, 0), (5, 0), 1), running_stone(10, (15, 0), (-5, 0), 2)];
    let report = advance(&mut balls, &Vec::new());
    assert!(report.hit.is_empty());
    assert_eq!(positions(&balls), vec![(-10, 0), (10, 0)]);
    assert_eq!(velocities(&balls), vec![(5, 0), (-5, 0)]);
}

#[test]
fn two_stones_thirty_apart_bounce_back_on_the_second_tick() {
    let mut balls = vec![running_stone(10, (-15, 0), (5, 0), 1), running_stone(10, (15, 0), (-5, 0), 2)];
    advance(&mut balls, &Vec::new());
    let report = advance(&mut balls, &Vec::new());
    assert_eq!(report.hit, vec![1, 2]);
    assert_eq!(velocities(&balls), vec![(-5, 0), (5, 0)]);
    // each ball advanced by its new velocity within the same tick, and did not travel on top
    assert_eq!(positions(&balls), vec![(-15, 0), (15, 0)]);
    let report = advance(&mut balls, &Vec::new());
    assert!(report.hit.is_empty());
    assert_eq!(positions(&balls), vec![(-20, 0), (20, 0)]);
    assert_eq!(velocities(&balls), vec![(-5, 0), (5, 0)]);
}

#[test]
fn stone_bounces_off_a_fixed_stone_in_a_tick() {
    let mut wall = make(BallType::Stone, BallMovementType::Fixed, 20, (30, 0), (0, 0), 2);
    wall.trigger_anime(BallState::Running);
    let mut balls = vec![running_stone(10, (0, 0), (10, 0), 1), wall];
    let report = advance(&mut balls, &Vec::new());
    assert_eq!(report.hit, vec![1]);
    assert_eq!(velocities(&balls), vec![(-10, 0), (0, 0)]);
    assert_eq!(positions(&balls), vec![(-10, 0), (30, 0)]);
}

#[test]
fn a_lasting_overlap_is_answered_once_per_window() {
    // two resting stones that overlap: the response changes nothing, so the overlap lasts
    let mut balls = vec![running_stone(10, (0, 0), (0, 0), 1), running_stone(10, (5, 0), (0, 0), 2)];
    let mut answered = Vec::new();
    for _ in 0..13 {
        let report = advance(&mut balls, &Vec::new());
        answered.push(report.hit.len());
    }
    assert_eq!(answered, vec![2, 0, 0, 0, 0, 0, 2, 0, 0, 0, 0, 0, 2]);
}

#[test]
fn windows_are_cleared_when_the_contact_ends() {
    let mut balls = vec![running_stone(10, (-10, 0), (5, 0), 1), running_stone(10, (10, 0), (-5, 0), 2)];
    let report = advance(&mut balls, &Vec::new());
    assert_eq!(report.hit, vec![1, 2]);
    // apart again: this tick sees no contact and clears the windows
    advance(&mut balls, &Vec::new());
    assert!(balls[0].check_hit_window(2));
    assert!(balls[1].check_hit_window(1));
}

#[test]
fn success_and_failure_are_reported_in_ball_order() {
    let mut goal = make(BallType::Goal, BallMovementType::Fixed, 10, (15, 0), (0, 0), 2);
    goal.trigger_anime(BallState::Running);
    let mut bomb = make(BallType::Bomb, BallMovementType::Fixed, 10, (500, 15), (0, 0), 4);
    bomb.trigger_anime(BallState::Running);
    let mut balls = vec![
        running_stone(10, (0, 0), (1, 0), 1),
        goal,
        running_stone(10, (500, 0), (0, 1), 3),
        bomb,
    ];
    let report = advance(&mut balls, &Vec::new());
    assert_eq!(report.succeeded, vec![1, 2]);
    assert_eq!(report.failed, vec![3, 4]);
    assert!(report.hit.is_empty());
    // no move was seen, so the stones travel
    assert_eq!(positions(&balls), vec![(1, 0), (15, 0), (500, 1), (500, 15)]);
}

#[test]
fn a_stone_can_succeed_and_bounce_in_the_same_tick() {
    let mut goal = make(BallType::Goal, BallMovementType::Fixed, 10, (15, 0), (0, 0), 2);
    goal.trigger_anime(BallState::Running);
    let mut wall = make(BallType::Stone, BallMovementType::Fixed, 10, (-20, 0), (0, 0), 3);
    wall.trigger_anime(BallState::Running);
    let mut balls = vec![running_stone(10, (0, 0), (-4, 0), 1), goal, wall];
    let report = advance(&mut balls, &Vec::new());
    assert_eq!(report.succeeded, vec![1, 2]);
    assert_eq!(report.hit, vec![1]);
    assert_eq!(velocities(&balls)[0], (4, 0));
    assert_eq!(positions(&balls)[0], (4, 0));
}

#[test]
fn balls_whose_exit_animation_is_over_are_removed() {
    let mut balls = vec![
        running_stone(10, (0, 0), (0, 0), 1),
        running_stone(10, (100, 0), (0, 0), 2),
        running_stone(10, (200, 0), (0, 0), 3),
        running_stone(10, (300, 0), (0, 0), 4),
    ];
    let events = vec![
        DoneEvent { entity: 3, user_data: ENDING_DONE_EVENT },
        DoneEvent { entity: 99, user_data: ENDING_DONE_EVENT },
        DoneEvent { entity: 1, user_data: ENDING_DONE_EVENT },
        DoneEvent { entity: 3, user_data: ENDING_DONE_EVENT },
        DoneEvent { entity: 2, user_data: 5 },
        DoneEvent { entity: 4, user_data: STARTING_DONE_EVENT },
    ];
    let report = advance(&mut balls, &events);
    assert_eq!(report.removed, vec![3, 99, 1]);
    let left: Vec<u64> = balls.iter().map(|b| b.root_entity()).collect();
    assert_eq!(left, vec![2, 4]);
}

#[test]
fn an_empty_field_ticks() {
    let mut balls: Vec<Ball> = Vec::new();
    let report = advance(&mut balls, &Vec::new());
    assert!(report.started.is_empty() && report.hit.is_empty() && report.removed.is_empty());
    assert!(balls.is_empty());
}

#[test]
fn ball_in_a_bowl_bounces_off_the_wall() {
    let mut bowl = make(BallType::Stone, BallMovementType::FixedReversed, 200, (0, 0), (0, 0), 1);
    bowl.trigger_anime(BallState::Running);
    let mut balls = vec![bowl, running_stone(10, (0, 185), (0, 5), 2)];
    // 185 is within the wall: the ball travels to 190, which still is
    advance(&mut balls, &Vec::new());
    advance(&mut balls, &Vec::new());
    assert_eq!(positions(&balls)[1], (0, 195));
    // past the wall and moving outward: reflected
    let report = advance(&mut balls, &Vec::new());
    assert_eq!(report.hit, vec![2]);
    assert_eq!(velocities(&balls)[1], (0, -5));
    assert_eq!(positions(&balls)[1], (0, 190));
}

#[test]
fn the_refresh_timer_gates_the_tick() {
    let mut timer = GameRefreshTimer::new();
    let mut balls = vec![running_stone(10, (0, 0), (5, 0), 1)];
    let events = Vec::new();
    // 4 ms: the 10 ms tick has not elapsed
    assert!(state_update(&mut balls, &events, &mut timer, 4_000_000).is_none());
    assert_eq!(positions(&balls), vec![(0, 0)]);
    assert!(state_update(&mut balls, &events, &mut timer, 4_000_000).is_none());
    // 12 ms in all
    let report = state_update(&mut balls, &events, &mut timer, 4_000_000);
    assert!(report.is_some());
    assert_eq!(positions(&balls), vec![(5, 0)]);
    // 2 ms are carried over
    assert!(state_update(&mut balls, &events, &mut timer, 7_000_000).is_none());
    assert!(state_update(&mut balls, &events, &mut timer, 1_000_000).is_some());
    assert_eq!(positions(&balls), vec![(10, 0)]);
    assert_eq!(timer.0.elapsed_nanos, 0);
    assert!(state_update(&mut balls, &events, &mut timer, 3_000_000).is_none());
    assert_eq!(timer.0.elapsed_nanos, 3_000_000);
}
