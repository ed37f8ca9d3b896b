//! The levels: which balls a level starts with, and where.
//!
//! Lengths are in field units, velocities in field units per tick.

use crate::ball::{BallControlParams, BallMovementType, BallProperty, BallType};
use crate::text::same_text;
use crate::vector::Vector;
use vstd::prelude::*;

verus! {

/// One ball of a level's starting layout.
#[derive(Clone, Copy, Debug)]
pub struct LevelBallConfig {
    pub ball_type: BallType,
    pub property: BallProperty,
    pub control_params: BallControlParams,
}

/// A level: its title and its balls, in the order in which they are made.
pub struct LevelConfig {
    pub name: &'static str,
    pub balls: Vec<LevelBallConfig>,
}

/// Distance between neighbours in the ball list.
pub const BL_LIST_GAP: i64 = 150;

/// Radius of the balls in the ball list.
pub const BL_BALL_SIZE: i64 = 30;

/// The codes of the levels of the game, in playing order.
pub const LEVELS: [&'static str; 7] = ["hello", "timing", "twice", "maze", "star", "chaser", "pool"];

/// A ball of a layout without any control.
pub open spec fn spec_ball_config(
    ball_type: BallType,
    pos: (int, int),
    v: (int, int),
    radius: int,
    movement_type: BallMovementType,
) -> LevelBallConfig {
    LevelBallConfig {
        ball_type,
        property: BallProperty {
            radius: radius as i64,
            pos: Vector { x: pos.0 as i64, y: pos.1 as i64 },
            v: Vector { x: v.0 as i64, y: v.1 as i64 },
            movement_type,
        },
        control_params: BallControlParams { x: None, y: None, force: None, angle: None },
    }
}

/// Makes a ball of a layout without any control.
fn ball_config(
    ball_type: BallType,
    pos: (i64, i64),
    v: (i64, i64),
    radius: i64,
    movement_type: BallMovementType,
) -> (config: LevelBallConfig)
    ensures
        config == spec_ball_config(
            ball_type,
            (pos.0 as int, pos.1 as int),
            (v.0 as int, v.1 as int),
            radius as int,
            movement_type,
        ),
{
    LevelBallConfig {
        ball_type,
        property: BallProperty {
            radius,
            pos: Vector { x: pos.0, y: pos.1 },
            v: Vector { x: v.0, y: v.1 },
            movement_type,
        },
        control_params: BallControlParams { x: None, y: None, force: None, angle: None },
    }
}

/// The ball list: every type in every kind of movement, on a grid.
pub open spec fn ball_list_balls() -> Seq<LevelBallConfig> {
    seq![
        spec_ball_config(BallType::Stone, (-150, 150), (0, 0), 30, BallMovementType::Movable),
        spec_ball_config(BallType::Stone, (-150, 0), (0, 0), 30, BallMovementType::Fixed),
        spec_ball_config(BallType::Stone, (-150, -150), (0, 0), 30, BallMovementType::FixedReversed),
        spec_ball_config(BallType::Goal, (0, 150), (0, 0), 30, BallMovementType::Movable),
        spec_ball_config(BallType::Goal, (0, 0), (0, 0), 30, BallMovementType::Fixed),
        spec_ball_config(BallType::Goal, (0, -150), (0, 0), 30, BallMovementType::FixedReversed),
        spec_ball_config(BallType::Bomb, (150, 150), (0, 0), 30, BallMovementType::Movable),
        spec_ball_config(BallType::Bomb, (150, 0), (0, 0), 30, BallMovementType::Fixed),
        spec_ball_config(BallType::Bomb, (150, -150), (0, 0), 30, BallMovementType::FixedReversed),
    ]
}

/// The simple level: three stones inside a bowl, and a solid stone.
pub open spec fn simple_balls() -> Seq<LevelBallConfig> {
    seq![
        spec_ball_config(BallType::Stone, (-300, 0), (0, 0), 200, BallMovementType::FixedReversed),
        spec_ball_config(BallType::Stone, (-300, 10), (10, 0), 10, BallMovementType::Movable),
        spec_ball_config(BallType::Stone, (-300, 40), (5, 0), 10, BallMovementType::Movable),
        spec_ball_config(BallType::Stone, (-300, 70), (5, 0), 15, BallMovementType::Movable),
        spec_ball_config(BallType::Stone, (-350, 70), (0, 0), 20, BallMovementType::Fixed),
    ]
}

/// The hit test: bombs and a goal inside a bowl.
pub open spec fn hit_test_balls() -> Seq<LevelBallConfig> {
    seq![
        spec_ball_config(BallType::Bomb, (0, 0), (0, 0), 200, BallMovementType::FixedReversed),
        spec_ball_config(BallType::Bomb, (-10, 190), (-10, -10), 10, BallMovementType::Movable),
        spec_ball_config(BallType::Bomb, (0, 170), (12, 0), 10, BallMovementType::Movable),
        spec_ball_config(BallType::Bomb, (0, 150), (-14, 0), 10, BallMovementType::Movable),
        spec_ball_config(BallType::Bomb, (0, 0), (0, 0), 20, BallMovementType::Movable),
        spec_ball_config(BallType::Goal, (-60, 0), (1, 0), 30, BallMovementType::Movable),
        spec_ball_config(BallType::Bomb, (-60, -80), (0, 0), 50, BallMovementType::Fixed),
    ]
}

/// The title and the balls of the layout stored under `code`, if there is
/// one.
pub open spec fn spec_level_config(code: Seq<char>) -> Option<(Seq<char>, Seq<LevelBallConfig>)> {
    if code == "ball_list"@ {
        Some(("BALL LIST"@, ball_list_balls()))
    } else if code == "simple"@ {
        Some(("SIMPLE"@, simple_balls()))
    } else if code == "hit_test"@ {
        Some(("SIMPLE"@, hit_test_balls()))
    } else {
        None
    }
}

/// Every ball of the layout is well formed.
pub open spec fn layout_wf(balls: Seq<LevelBallConfig>) -> bool {
    forall|i: int| 0 <= i < balls.len() ==> (#[trigger] balls[i]).property.wf()
}

/// Builds the ball list.
fn ball_list_level() -> (level: LevelConfig)
    ensures
        level.name@ == "BALL LIST"@,
        level.balls@ == ball_list_balls(),
{
    let gap = BL_LIST_GAP;
    let size = BL_BALL_SIZE;
    let mut balls: Vec<LevelBallConfig> = Vec::new();
    balls.push(ball_config(BallType::Stone, (-gap, gap), (0, 0), size, BallMovementType::Movable));
    balls.push(ball_config(BallType::Stone, (-gap, 0), (0, 0), size, BallMovementType::Fixed));
    balls.push(
        ball_config(BallType::Stone, (-gap, -gap), (0, 0), size, BallMovementType::FixedReversed),
    );
    balls.push(ball_config(BallType::Goal, (0, gap), (0, 0), size, BallMovementType::Movable));
    balls.push(ball_config(BallType::Goal, (0, 0), (0, 0), size, BallMovementType::Fixed));
    balls.push(ball_config(BallType::Goal, (0, -gap), (0, 0), size, BallMovementType::FixedReversed));
    balls.push(ball_config(BallType::Bomb, (gap, gap), (0, 0), size, BallMovementType::Movable));
    balls.push(ball_config(BallType::Bomb, (gap, 0), (0, 0), size, BallMovementType::Fixed));
    balls.push(
        ball_config(BallType::Bomb, (gap, -gap), (0, 0), size, BallMovementType::FixedReversed),
    );
    assert(balls@ =~= ball_list_balls());
    LevelConfig { name: "BALL LIST", balls }
}

/// Builds the simple level.
fn simple_level() -> (level: LevelConfig)
    ensures
        level.name@ == "SIMPLE"@,
        level.balls@ == simple_balls(),
{
    let mut balls: Vec<LevelBallConfig> = Vec::new();
    balls.push(
        ball_config(BallType::Stone, (-300, 0), (0, 0), 200, BallMovementType::FixedReversed),
    );
    balls.push(ball_config(BallType::Stone, (-300, 10), (10, 0), 10, BallMovementType::Movable));
    balls.push(ball_config(BallType::Stone, (-300, 40), (5, 0), 10, BallMovementType::Movable));
    balls.push(ball_config(BallType::Stone, (-300, 70), (5, 0), 15, BallMovementType::Movable));
    balls.push(ball_config(BallType::Stone, (-350, 70), (0, 0), 20, BallMovementType::Fixed));
    assert(balls@ =~= simple_balls());
    LevelConfig { name: "SIMPLE", balls }
}

/// Builds the hit test.
fn hit_test_level() -> (level: LevelConfig)
    ensures
        level.name@ == "SIMPLE"@,
        level.balls@ == hit_test_balls(),
{
    let mut balls: Vec<LevelBallConfig> = Vec::new();
    balls.push(ball_config(BallType::Bomb, (0, 0), (0, 0), 200, BallMovementType::FixedReversed));
    balls.push(ball_config(BallType::Bomb, (-10, 190), (-10, -10), 10, BallMovementType::Movable));
    balls.push(ball_config(BallType::Bomb, (0, 170), (12, 0), 10, BallMovementType::Movable));
    balls.push(ball_config(BallType::Bomb, (0, 150), (-14, 0), 10, BallMovementType::Movable));
    balls.push(ball_config(BallType::Bomb, (0, 0), (0, 0), 20, BallMovementType::Movable));
    balls.push(ball_config(BallType::Goal, (-60, 0), (1, 0), 30, BallMovementType::Movable));
    balls.push(ball_config(BallType::Bomb, (-60, -80), (0, 0), 50, BallMovementType::Fixed));
    assert(balls@ =~= hit_test_balls());
    LevelConfig { name: "SIMPLE", balls }
}

/// Looks up the layout stored under `code`.
pub fn level_config(code: &str) -> (level: Option<LevelConfig>)
    ensures
        match level {
            Some(config) => spec_level_config(code@) == Some((config.name@, config.balls@))
                && layout_wf(config.balls@),
            None => spec_level_config(code@) is None,
        },
{
    if same_text(code, "ball_list") {
        Some(ball_list_level())
    } else if same_text(code, "simple") {
        Some(simple_level())
    } else if same_text(code, "hit_test") {
        Some(hit_test_level())
    } else {
        None
    }
}

} // verus!
