use mechanics::ball::{
    Ball, BallControlParams, BallMovementType, BallProperty, BallState, BallType,
};
use mechanics::ball_interaction::{calcuate_v_after_hit, detect_hit, HitType};
use mechanics::vector::Vector;

/// A small deterministic generator, so that every run sees the same cases.
struct Lcg(u64);

impl Lcg {
    fn next(&mut self) -> u64 {
        self.0 = self.0.wrapping_mul(6364136223846793005).wrapping_add(1442695040888963407);
        self.0 >> 33
    }

    fn in_range(&mut self, low: i64, high: i64) -> i64 {
        low + (self.next() % (high - low + 1) as u64) as i64
    }

    fn movement(&mut self) -> BallMovementType {
        match self.next() % 3 {
            0 => BallMovementType::Movable,
            1 => BallMovementType::Fixed,
            _ => BallMovementType::FixedReversed,
        }
    }

    fn property(&mut self) -> BallProperty {
        BallProperty {
            radius: self.in_range(1, 300),
            pos: Vector::new(self.in_range(-500, 500), self.in_range(-500, 500)),
            v: Vector::new(self.in_range(-60, 60), self.in_range(-60, 60)),
            movement_type: self.movement(),
        }
    }
}

fn float_response(hit_type: HitType, bp1: &BallProperty, bp2: &BallProperty) -> (f64, f64) {
    let (v1x, v1y) = (bp1.v.x as f64, bp1.v.y as f64);
    let (v2x, v2y) = (bp2.v.x as f64, bp2.v.y as f64);
    let m1 = (bp1.radius as f64).powi(2);
    let m2 = (bp2.radius as f64).powi(2);
    let (px, py) = if hit_type == HitType::Outside {
        ((bp1.pos.x - bp2.pos.x) as f64, (bp1.pos.y - bp2.pos.y) as f64)
    } else {
        ((bp2.pos.x - bp1.pos.x) as f64, (bp2.pos.y - bp1.pos.y) as f64)
    };
    let len2 = px * px + py * py;
    if bp2.movement_type == BallMovementType::Movable {
        let k = 2.0 * m2 / (m1 + m2) * ((v1x - v2x) * px + (v1y - v2y) * py) / len2;
        (v1x - k * px, v1y - k * py)
    } else {
        let dot = v1x * px + v1y * py;
        if bp2.movement_type == BallMovementType::FixedReversed && dot > 0.0 {
            (v1x, v1y)
        } else {
            let k = 2.0 * dot / len2;
            (v1x - k * px, v1y - k * py)
        }
    }
}

#[test]
fn response_is_within_one_unit_of_the_real_formula() {
    let mut rng = Lcg(2024);
    let mut compared = 0;
    for _ in 0..5000 {
        let bp1 = rng.property();
        let bp2 = rng.property();
        if bp1.pos == bp2.pos {
            continue;
        }
        for hit_type in [HitType::Outside, HitType::Inside] {
            let got = calcuate_v_after_hit(&hit_type, &bp1, &bp2);
            let (wx, wy) = float_response(hit_type, &bp1, &bp2);
            assert!((got.x as f64 - wx).abs() < 1.0 + 1e-6, "{bp1:?} {bp2:?} {got:?} {wx}");
            assert!((got.y as f64 - wy).abs() < 1.0 + 1e-6, "{bp1:?} {bp2:?} {got:?} {wy}");
            compared += 1;
        }
    }
    assert!(compared > 9000);
}

#[test]
fn reflection_keeps_the_speed_within_rounding() {
    let mut rng = Lcg(7);
    for _ in 0..2000 {
        let bp1 = rng.property();
        let mut bp2 = rng.property();
        bp2.movement_type = BallMovementType::Fixed;
        if bp1.pos == bp2.pos {
            continue;
        }
        let got = calcuate_v_after_hit(&HitType::Outside, &bp1, &bp2);
        let before = ((bp1.v.x * bp1.v.x + bp1.v.y * bp1.v.y) as f64).sqrt();
        let after = ((got.x * got.x + got.y * got.y) as f64).sqrt();
        // each component is off by less than one unit
        assert!((before - after).abs() < 1.5, "{bp1:?} {bp2:?} {got:?}");
    }
}

#[test]
fn detection_agrees_with_the_distance() {
    let mut rng = Lcg(99);
    let mut seen = [0usize; 3];
    for _ in 0..5000 {
        let p1 = rng.property();
        let p2 = rng.property();
        let mut b1 = Ball::new(BallType::Stone, p1, BallControlParams::default(), 1, 0, 0);
        let mut b2 = Ball::new(BallType::Stone, p2, BallControlParams::default(), 2, 0, 0);
        b1.trigger_anime(BallState::Running);
        b2.trigger_anime(BallState::Running);
        let dx = (p1.pos.x - p2.pos.x) as f64;
        let dy = (p1.pos.y - p2.pos.y) as f64;
        let distance = (dx * dx + dy * dy).sqrt();
        let bowl = p1.movement_type == BallMovementType::FixedReversed
            || p2.movement_type == BallMovementType::FixedReversed;
        let expected = if !bowl {
            if distance > (p1.radius + p2.radius) as f64 {
                HitType::NoHit
            } else {
                HitType::Outside
            }
        } else if distance > (p1.radius - p2.radius).abs() as f64 {
            HitType::Inside
        } else {
            HitType::NoHit
        };
        let got = detect_hit(&b1, &b2);
        // the square root of a whole number is compared with a whole number: no rounding
        // can move it across, unless it is the whole number itself
        assert_eq!(got, expected, "{p1:?} {p2:?}");
        assert_eq!(detect_hit(&b2, &b1), got);
        match got {
            HitType::NoHit => seen[0] += 1,
            HitType::Outside => seen[1] += 1,
            HitType::Inside => seen[2] += 1,
        }
    }
    assert!(seen.iter().all(|n| *n > 100), "{seen:?}");
}

#[test]
fn momentum_is_kept_within_rounding() {
    let mut rng = Lcg(31);
    for _ in 0..3000 {
        let mut bp1 = rng.property();
        let mut bp2 = rng.property();
        bp1.movement_type = BallMovementType::Movable;
        bp2.movement_type = BallMovementType::Movable;
        if bp1.pos == bp2.pos {
            continue;
        }
        let a = calcuate_v_after_hit(&HitType::Outside, &bp1, &bp2);
        let b = calcuate_v_after_hit(&HitType::Outside, &bp2, &bp1);
        let (m1, m2) = (bp1.radius * bp1.radius, bp2.radius * bp2.radius);
        let before = (m1 * bp1.v.x + m2 * bp2.v.x, m1 * bp1.v.y + m2 * bp2.v.y);
        let after = (m1 * a.x + m2 * b.x, m1 * a.y + m2 * b.y);
        assert!((after.0 - before.0).abs() < m1 + m2, "{bp1:?} {bp2:?}");
        assert!((after.1 - before.1).abs() < m1 + m2, "{bp1:?} {bp2:?}");
    }
}

#[test]
fn momentum_is_kept_exactly_where_the_division_is_even() {
    // radii 10 and 20, centres 30 apart on the x axis: every quotient is whole
    let light = BallProperty {
        radius: 10,
        pos: Vector::new(0, 0),
        v: Vector::new(10, 5),
        movement_type: BallMovementType::Movable,
    };
    let heavy = BallProperty {
        radius: 20,
        pos: Vector::new(30, 0),
        v: Vector::new(-5, 0),
        movement_type: BallMovementType::Movable,
    };
    let a = calcuate_v_after_hit(&HitType::Outside, &light, &heavy);
    let b = calcuate_v_after_hit(&HitType::Outside, &heavy, &light);
    assert_eq!(a, Vector::new(-14, 5));
    assert_eq!(b, Vector::new(1, 0));
    assert_eq!(100 * a.x + 400 * b.x, 100 * 10 + 400 * -5);
    assert_eq!(100 * a.y + 400 * b.y, 100 * 5);
    // and so is the energy
    assert_eq!(
        100 * (a.x * a.x + a.y * a.y) + 400 * (b.x * b.x + b.y * b.y),
        100 * (100 + 25) + 400 * 25
    );
}
