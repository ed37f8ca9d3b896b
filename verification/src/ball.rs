//! The ball: its physical properties, its lifecycle and the debounce table
//! that keeps one lasting overlap from being answered on every tick.

use crate::hit_counter::{
    counter_clear, counter_entries, counter_get, counter_insert, counter_new, counter_remove,
    HitCounter,
};
use crate::tailing::{
    queue_capacity, queue_items, queue_newest_first, queue_push, queue_with_capacity,
    trail_after_push,
};
use crate::text::{pair_text, push_pair};
use crate::vector::{Vector, COORD_MAX};
use circular_queue::CircularQueue;
use vstd::prelude::*;
use vstd::string::StringExecFns;

verus! {

/// Payload of the event that reports a finished entry animation.
pub const STARTING_DONE_EVENT: u64 = 0;

/// Payload of the event that reports a finished exit animation.
pub const ENDING_DONE_EVENT: u64 = 1;

/// Number of positions the trail behind a ball keeps.
pub const TAILING_SIZE: usize = 5;

/// Number of position updates skipped between two recorded trail points.
pub const TAILING_WINDOW: u8 = 0;

/// Number of checks during which a contact with the same opponent stays
/// suppressed after a response was applied.
pub const HIT_WINDOW: u8 = 5;

/// What a ball is, which decides the outcome of a contact.
#[derive(Clone, Copy, Debug, PartialEq, Eq, Structural)]
pub enum BallType {
    Stone,
    Goal,
    Bomb,
}

impl BallType {
    /// The lower-case name used in asset paths.
    pub open spec fn spec_name(self) -> Seq<char> {
        match self {
            BallType::Stone => "stone"@,
            BallType::Goal => "goal"@,
            BallType::Bomb => "bomb"@,
        }
    }

    /// The name as a text of its own.
    pub fn to_string(&self) -> (name: String)
        ensures
            name@ == self.spec_name(),
    {
        match self {
            BallType::Stone => "stone".to_owned(),
            BallType::Goal => "goal".to_owned(),
            BallType::Bomb => "bomb".to_owned(),
        }
    }
}

/// Where a ball stands in its life.
#[derive(Clone, Copy, Debug, PartialEq, Eq, Structural)]
pub enum BallState {
    Created,
    Starting,
    Running,
    Paused,
    Ending,
    Dead,
}

/// The kind of control a player has over a ball.
#[derive(Clone, Copy, Debug, PartialEq, Eq, Structural)]
pub enum BallControlType {
    Angle,
    Force,
    Move2D,
    Move1D,
}

impl BallControlType {
    /// The lower-case name used in asset paths.
    pub open spec fn spec_name(self) -> Seq<char> {
        match self {
            BallControlType::Angle => "angle"@,
            BallControlType::Force => "force"@,
            BallControlType::Move2D => "move_2d"@,
            BallControlType::Move1D => "move_1d"@,
        }
    }

    /// The name as a text of its own.
    pub fn to_string(&self) -> (name: String)
        ensures
            name@ == self.spec_name(),
    {
        match self {
            BallControlType::Angle => "angle".to_owned(),
            BallControlType::Force => "force".to_owned(),
            BallControlType::Move2D => "move_2d".to_owned(),
            BallControlType::Move1D => "move_1d".to_owned(),
        }
    }
}

/// How a ball takes part in motion: it moves, it is a solid obstacle, or it
/// is a bowl whose inside is the playing space.
#[derive(Clone, Copy, Debug, PartialEq, Eq, Structural)]
pub enum BallMovementType {
    Movable,
    Fixed,
    FixedReversed,
}

/// The physical state of a ball, in field units and units per tick.
#[derive(Clone, Copy, Debug, PartialEq, Eq, Structural)]
pub struct BallProperty {
    pub radius: i64,
    pub pos: Vector,
    pub v: Vector,
    pub movement_type: BallMovementType,
}

impl BallProperty {
    /// The radius is positive and every quantity lies in the coordinate range.
    pub open spec fn wf(self) -> bool {
        &&& 0 < self.radius <= COORD_MAX
        &&& self.pos.wf()
        &&& self.v.wf()
    }

    /// Tells whether the property is well formed.
    pub fn is_valid(&self) -> (ok: bool)
        ensures
            ok == self.wf(),
    {
        0 < self.radius && self.radius <= COORD_MAX && self.pos.is_valid() && self.v.is_valid()
    }
}

/// Ranges of the adjustments a player may make to a ball, each as a pair of
/// bounds; `None` where the ball offers no such control.
#[derive(Clone, Copy, Debug)]
pub struct BallControlParams {
    pub x: Option<(i64, i64)>,
    pub y: Option<(i64, i64)>,
    pub force: Option<(i64, i64)>,
    pub angle: Option<(i64, i64)>,
}

impl Default for BallControlParams {
    fn default() -> (params: BallControlParams)
        ensures
            params == (BallControlParams { x: None, y: None, force: None, angle: None }),
    {
        BallControlParams { x: None, y: None, force: None, angle: None }
    }
}

/// One line of the control panel: what kind of control a ball offers and
/// the text that shows its range.
#[derive(Clone, Debug)]
pub struct BallControlDisplay {
    pub ball_type: Option<BallType>,
    pub control_type: BallControlType,
    pub text: String,
}

/// The mathematical content of a [`BallControlDisplay`].
pub struct BallControlDisplayView {
    pub ball_type: Option<BallType>,
    pub control_type: BallControlType,
    pub text: Seq<char>,
}

impl View for BallControlDisplay {
    type V = BallControlDisplayView;

    open spec fn view(&self) -> BallControlDisplayView {
        BallControlDisplayView {
            ball_type: self.ball_type,
            control_type: self.control_type,
            text: self.text@,
        }
    }
}

/// The views of a list of displays, place by place.
pub open spec fn display_views(displays: Seq<BallControlDisplay>) -> Seq<BallControlDisplayView> {
    Seq::new(displays.len(), |i: int| displays[i]@)
}

/// The line that shows one range of a ball of the type `ball_type`.
pub open spec fn range_display(
    ball_type: BallType,
    control_type: BallControlType,
    range: (i64, i64),
) -> BallControlDisplayView {
    BallControlDisplayView { ball_type: Some(ball_type), control_type, text: pair_text(range) }
}

/// The lines of the control panel for a ball: the two-dimensional move
/// where both axes can be adjusted, then each axis on its own, then the
/// angle, then the force.
pub open spec fn spec_control_displays(
    ball_type: BallType,
    params: BallControlParams,
) -> Seq<BallControlDisplayView> {
    let move_2d = if params.x is Some && params.y is Some {
        seq![
            BallControlDisplayView {
                ball_type: Some(ball_type),
                control_type: BallControlType::Move2D,
                text: seq!['('] + pair_text(params.x->0) + seq![','] + pair_text(params.y->0)
                    + seq![')'],
            },
        ]
    } else {
        Seq::empty()
    };
    let move_x = if params.x is Some {
        seq![range_display(ball_type, BallControlType::Move1D, params.x->0)]
    } else {
        Seq::empty()
    };
    let move_y = if params.y is Some {
        seq![range_display(ball_type, BallControlType::Move1D, params.y->0)]
    } else {
        Seq::empty()
    };
    let angle = if params.angle is Some {
        seq![range_display(ball_type, BallControlType::Angle, params.angle->0)]
    } else {
        Seq::empty()
    };
    let force = if params.force is Some {
        seq![range_display(ball_type, BallControlType::Force, params.force->0)]
    } else {
        Seq::empty()
    };
    move_2d + move_x + move_y + angle + force
}

/// Builds the line that shows one range.
fn make_range_display(ball_type: BallType, control_type: BallControlType, range: (i64, i64)) -> (display:
    BallControlDisplay)
    ensures
        display@ == range_display(ball_type, control_type, range),
{
    let mut text = String::new();
    push_pair(&mut text, range);
    assert(text@ =~= pair_text(range));
    BallControlDisplay { ball_type: Some(ball_type), control_type, text }
}

/// The mathematical content of a [`Ball`].
pub struct BallView {
    pub state: BallState,
    pub property: BallProperty,
    pub control_params: BallControlParams,
    pub ball_type: BallType,
    /// Remaining suppressed checks, by opponent.
    pub hit_counter: Map<u64, u8>,
    /// Recorded positions, oldest first.
    pub trail: Seq<(i64, i64)>,
    pub trail_capacity: nat,
    pub tailing_counter: u8,
    pub root_entity: u64,
    pub bg_entity: u64,
    pub dyn_entity: u64,
}

/// Whether a new response to the opponent `e` is allowed by the table `m`.
pub open spec fn window_allows(m: Map<u64, u8>, e: u64) -> bool {
    m.contains_key(e) ==> m[e] == 0
}

/// The table after one check for the opponent `e`: a running countdown
/// loses one tick, a finished one is dropped.
pub open spec fn window_after_check(m: Map<u64, u8>, e: u64) -> Map<u64, u8> {
    if !m.contains_key(e) {
        m
    } else if m[e] > 0 {
        m.insert(e, (m[e] - 1) as u8)
    } else {
        m.remove(e)
    }
}

/// The table after `n` checks in a row for the opponent `e`.
pub open spec fn window_after_checks(m: Map<u64, u8>, e: u64, n: nat) -> Map<u64, u8>
    decreases n,
{
    if n == 0 {
        m
    } else {
        window_after_check(window_after_checks(m, e, (n - 1) as nat), e)
    }
}

/// A window armed with `count` ticks counts down by one with each check:
/// after `n <= count` checks it stands at `count - n`, a check is refused
/// while ticks remain and allowed once they are used up.
pub proof fn lemma_window_counts_down(m: Map<u64, u8>, e: u64, count: u8, n: nat)
    requires
        n <= count,
    ensures
        window_after_checks(m.insert(e, count), e, n) == m.insert(e, (count - n) as u8),
        window_allows(window_after_checks(m.insert(e, count), e, n), e) <==> n == count,
    decreases n,
{
    if n > 0 {
        lemma_window_counts_down(m, e, count, (n - 1) as nat);
        let before = m.insert(e, (count - (n - 1)) as u8);
        assert(window_after_check(before, e) =~= m.insert(e, (count - n) as u8));
    }
}

/// The debounce window: once a response to the opponent `e` has armed the
/// window, whatever the table held before, each of the next `HIT_WINDOW`
/// checks for `e` is refused and the one after them is allowed.
pub proof fn lemma_debounce_window(m: Map<u64, u8>, e: u64)
    ensures
        forall|n: nat|
            n < HIT_WINDOW ==> !window_allows(
                #[trigger] window_after_checks(m.insert(e, HIT_WINDOW), e, n),
                e,
            ),
        window_allows(window_after_checks(m.insert(e, HIT_WINDOW), e, HIT_WINDOW as nat), e),
        window_after_checks(m.insert(e, HIT_WINDOW), e, (HIT_WINDOW + 1) as nat) == m.remove(e),
{
    assert forall|n: nat| n < HIT_WINDOW implies !window_allows(
        #[trigger] window_after_checks(m.insert(e, HIT_WINDOW), e, n),
        e,
    ) by {
        lemma_window_counts_down(m, e, HIT_WINDOW, n);
    }
    lemma_window_counts_down(m, e, HIT_WINDOW, HIT_WINDOW as nat);
    assert(window_after_check(m.insert(e, 0), e) =~= m.remove(e));
}

impl BallView {
    /// The ball placed at `pos`, with the position entered in the trail when
    /// the trail's countdown has run out.
    pub open spec fn placed_at(self, pos: Vector) -> BallView {
        BallView {
            property: BallProperty { pos, ..self.property },
            trail: if self.tailing_counter == 0 {
                trail_after_push(self.trail, self.trail_capacity, (pos.x, pos.y))
            } else {
                self.trail
            },
            tailing_counter: if self.tailing_counter == 0 {
                TAILING_WINDOW
            } else {
                (self.tailing_counter - 1) as u8
            },
            ..self
        }
    }

    /// The ball after one step of plain motion: a movable ball advances by
    /// its velocity, any other ball stays as it is.
    pub open spec fn traveled(self) -> BallView {
        if self.property.movement_type == BallMovementType::Movable {
            self.placed_at(self.property.pos.spec_moved_by(self.property.v))
        } else {
            self
        }
    }

    /// The ball with the velocity `v`.
    pub open spec fn with_velocity(self, v: Vector) -> BallView {
        BallView { property: BallProperty { v, ..self.property }, ..self }
    }

    /// The ball in the state `state`.
    pub open spec fn with_state(self, state: BallState) -> BallView {
        BallView { state, ..self }
    }

    /// The ball with the debounce table `hit_counter`.
    pub open spec fn with_hit_counter(self, hit_counter: Map<u64, u8>) -> BallView {
        BallView { hit_counter, ..self }
    }
}

/// One simulated ball.
pub struct Ball {
    pub state: BallState,
    pub property: BallProperty,
    pub control_params: BallControlParams,
    hit_entity_counter: HitCounter,
    ball_type: BallType,
    tailings: CircularQueue<(i64, i64)>,
    tailing_counter: u8,
    root_entity: u64,
    bg_entity: u64,
    dyn_entity: u64,
}

impl View for Ball {
    type V = BallView;

    closed spec fn view(&self) -> BallView {
        BallView {
            state: self.state,
            property: self.property,
            control_params: self.control_params,
            ball_type: self.ball_type,
            hit_counter: counter_entries(self.hit_entity_counter),
            trail: queue_items(self.tailings),
            trail_capacity: queue_capacity(self.tailings),
            tailing_counter: self.tailing_counter,
            root_entity: self.root_entity,
            bg_entity: self.bg_entity,
            dyn_entity: self.dyn_entity,
        }
    }
}

impl Ball {
    /// The property is well formed and the trail has its fixed capacity.
    pub open spec fn wf(&self) -> bool {
        &&& self@.property.wf()
        &&& self@.trail_capacity == TAILING_SIZE
    }

    /// A ball in state `Created`, with an empty trail and no debounce entry.
    pub fn new(
        ball_type: BallType,
        property: BallProperty,
        control_params: BallControlParams,
        root_entity: u64,
        bg_entity: u64,
        dyn_entity: u64,
    ) -> (ball: Ball)
        requires
            property.wf(),
        ensures
            ball.wf(),
            ball@ == (BallView {
                state: BallState::Created,
                property,
                control_params,
                ball_type,
                hit_counter: Map::empty(),
                trail: Seq::empty(),
                trail_capacity: TAILING_SIZE as nat,
                tailing_counter: 0,
                root_entity,
                bg_entity,
                dyn_entity,
            }),
    {
        Ball {
            state: BallState::Created,
            property,
            control_params,
            hit_entity_counter: counter_new(),
            ball_type,
            tailings: queue_with_capacity(TAILING_SIZE),
            tailing_counter: 0,
            root_entity,
            bg_entity,
            dyn_entity,
        }
    }

    /// The lifecycle state.
    pub fn state(&self) -> (s: BallState)
        ensures
            s == self@.state,
    {
        self.state
    }

    /// The physical state.
    pub fn property(&self) -> (p: BallProperty)
        ensures
            p == self@.property,
    {
        self.property
    }

    /// The ranges of the player's controls.
    pub fn control_params(&self) -> (p: BallControlParams)
        ensures
            p == self@.control_params,
    {
        self.control_params
    }

    /// What the ball is.
    pub fn ball_type(&self) -> (t: BallType)
        ensures
            t == self@.ball_type,
    {
        self.ball_type
    }

    /// The entity the ball is known by.
    pub fn root_entity(&self) -> (e: u64)
        ensures
            e == self@.root_entity,
    {
        self.root_entity
    }

    /// The entity that carries the ball's background.
    pub fn bg_entity(&self) -> (e: u64)
        ensures
            e == self@.bg_entity,
    {
        self.bg_entity
    }

    /// The entity that carries the ball's trail.
    pub fn dyn_entity(&self) -> (e: u64)
        ensures
            e == self@.dyn_entity,
    {
        self.dyn_entity
    }

    /// Places the ball at `pos` and lets the trail take note of it.
    pub fn update_pos(&mut self, pos: Vector)
        ensures
            final(self)@ == old(self)@.placed_at(pos),
            old(self).wf() && pos.wf() ==> final(self).wf(),
    {
        self.property.pos = pos;
        self.record_tailing(pos);
    }

    /// Gives the ball the velocity `v`.
    pub fn update_v(&mut self, v: Vector)
        ensures
            final(self)@ == old(self)@.with_velocity(v),
            old(self).wf() && v.wf() ==> final(self).wf(),
    {
        self.property.v = v;
    }

    /// Arms the debounce window for the opponent `e`.
    pub fn store_hit_entity(&mut self, e: u64)
        ensures
            final(self)@ == old(self)@.with_hit_counter(old(self)@.hit_counter.insert(e, HIT_WINDOW)),
            final(self).wf() == old(self).wf(),
    {
        counter_insert(&mut self.hit_entity_counter, e, HIT_WINDOW);
    }

    /// Asks whether a new response to the opponent `e` is allowed, and
    /// advances the opponent's countdown by one check.
    pub fn check_hit_window(&mut self, e: u64) -> (allowed: bool)
        ensures
            allowed == window_allows(old(self)@.hit_counter, e),
            final(self)@ == old(self)@.with_hit_counter(
                window_after_check(old(self)@.hit_counter, e),
            ),
            final(self).wf() == old(self).wf(),
    {
        match counter_get(&self.hit_entity_counter, e) {
            Some(count_value) => {
                if count_value > 0 {
                    counter_insert(&mut self.hit_entity_counter, e, count_value - 1);
                    false
                } else {
                    counter_remove(&mut self.hit_entity_counter, e);
                    true
                }
            },
            None => true,
        }
    }

    /// Forgets every debounce entry.
    pub fn clear_hit_counter(&mut self)
        ensures
            final(self)@ == old(self)@.with_hit_counter(Map::empty()),
            final(self).wf() == old(self).wf(),
    {
        counter_clear(&mut self.hit_entity_counter);
    }

    /// One step of plain motion: a movable ball advances by its velocity,
    /// saturating at the edge of the coordinate range. Returns the position
    /// the ball has afterwards.
    pub fn travel(&mut self) -> (pos: Vector)
        requires
            old(self).wf(),
        ensures
            final(self)@ == old(self)@.traveled(),
            pos == final(self)@.property.pos,
            final(self).wf(),
    {
        if self.property.movement_type == BallMovementType::Movable {
            let target = self.property.pos.moved_by(&self.property.v);
            self.update_pos(target);
        }
        self.property.pos
    }

    /// Puts the ball at `pos`, whatever its velocity.
    pub fn jump(&mut self, pos: Vector)
        ensures
            final(self)@ == old(self)@.placed_at(pos),
            old(self).wf() && pos.wf() ==> final(self).wf(),
    {
        self.property.pos = pos;
        self.record_tailing(pos);
    }

    /// The recorded positions, from the newest to the oldest.
    pub fn tailings(&self) -> (points: Vec<Vector>)
        ensures
            points@.len() == self@.trail.len(),
            forall|i: int|
                0 <= i < points@.len() ==> {
                    &&& (#[trigger] points@[i]).x == self@.trail[self@.trail.len() - 1 - i].0
                    &&& points@[i].y == self@.trail[self@.trail.len() - 1 - i].1
                },
    {
        let raw = queue_newest_first(&self.tailings);
        let mut points: Vec<Vector> = Vec::new();
        let mut i: usize = 0;
        while i < raw.len()
            invariant
                i <= raw.len(),
                points@.len() == i,
                forall|k: int|
                    0 <= k < i ==> (#[trigger] points@[k]).x == raw@[k].0 && points@[k].y
                        == raw@[k].1,
            decreases raw.len() - i,
        {
            let item = raw[i];
            points.push(Vector { x: item.0, y: item.1 });
            i += 1;
        }
        points
    }

    /// Enters `pos` in the trail, or counts down to the next entry.
    fn record_tailing(&mut self, pos: Vector)
        ensures
            final(self)@ == (BallView {
                property: old(self)@.property,
                ..old(self)@.placed_at(pos)
            }),
    {
        if self.tailing_counter == 0 {
            queue_push(&mut self.tailings, (pos.x, pos.y));
            self.tailing_counter = TAILING_WINDOW;
        } else {
            self.tailing_counter -= 1;
        }
    }

    /// The lines of the control panel for this ball.
    ///
    /// A ball that can be adjusted along `x` must be adjustable along `y`
    /// as well.
    pub fn control_displays(&self) -> (displays: Vec<BallControlDisplay>)
        requires
            self@.control_params.x is Some ==> self@.control_params.y is Some,
        ensures
            display_views(displays@) == spec_control_displays(
                self@.ball_type,
                self@.control_params,
            ),
    {
        let mut displays: Vec<BallControlDisplay> = Vec::new();
        let params = self.control_params;
        let ball_type = self.ball_type;
        if let Some(x) = params.x {
            if let Some(y) = params.y {
                let mut text = String::new();
                proof {
                    reveal_strlit("(");
                    reveal_strlit(",");
                    reveal_strlit(")");
                }
                text.append("(");
                push_pair(&mut text, x);
                text.append(",");
                push_pair(&mut text, y);
                text.append(")");
                assert(text@ =~= seq!['('] + pair_text(x) + seq![','] + pair_text(y) + seq![')']);
                displays.push(
                    BallControlDisplay {
                        ball_type: Some(ball_type),
                        control_type: BallControlType::Move2D,
                        text,
                    },
                );
            }
        }
        if let Some(x) = params.x {
            displays.push(make_range_display(ball_type, BallControlType::Move1D, x));
        }
        if let Some(y) = params.y {
            displays.push(make_range_display(ball_type, BallControlType::Move1D, y));
        }
        if let Some(angle) = params.angle {
            displays.push(make_range_display(ball_type, BallControlType::Angle, angle));
        }
        if let Some(force) = params.force {
            displays.push(make_range_display(ball_type, BallControlType::Force, force));
        }
        assert(display_views(displays@) =~= spec_control_displays(ball_type, params));
        displays
    }

    /// Sets the lifecycle state.
    pub fn trigger_anime(&mut self, state: BallState)
        ensures
            final(self)@ == old(self)@.with_state(state),
            final(self).wf() == old(self).wf(),
    {
        self.state = state
    }

    /// Enters the state `Starting`.
    pub fn trigger_starting(&mut self)
        ensures
            final(self)@ == old(self)@.with_state(BallState::Starting),
            final(self).wf() == old(self).wf(),
    {
        self.trigger_anime(BallState::Starting);
    }

    /// Enters the state `Ending`.
    pub fn trigger_ending(&mut self)
        ensures
            final(self)@ == old(self)@.with_state(BallState::Ending),
            final(self).wf() == old(self).wf(),
    {
        self.trigger_anime(BallState::Ending);
    }
}

} // verus!
