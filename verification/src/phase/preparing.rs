//! The phase in which the balls are simulated, and the tick that drives
//! them.

use crate::ball::{
    Ball, BallMovementType, BallState, BallView, ENDING_DONE_EVENT, STARTING_DONE_EVENT,
};
use crate::ball_interaction::{
    actions_wf, all_wf, ball_views, build_hit_map, distinct_entities, hit_actions,
    hit_actions_upto, lemma_idle_ball_has_no_actions, moved_by_actions, pair_entry,
    pending_actions, resolve_hit_actions, resolved, row_actions, HitAction,
};
use crate::phase::{PhaseBase, PhaseState};
use crate::timer::GameRefreshTimer;
use std::collections::HashMap;
use vstd::prelude::*;
use vstd::std_specs::hash::group_hash_axioms;

verus! {

/// The phase active in the state `Preparing`.
pub struct Phase;

impl PhaseBase for Phase {
    open spec fn spec_state(&self) -> PhaseState {
        PhaseState::Preparing
    }

    fn state(&self) -> (state: PhaseState) {
        PhaseState::Preparing
    }
}

/// The report that an animation of the entity `entity` has run to its end;
/// `user_data` tells which.
#[derive(Clone, Copy, Debug, PartialEq, Eq, Structural)]
pub struct DoneEvent {
    pub entity: u64,
    pub user_data: u64,
}

/// What one tick asks of the program around the simulation.
pub struct TickReport {
    /// Balls that entered the state `Starting`: their entry animation is due.
    pub started: Vec<u64>,
    /// Balls that touched a partner with which they succeed.
    pub succeeded: Vec<u64>,
    /// Balls that touched a partner with which they fail.
    pub failed: Vec<u64>,
    /// Balls that answered a contact by moving: one sound cue each.
    pub hit: Vec<u64>,
    /// Entities whose exit animation is over: they are to be despawned.
    pub removed: Vec<u64>,
}

/// A ball at the start of a tick: a created ball enters `Starting`.
pub open spec fn promoted(ball: BallView) -> BallView {
    if ball.state == BallState::Created {
        ball.with_state(BallState::Starting)
    } else {
        ball
    }
}

/// Every ball at the start of a tick.
pub open spec fn promoted_all(balls: Seq<BallView>) -> Seq<BallView> {
    Seq::new(balls.len(), |i: int| promoted(balls[i]))
}

/// The entities among the first `n` balls that are in the state `Created`.
pub open spec fn started_upto(balls: Seq<BallView>, n: int) -> Seq<u64>
    decreases n,
{
    if n <= 0 {
        Seq::empty()
    } else if balls[n - 1].state == BallState::Created {
        started_upto(balls, n - 1).push(balls[n - 1].root_entity)
    } else {
        started_upto(balls, n - 1)
    }
}

/// The entities among the first `n` balls whose actions of this tick hold
/// `outcome`.
pub open spec fn outcome_upto(balls: Seq<BallView>, n: int, outcome: HitAction) -> Seq<u64>
    decreases n,
{
    if n <= 0 {
        Seq::empty()
    } else if hit_actions(balls, balls[n - 1].root_entity).contains(outcome) {
        outcome_upto(balls, n - 1, outcome).push(balls[n - 1].root_entity)
    } else {
        outcome_upto(balls, n - 1, outcome)
    }
}

/// The entities among the first `n` balls that this tick's contacts move.
pub open spec fn hit_upto(balls: Seq<BallView>, n: int) -> Seq<u64>
    decreases n,
{
    if n <= 0 {
        Seq::empty()
    } else if moved_by_actions(balls[n - 1], hit_actions(balls, balls[n - 1].root_entity)) {
        hit_upto(balls, n - 1).push(balls[n - 1].root_entity)
    } else {
        hit_upto(balls, n - 1)
    }
}

/// The ball at the place `i` after the physics of one tick: its contacts
/// are resolved against the snapshot `balls`, and a running, movable ball
/// that no contact moved travels by its velocity.
pub open spec fn after_physics(balls: Seq<BallView>, i: int) -> BallView {
    let ball = balls[i];
    let actions = hit_actions(balls, ball.root_entity);
    let after = resolved(ball, actions);
    if !moved_by_actions(ball, actions) && ball.state == BallState::Running
        && ball.property.movement_type == BallMovementType::Movable {
        after.traveled()
    } else {
        after
    }
}

/// Every ball after the physics of one tick.
pub open spec fn physics_all(balls: Seq<BallView>) -> Seq<BallView> {
    Seq::new(balls.len(), |i: int| after_physics(balls, i))
}

/// The event reports the end of the entry animation of the entity `e`.
pub open spec fn is_starting_done(event: DoneEvent, e: u64) -> bool {
    event.user_data == STARTING_DONE_EVENT && event.entity == e
}

/// Some event reports the end of the entry animation of the entity `e`.
pub open spec fn starting_done(events: Seq<DoneEvent>, e: u64) -> bool {
    exists|k: int| 0 <= k < events.len() && #[trigger] is_starting_done(events[k], e)
}

/// A ball after the events are drained: a starting ball whose entry
/// animation is over runs.
pub open spec fn after_events(ball: BallView, events: Seq<DoneEvent>) -> BallView {
    if ball.state == BallState::Starting && starting_done(events, ball.root_entity) {
        ball.with_state(BallState::Running)
    } else {
        ball
    }
}

/// Every ball after the events are drained.
pub open spec fn events_all(balls: Seq<BallView>, events: Seq<DoneEvent>) -> Seq<BallView> {
    Seq::new(balls.len(), |i: int| after_events(balls[i], events))
}

/// The entities that the first `n` events mark for removal, each once, in
/// the order in which they are first named.
pub open spec fn marked_upto(events: Seq<DoneEvent>, n: int) -> Seq<u64>
    decreases n,
{
    if n <= 0 {
        Seq::empty()
    } else {
        let rest = marked_upto(events, n - 1);
        let event = events[n - 1];
        if event.user_data == ENDING_DONE_EVENT && !rest.contains(event.entity) {
            rest.push(event.entity)
        } else {
            rest
        }
    }
}

/// The entities that the events mark for removal.
pub open spec fn marked(events: Seq<DoneEvent>) -> Seq<u64> {
    marked_upto(events, events.len() as int)
}

/// Those of the first `n` balls that are not marked, in their order.
pub open spec fn kept_upto(balls: Seq<BallView>, marked: Seq<u64>, n: int) -> Seq<BallView>
    decreases n,
{
    if n <= 0 {
        Seq::empty()
    } else if marked.contains(balls[n - 1].root_entity) {
        kept_upto(balls, marked, n - 1)
    } else {
        kept_upto(balls, marked, n - 1).push(balls[n - 1])
    }
}

/// The active set after one tick: created balls are promoted, the contacts
/// among the running balls are resolved and the untouched ones travel, the
/// finished entry animations are honoured, and the balls whose exit
/// animation is over are gone.
pub open spec fn tick_views(balls: Seq<BallView>, events: Seq<DoneEvent>) -> Seq<BallView> {
    let after = events_all(physics_all(promoted_all(balls)), events);
    kept_upto(after, marked(events), after.len() as int)
}

/// The ball at the place `i` after all steps of a tick but the removal.
pub open spec fn ticked(balls: Seq<BallView>, events: Seq<DoneEvent>, i: int) -> BallView {
    after_events(after_physics(promoted_all(balls), i), events)
}

/// A tick moves a ball forward in its life and never back: a created ball
/// starts, a starting ball may begin to run, and every other ball keeps its
/// state. What a ball is never changes: its entities, its type, its radius
/// and its kind of movement stay.
pub proof fn lemma_tick_keeps_lifecycle(balls: Seq<BallView>, events: Seq<DoneEvent>, i: int)
    requires
        0 <= i < balls.len(),
    ensures
        ({
            let before = balls[i];
            let after = ticked(balls, events, i);
            &&& match before.state {
                BallState::Created | BallState::Starting => after.state == BallState::Starting
                    || after.state == BallState::Running,
                _ => after.state == before.state,
            }
            &&& after.root_entity == before.root_entity
            &&& after.bg_entity == before.bg_entity
            &&& after.dyn_entity == before.dyn_entity
            &&& after.ball_type == before.ball_type
            &&& after.control_params == before.control_params
            &&& after.property.radius == before.property.radius
            &&& after.property.movement_type == before.property.movement_type
        }),
{
}

/// A ball that is not movable stays where it is and as it is: a tick
/// changes neither its position nor its velocity nor its trail.
pub proof fn lemma_immovable_stays(balls: Seq<BallView>, events: Seq<DoneEvent>, i: int)
    requires
        0 <= i < balls.len(),
        balls[i].property.movement_type != BallMovementType::Movable,
    ensures
        ticked(balls, events, i).property == balls[i].property,
        ticked(balls, events, i).trail == balls[i].trail,
{
}

/// A ball that is not running is not moved by a tick, given that the
/// entities of the balls are all different.
pub proof fn lemma_only_running_balls_move(balls: Seq<BallView>, events: Seq<DoneEvent>, i: int)
    requires
        0 <= i < balls.len(),
        distinct_entities(balls),
        balls[i].state != BallState::Running,
    ensures
        ticked(balls, events, i).property == balls[i].property,
        ticked(balls, events, i).trail == balls[i].trail,
{
    let promoted = promoted_all(balls);
    assert(distinct_entities(promoted)) by {
        assert forall|a: int, b: int| 0 <= a < b < promoted.len() implies (
        #[trigger] promoted[a]).root_entity != (#[trigger] promoted[b]).root_entity by {
            assert(balls[a].root_entity != balls[b].root_entity);
        }
    }
    lemma_idle_ball_has_no_actions(promoted, i);
}

/// What a tick keeps and what it removes: every ball that is left was there
/// before and is not marked, in the old order, and every ball that is not
/// marked is left.
pub proof fn lemma_kept_are_the_unmarked(balls: Seq<BallView>, marked: Seq<u64>, n: int)
    requires
        0 <= n <= balls.len(),
    ensures
        kept_upto(balls, marked, n).len() <= n,
        forall|j: int|
            0 <= j < kept_upto(balls, marked, n).len() ==> !marked.contains(
                (#[trigger] kept_upto(balls, marked, n)[j]).root_entity,
            ) && exists|k: int| 0 <= k < n && balls[k] == kept_upto(balls, marked, n)[j],
        forall|k: int|
            0 <= k < n && !marked.contains((#[trigger] balls[k]).root_entity) ==> kept_upto(
                balls,
                marked,
                n,
            ).contains(balls[k]),
    decreases n,
{
    if n > 0 {
        lemma_kept_are_the_unmarked(balls, marked, n - 1);
        let rest = kept_upto(balls, marked, n - 1);
        let all = kept_upto(balls, marked, n);
        if !marked.contains(balls[n - 1].root_entity) {
            assert(all[all.len() - 1] == balls[n - 1]);
            assert forall|k: int|
                0 <= k < n && !marked.contains((#[trigger] balls[k]).root_entity) implies all.contains(
                balls[k],
            ) by {
                if k < n - 1 {
                    let j = choose|j: int| 0 <= j < rest.len() && rest[j] == balls[k];
                    assert(all[j] == balls[k]);
                }
            }
        }
    }
}

/// Promotes every created ball to `Starting`.
fn promote_created(balls: &mut Vec<Ball>) -> (started: Vec<u64>)
    requires
        all_wf(old(balls)@),
    ensures
        ball_views(final(balls)@) == promoted_all(ball_views(old(balls)@)),
        started@ == started_upto(ball_views(old(balls)@), old(balls)@.len() as int),
        all_wf(final(balls)@),
{
    let ghost before = ball_views(balls@);
    let mut started: Vec<u64> = Vec::new();
    let n = balls.len();
    let mut i: usize = 0;
    while i < n
        invariant
            i <= n,
            n == balls@.len(),
            before.len() == n,
            all_wf(balls@),
            forall|k: int| 0 <= k < i ==> (#[trigger] balls@[k])@ == promoted(before[k]),
            forall|k: int| i <= k < n ==> (#[trigger] balls@[k])@ == before[k],
            started@ == started_upto(before, i as int),
        decreases n - i,
    {
        if balls[i].state() == BallState::Created {
            let e = balls[i].root_entity();
            balls[i].trigger_starting();
            started.push(e);
        }
        i += 1;
    }
    assert(ball_views(balls@) =~= promoted_all(before));
    started
}

/// Tells whether `items` holds `e`.
fn holds(items: &Vec<u64>, e: u64) -> (found: bool)
    ensures
        found == items@.contains(e),
{
    let mut i: usize = 0;
    while i < items.len()
        invariant
            i <= items.len(),
            forall|k: int| 0 <= k < i ==> items@[k] != e,
        decreases items.len() - i,
    {
        if items[i] == e {
            return true;
        }
        i += 1;
    }
    false
}

/// Tells whether `actions` holds `outcome`.
fn holds_action(actions: &Vec<HitAction>, outcome: HitAction) -> (found: bool)
    ensures
        found == actions@.contains(outcome),
{
    let mut i: usize = 0;
    while i < actions.len()
        invariant
            i <= actions.len(),
            forall|k: int| 0 <= k < i ==> actions@[k] != outcome,
        decreases actions.len() - i,
    {
        if actions[i] == outcome {
            return true;
        }
        i += 1;
    }
    false
}

/// Lists, in the order of the balls, the entities whose actions hold
/// `outcome`.
fn outcome_entities(
    balls: &Vec<Ball>,
    hit_map: &HashMap<u64, Vec<HitAction>>,
    outcome: HitAction,
) -> (entities: Vec<u64>)
    requires
        forall|e: u64| #[trigger]
            pending_actions(hit_map@, e) == hit_actions(ball_views(balls@), e),
    ensures
        entities@ == outcome_upto(ball_views(balls@), balls@.len() as int, outcome),
{
    broadcast use group_hash_axioms;

    let ghost views = ball_views(balls@);
    let mut entities: Vec<u64> = Vec::new();
    let n = balls.len();
    let mut i: usize = 0;
    while i < n
        invariant
            i <= n,
            n == balls@.len(),
            views == ball_views(balls@),
            forall|e: u64| #[trigger] pending_actions(hit_map@, e) == hit_actions(views, e),
            entities@ == outcome_upto(views, i as int, outcome),
        decreases n - i,
    {
        let e = balls[i].root_entity();
        assert(pending_actions(hit_map@, e) == hit_actions(views, e));
        let found = match hit_map.get(&e) {
            Some(actions) => holds_action(actions, outcome),
            None => false,
        };
        if found {
            entities.push(e);
        }
        i += 1;
    }
    entities
}

/// Resolves the contacts of every ball against the hit map and lets the
/// running, movable balls that no contact moved travel.
fn apply_hit_map(balls: &mut Vec<Ball>, hit_map: &HashMap<u64, Vec<HitAction>>) -> (hit: Vec<u64>)
    requires
        all_wf(old(balls)@),
        forall|e: u64| #[trigger]
            pending_actions(hit_map@, e) == hit_actions(ball_views(old(balls)@), e),
        forall|e: u64| actions_wf(#[trigger] hit_actions(ball_views(old(balls)@), e)),
    ensures
        ball_views(final(balls)@) == physics_all(ball_views(old(balls)@)),
        hit@ == hit_upto(ball_views(old(balls)@), old(balls)@.len() as int),
        all_wf(final(balls)@),
{
    broadcast use group_hash_axioms;

    let ghost before = ball_views(balls@);
    let mut hit: Vec<u64> = Vec::new();
    let n = balls.len();
    let mut i: usize = 0;
    while i < n
        invariant
            i <= n,
            n == balls@.len(),
            before.len() == n,
            all_wf(balls@),
            forall|e: u64| #[trigger] pending_actions(hit_map@, e) == hit_actions(before, e),
            forall|e: u64| actions_wf(#[trigger] hit_actions(before, e)),
            forall|k: int| 0 <= k < i ==> (#[trigger] balls@[k])@ == after_physics(before, k),
            forall|k: int| i <= k < n ==> (#[trigger] balls@[k])@ == before[k],
            hit@ == hit_upto(before, i as int),
        decreases n - i,
    {
        let e = balls[i].root_entity();
        let state = balls[i].state();
        let movable = balls[i].property().movement_type == BallMovementType::Movable;
        assert(pending_actions(hit_map@, e) == hit_actions(before, e));
        assert(actions_wf(hit_actions(before, e)));
        let moved = match hit_map.get(&e) {
            Some(actions) => resolve_hit_actions(&mut balls[i], actions),
            None => {
                let no_actions: Vec<HitAction> = Vec::new();
                resolve_hit_actions(&mut balls[i], &no_actions)
            },
        };
        if moved {
            hit.push(e);
        } else if state == BallState::Running && movable {
            balls[i].travel();
        }
        i += 1;
    }
    assert(ball_views(balls@) =~= physics_all(before));
    hit
}

/// Tells whether some event reports the end of the entry animation of `e`.
fn has_starting_done(events: &Vec<DoneEvent>, e: u64) -> (found: bool)
    ensures
        found == starting_done(events@, e),
{
    let mut i: usize = 0;
    while i < events.len()
        invariant
            i <= events.len(),
            forall|k: int| 0 <= k < i ==> !is_starting_done(#[trigger] events@[k], e),
        decreases events.len() - i,
    {
        if events[i].user_data == STARTING_DONE_EVENT && events[i].entity == e {
            assert(is_starting_done(events@[i as int], e));
            return true;
        }
        i += 1;
    }
    false
}

/// Lets every starting ball run whose entry animation is reported over.
fn promote_started(balls: &mut Vec<Ball>, events: &Vec<DoneEvent>)
    requires
        all_wf(old(balls)@),
    ensures
        ball_views(final(balls)@) == events_all(ball_views(old(balls)@), events@),
        all_wf(final(balls)@),
{
    let ghost before = ball_views(balls@);
    let n = balls.len();
    let mut i: usize = 0;
    while i < n
        invariant
            i <= n,
            n == balls@.len(),
            before.len() == n,
            all_wf(balls@),
            forall|k: int|
                0 <= k < i ==> (#[trigger] balls@[k])@ == after_events(before[k], events@),
            forall|k: int| i <= k < n ==> (#[trigger] balls@[k])@ == before[k],
        decreases n - i,
    {
        if balls[i].state() == BallState::Starting {
            let e = balls[i].root_entity();
            if has_starting_done(events, e) {
                balls[i].trigger_anime(BallState::Running);
            }
        }
        i += 1;
    }
    assert(ball_views(balls@) =~= events_all(before, events@));
}

/// Collects the entities whose exit animation is reported over.
fn marked_for_removal(events: &Vec<DoneEvent>) -> (entities: Vec<u64>)
    ensures
        entities@ == marked(events@),
{
    let mut entities: Vec<u64> = Vec::new();
    let mut i: usize = 0;
    while i < events.len()
        invariant
            i <= events.len(),
            entities@ == marked_upto(events@, i as int),
        decreases events.len() - i,
    {
        let event = events[i];
        if event.user_data == ENDING_DONE_EVENT && !holds(&entities, event.entity) {
            entities.push(event.entity);
        }
        i += 1;
    }
    entities
}

/// Takes the marked balls out of the active set.
fn remove_marked(balls: &mut Vec<Ball>, marked: &Vec<u64>)
    requires
        all_wf(old(balls)@),
    ensures
        ball_views(final(balls)@) == kept_upto(
            ball_views(old(balls)@),
            marked@,
            old(balls)@.len() as int,
        ),
        all_wf(final(balls)@),
{
    let ghost before = ball_views(balls@);
    let ghost n = balls@.len() as int;
    let ghost done: int = 0;
    let mut i: usize = 0;
    while i < balls.len()
        invariant
            before.len() == n,
            0 <= done <= n,
            i <= balls@.len(),
            balls@.len() - i == n - done,
            all_wf(balls@),
            kept_upto(before, marked@, done).len() == i,
            forall|k: int|
                0 <= k < i ==> (#[trigger] balls@[k])@ == kept_upto(before, marked@, done)[k],
            forall|k: int|
                i <= k < balls@.len() ==> (#[trigger] balls@[k])@ == before[k - i + done],
        decreases balls@.len() - i,
    {
        let e = balls[i].root_entity();
        if holds(marked, e) {
            balls.remove(i);
        } else {
            i += 1;
        }
        proof {
            done = done + 1;
        }
    }
    assert(ball_views(balls@) =~= kept_upto(before, marked@, n));
}

/// Every action of a tick names a well-formed opponent when every ball is
/// well formed.
pub proof fn lemma_hit_actions_wf(balls: Seq<BallView>, e: u64)
    requires
        forall|i: int| 0 <= i < balls.len() ==> (#[trigger] balls[i]).property.wf(),
    ensures
        actions_wf(hit_actions(balls, e)),
{
    lemma_hit_actions_upto_wf(balls, balls.len() as int, e);
}

/// The same for the rows below `i_end`.
proof fn lemma_hit_actions_upto_wf(balls: Seq<BallView>, i_end: int, e: u64)
    requires
        forall|i: int| 0 <= i < balls.len() ==> (#[trigger] balls[i]).property.wf(),
        i_end <= balls.len(),
    ensures
        actions_wf(hit_actions_upto(balls, i_end, e)),
    decreases i_end,
{
    if i_end > 0 {
        lemma_hit_actions_upto_wf(balls, i_end - 1, e);
        lemma_row_actions_wf(balls, i_end - 1, balls.len() as int, e);
    }
}

/// The same for one row.
proof fn lemma_row_actions_wf(balls: Seq<BallView>, i: int, j_end: int, e: u64)
    requires
        forall|i: int| 0 <= i < balls.len() ==> (#[trigger] balls[i]).property.wf(),
        0 <= i,
        j_end <= balls.len(),
    ensures
        actions_wf(row_actions(balls, i, j_end, e)),
    decreases j_end - i,
{
    if j_end > i + 1 {
        lemma_row_actions_wf(balls, i, j_end - 1, e);
        assert(balls[i].property.wf());
        assert(balls[j_end - 1].property.wf());
        assert(actions_wf(pair_entry(balls, i, j_end - 1, e)));
    }
}

/// One tick of the simulation, given the events that were reported since
/// the last one.
pub fn advance(balls: &mut Vec<Ball>, events: &Vec<DoneEvent>) -> (report: TickReport)
    requires
        all_wf(old(balls)@),
    ensures
        ball_views(final(balls)@) == tick_views(ball_views(old(balls)@), events@),
        all_wf(final(balls)@),
        report.started@ == started_upto(ball_views(old(balls)@), old(balls)@.len() as int),
        report.succeeded@ == outcome_upto(
            promoted_all(ball_views(old(balls)@)),
            old(balls)@.len() as int,
            HitAction::Success,
        ),
        report.failed@ == outcome_upto(
            promoted_all(ball_views(old(balls)@)),
            old(balls)@.len() as int,
            HitAction::Failure,
        ),
        report.hit@ == hit_upto(promoted_all(ball_views(old(balls)@)), old(balls)@.len() as int),
        report.removed@ == marked(events@),
{
    let started = promote_created(balls);
    let ghost snapshot = ball_views(balls@);
    let hit_map = build_hit_map(balls);
    let succeeded = outcome_entities(balls, &hit_map, HitAction::Success);
    let failed = outcome_entities(balls, &hit_map, HitAction::Failure);
    proof {
        assert forall|e: u64| actions_wf(#[trigger] hit_actions(snapshot, e)) by {
            assert forall|i: int| 0 <= i < snapshot.len() implies (#[trigger] snapshot[i]).property.wf() by {
                assert(balls@[i].wf());
            }
            lemma_hit_actions_wf(snapshot, e);
        }
    }
    let hit = apply_hit_map(balls, &hit_map);
    promote_started(balls, events);
    let removed = marked_for_removal(events);
    remove_marked(balls, &removed);
    TickReport { started, succeeded, failed, hit, removed }
}

/// Advances the refresh timer by `delta_nanos` and, when it has finished
/// during this step, runs one tick. Without a tick the balls stay as they
/// are and the events are left for the next call.
pub fn state_update(
    balls: &mut Vec<Ball>,
    events: &Vec<DoneEvent>,
    refresh_timer: &mut GameRefreshTimer,
    delta_nanos: u64,
) -> (report: Option<TickReport>)
    requires
        all_wf(old(balls)@),
    ensures
        all_wf(final(balls)@),
        final(refresh_timer).0 == old(refresh_timer).0.spec_tick(delta_nanos).0,
        report is Some <==> old(refresh_timer).0.spec_tick(delta_nanos).1,
        report is None ==> final(balls)@ == old(balls)@,
        report matches Some(r) ==> {
            &&& ball_views(final(balls)@) == tick_views(ball_views(old(balls)@), events@)
            &&& r.started@ == started_upto(ball_views(old(balls)@), old(balls)@.len() as int)
            &&& r.succeeded@ == outcome_upto(
                promoted_all(ball_views(old(balls)@)),
                old(balls)@.len() as int,
                HitAction::Success,
            )
            &&& r.failed@ == outcome_upto(
                promoted_all(ball_views(old(balls)@)),
                old(balls)@.len() as int,
                HitAction::Failure,
            )
            &&& r.hit@ == hit_upto(
                promoted_all(ball_views(old(balls)@)),
                old(balls)@.len() as int,
            )
            &&& r.removed@ == marked(events@)
        },
{
    if refresh_timer.tick(delta_nanos) {
        Some(advance(balls, events))
    } else {
        None
    }
}

} // verus!
