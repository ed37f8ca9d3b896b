//! The status of the game: its mode, the run in progress, and which parts
//! of the picture are up to date.

use crate::ball::BallControlDisplay;
use crate::leaderboard::model::{empty_history, LevelHistory, LevelHistoryView};
use crate::level_builder::LevelConfig;
use vstd::prelude::*;

verus! {

/// Refresh target: the background of the field.
pub const REFRESH_GAME_BG: u8 = 0;

/// Refresh target: the foreground of the field.
pub const REFRESH_GAME_FG: u8 = 1;

/// The targets that are up to date, stored in a `bevy::utils::HashSet<u8>`.
///
/// Trusted: the struct is opaque to the verifier.
#[verifier::external_body]
pub struct RefreshSet {
    inner: bevy::utils::HashSet<u8>,
}

/// The targets a [`RefreshSet`] holds.
pub uninterp spec fn refresh_targets(s: RefreshSet) -> Set<u8>;

/// Trusted wrapper of `Default::default` for the hash set: the new set is
/// empty.
#[verifier::external_body]
pub(crate) fn refresh_set_new() -> (targets: RefreshSet)
    ensures
        refresh_targets(targets) == (Set::<u8>::empty()),
{
    RefreshSet { inner: bevy::utils::HashSet::default() }
}

/// Trusted wrapper of `HashSet::insert`: afterwards the set holds `target`
/// and whatever it held before.
#[verifier::external_body]
pub(crate) fn refresh_set_insert(targets: &mut RefreshSet, target: u8)
    ensures
        refresh_targets(*final(targets)) == refresh_targets(*old(targets)).insert(target),
{
    targets.inner.insert(target);
}

/// Trusted wrapper of `HashSet::remove`: afterwards the set holds what it
/// held before, except `target`.
#[verifier::external_body]
pub(crate) fn refresh_set_remove(targets: &mut RefreshSet, target: u8)
    ensures
        refresh_targets(*final(targets)) == refresh_targets(*old(targets)).remove(target),
{
    targets.inner.remove(&target);
}

/// Trusted wrapper of `HashSet::contains`.
#[verifier::external_body]
pub(crate) fn refresh_set_contains(targets: &RefreshSet, target: u8) -> (found: bool)
    ensures
        found == refresh_targets(*targets).contains(target),
{
    targets.inner.contains(&target)
}

/// Trusted wrapper of `HashSet::clear`: afterwards the set is empty.
#[verifier::external_body]
pub(crate) fn refresh_set_clear(targets: &mut RefreshSet)
    ensures
        refresh_targets(*final(targets)) == (Set::<u8>::empty()),
{
    targets.inner.clear();
}

/// What the game is doing.
#[derive(Clone, Copy, Debug, PartialEq, Eq, Structural)]
pub enum StatusMode {
    Demo,
    Setup,
    Deploying,
    Running,
    Paused,
    Done,
}

impl Default for StatusMode {
    fn default() -> (mode: StatusMode)
        ensures
            mode == StatusMode::Demo,
    {
        StatusMode::Demo
    }
}

/// The status of the game.
pub struct GameStatus {
    pub refreshed_targets: RefreshSet,
    pub in_modified_sensitivity: bool,
    pub mode: StatusMode,
    pub control_displays: Vec<BallControlDisplay>,
    pub current_history: LevelHistory,
    pub current_level: LevelConfig,
}

/// The mathematical content of a [`GameStatus`], but for the level and the
/// control panel, which the operations below leave alone.
pub struct GameStatusView {
    pub refreshed_targets: Set<u8>,
    pub in_modified_sensitivity: bool,
    pub mode: StatusMode,
    pub current_history: LevelHistoryView,
}

impl View for GameStatus {
    type V = GameStatusView;

    open spec fn view(&self) -> GameStatusView {
        GameStatusView {
            refreshed_targets: refresh_targets(self.refreshed_targets),
            in_modified_sensitivity: self.in_modified_sensitivity,
            mode: self.mode,
            current_history: self.current_history@,
        }
    }
}

impl GameStatus {
    /// The level and the control panel are those of `other`.
    pub open spec fn same_level(&self, other: &GameStatus) -> bool {
        &&& self.control_displays == other.control_displays
        &&& self.current_level == other.current_level
    }
}

impl Default for GameStatus {
    fn default() -> (status: GameStatus)
        ensures
            status@ == (GameStatusView {
                refreshed_targets: Set::empty(),
                in_modified_sensitivity: false,
                mode: StatusMode::Demo,
                current_history: empty_history(),
            }),
            status.control_displays@.len() == 0,
            status.current_level.balls@.len() == 0,
            status.current_level.name@ == ""@,
    {
        GameStatus {
            refreshed_targets: refresh_set_new(),
            in_modified_sensitivity: false,
            mode: StatusMode::Demo,
            control_displays: Vec::new(),
            current_history: LevelHistory::default(),
            current_level: LevelConfig { name: "", balls: Vec::new() },
        }
    }
}

impl GameStatus {
    /// Starts the history of a new run.
    pub fn reset_history(&mut self)
        ensures
            final(self)@ == (GameStatusView { current_history: empty_history(), ..old(self)@ }),
            final(self).same_level(old(self)),
    {
        self.current_history = LevelHistory::default()
    }

    /// Counts one more tick of the run in progress.
    pub fn tick(&mut self)
        requires
            old(self)@.current_history.time < u32::MAX,
        ensures
            final(self)@ == (GameStatusView {
                current_history: LevelHistoryView {
                    time: (old(self)@.current_history.time + 1) as u32,
                    ..old(self)@.current_history
                },
                ..old(self)@
            }),
            final(self).same_level(old(self)),
    {
        self.current_history.time += 1;
    }

    /// Closes the run in progress: notes whether it cleared the level and
    /// the time at which it ended, which the caller reads from the clock.
    pub fn sumbit_history(&mut self, is_clear: bool, created_at: String)
        ensures
            final(self)@ == (GameStatusView {
                current_history: LevelHistoryView {
                    is_clear,
                    created_at: created_at@,
                    ..old(self)@.current_history
                },
                ..old(self)@
            }),
            final(self).same_level(old(self)),
    {
        self.current_history.is_clear = is_clear;
        self.current_history.created_at = created_at;
    }

    /// Asks for `target` to be drawn anew; without a target, for all of
    /// them.
    pub fn require_refresh(&mut self, target: Option<u8>)
        ensures
            final(self)@ == (GameStatusView {
                refreshed_targets: match target {
                    Some(t) => old(self)@.refreshed_targets.remove(t),
                    None => Set::empty(),
                },
                ..old(self)@
            }),
            final(self).same_level(old(self)),
    {
        if let Some(target) = target {
            refresh_set_remove(&mut self.refreshed_targets, target);
        } else {
            refresh_set_clear(&mut self.refreshed_targets);
        }
    }

    /// Tells whether `target` is up to date.
    pub fn is_refreshed(&self, target: u8) -> (refreshed: bool)
        ensures
            refreshed == self@.refreshed_targets.contains(target),
    {
        refresh_set_contains(&self.refreshed_targets, target)
    }

    /// Notes that `target` is up to date.
    pub fn set_refreshed(&mut self, target: u8)
        ensures
            final(self)@ == (GameStatusView {
                refreshed_targets: old(self)@.refreshed_targets.insert(target),
                ..old(self)@
            }),
            final(self).same_level(old(self)),
    {
        refresh_set_insert(&mut self.refreshed_targets, target);
    }
}

} // verus!
