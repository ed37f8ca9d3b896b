use mechanics::leaderboard::model::{
    LeaderboardModel, LevelHistory, MAX_HISTORIES_PER_LEVEL,
};
use mechanics::leaderboard::record::LeaderboardRecord;

fn run(is_clear: bool, time: u32, stamp: &str) -> LevelHistory {
    LevelHistory {
        is_clear,
        time,
        x: vec![1, 2],
        y: vec![-3],
        force: Vec::new(),
        angle: vec![45],
        created_at: stamp.to_string(),
    }
}

fn record() -> LeaderboardRecord {
    LeaderboardRecord {
        player_name: "ann".to_string(),
        time: 1,
        score: 2,
        max_alpha_count: 3,
        max_control_chain: 4,
        max_hyper_chain: 5,
        total_control_count: 6,
        total_hyper_count: 7,
        max_control_count: 8,
        max_full_level_control_count: 9,
        max_control_level: 10,
        max_hyper_level: 11,
        total_stopping_time: 12,
        max_stopping_time: 13,
        started_at: "start".to_string(),
        ended_at: "end".to_string(),
    }
}

#[test]
fn histories_per_level() {
    assert_eq!(MAX_HISTORIES_PER_LEVEL, 9);
}

#[test]
fn an_unopened_level_has_the_empty_record() {
    let model = LeaderboardModel::new();
    let info = model.level_info("hello".to_string());
    assert!(!info.is_clear);
    assert!(info.best_history.is_none());
    assert!(info.histories.is_empty());
}

#[test]
fn storing_in_an_unopened_level_stores_nothing() {
    let mut model = LeaderboardModel::new();
    model.store_level_history("hello".to_string(), run(true, 10, "a"));
    assert!(model.level_map.is_empty());
    assert!(model.level_info("hello".to_string()).histories.is_empty());
}

#[test]
fn opening_twice_keeps_the_record() {
    let mut model = LeaderboardModel::new();
    model.open_level("hello".to_string());
    model.store_level_history("hello".to_string(), run(false, 10, "a"));
    model.open_level("hello".to_string());
    model.open_level("maze".to_string());
    assert_eq!(model.level_map.len(), 2);
    let info = model.level_info("hello".to_string());
    assert_eq!(info.histories.len(), 1);
    assert_eq!(info.histories[0].time, 10);
    assert_eq!(info.histories[0].x, vec![1, 2]);
    assert_eq!(info.histories[0].y, vec![-3]);
    assert_eq!(info.histories[0].angle, vec![45]);
    assert_eq!(info.histories[0].created_at, "a");
    assert!(model.level_info("maze".to_string()).histories.is_empty());
}

#[test]
fn a_failed_run_does_not_clear_the_level() {
    let mut model = LeaderboardModel::new();
    model.open_level("hello".to_string());
    model.store_level_history("hello".to_string(), run(false, 10, "a"));
    let info = model.level_info("hello".to_string());
    assert!(!info.is_clear);
    assert!(info.best_history.is_none());
}

#[test]
fn the_best_run_is_the_fastest_clear_run() {
    let mut model = LeaderboardModel::new();
    model.open_level("hello".to_string());
    model.store_level_history("hello".to_string(), run(true, 30, "a"));
    model.store_level_history("hello".to_string(), run(false, 5, "b"));
    model.store_level_history("hello".to_string(), run(true, 40, "c"));
    let info = model.level_info("hello".to_string());
    assert!(info.is_clear);
    assert_eq!(info.best_history.as_ref().unwrap().created_at, "a");
    model.store_level_history("hello".to_string(), run(true, 30, "d"));
    let info = model.level_info("hello".to_string());
    // an equally fast run does not replace the best
    assert_eq!(info.best_history.as_ref().unwrap().created_at, "a");
    model.store_level_history("hello".to_string(), run(true, 29, "e"));
    let info = model.level_info("hello".to_string());
    assert_eq!(info.best_history.as_ref().unwrap().created_at, "e");
    assert_eq!(info.best_history.as_ref().unwrap().time, 29);
    assert_eq!(info.histories.len(), 5);
}

#[test]
fn only_the_first_nine_runs_are_listed() {
    let mut model = LeaderboardModel::new();
    model.open_level("pool".to_string());
    for t in 0..12 {
        model.store_level_history("pool".to_string(), run(true, 100 - t, "s"));
    }
    let info = model.level_info("pool".to_string());
    let times: Vec<u32> = info.histories.iter().map(|h| h.time).collect();
    assert_eq!(times, vec![100, 99, 98, 97, 96, 95, 94, 93, 92]);
    // the best run is kept even where the list is full
    assert_eq!(info.best_history.unwrap().time, 89);
}

#[test]
fn levels_are_kept_apart() {
    let mut model = LeaderboardModel::new();
    model.open_level("hello".to_string());
    model.open_level("maze".to_string());
    model.store_level_history("maze".to_string(), run(true, 7, "m"));
    assert!(model.level_info("hello".to_string()).histories.is_empty());
    assert!(!model.level_info("hello".to_string()).is_clear);
    assert!(model.level_info("maze".to_string()).is_clear);
}

#[test]
fn record_is_known_by_its_start() {
    assert_eq!(record().uid(), "start");
}

#[test]
fn record_figures_by_name() {
    let r = record();
    assert_eq!(r.fetch("time"), 1);
    assert_eq!(r.fetch("score"), 2);
    assert_eq!(r.fetch("max_alpha_count"), 3);
    assert_eq!(r.fetch("max_control_chain"), 4);
    assert_eq!(r.fetch("max_hyper_chain"), 5);
    assert_eq!(r.fetch("total_control_count"), 6);
    assert_eq!(r.fetch("total_hyper_count"), 7);
    assert_eq!(r.fetch("max_control_count"), 8);
    assert_eq!(r.fetch("max_full_level_control_count"), 9);
    assert_eq!(r.fetch("max_control_level"), 10);
    assert_eq!(r.fetch("max_hyper_level"), 11);
    assert_eq!(r.fetch("max_stopping_time"), 13);
}

#[test]
fn unknown_figures_are_not_fetched() {
    let r = record();
    assert_eq!(r.try_fetch("time"), Some(1));
    assert_eq!(r.try_fetch("total_stopping_time"), None);
    assert_eq!(r.try_fetch("player_name"), None);
    assert_eq!(r.try_fetch(""), None);
}
