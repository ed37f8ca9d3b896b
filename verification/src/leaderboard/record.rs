//! One line of the board of a finished game.

use crate::text::same_text;
use vstd::prelude::*;

verus! {

/// The figures of one finished game.
#[derive(Clone, Debug)]
pub struct LeaderboardRecord {
    pub player_name: String,
    pub time: u32,
    pub score: u32,
    pub max_alpha_count: u32,
    pub max_control_chain: u32,
    pub max_hyper_chain: u32,
    pub total_control_count: u32,
    pub total_hyper_count: u32,
    pub max_control_count: u32,
    pub max_full_level_control_count: u32,
    pub max_control_level: u32,
    pub max_hyper_level: u32,
    pub total_stopping_time: u32,
    pub max_stopping_time: u32,
    pub started_at: String,
    pub ended_at: String,
}

/// The figure of `record` that goes by the name `field`, where there is one.
pub open spec fn spec_fetch(record: LeaderboardRecord, field: Seq<char>) -> Option<u32> {
    if field == "time"@ {
        Some(record.time)
    } else if field == "score"@ {
        Some(record.score)
    } else if field == "max_alpha_count"@ {
        Some(record.max_alpha_count)
    } else if field == "max_control_chain"@ {
        Some(record.max_control_chain)
    } else if field == "max_hyper_chain"@ {
        Some(record.max_hyper_chain)
    } else if field == "total_control_count"@ {
        Some(record.total_control_count)
    } else if field == "total_hyper_count"@ {
        Some(record.total_hyper_count)
    } else if field == "max_control_count"@ {
        Some(record.max_control_count)
    } else if field == "max_full_level_control_count"@ {
        Some(record.max_full_level_control_count)
    } else if field == "max_control_level"@ {
        Some(record.max_control_level)
    } else if field == "max_hyper_level"@ {
        Some(record.max_hyper_level)
    } else if field == "max_stopping_time"@ {
        Some(record.max_stopping_time)
    } else {
        None
    }
}

impl LeaderboardRecord {
    /// What tells one record from another: the time at which its game began.
    pub fn uid(&self) -> (id: &str)
        ensures
            id@ == self.started_at@,
    {
        self.started_at.as_str()
    }

    /// The figure that goes by the name `field`, if the record has one of
    /// that name.
    pub fn try_fetch(&self, field: &str) -> (value: Option<u32>)
        ensures
            value == spec_fetch(*self, field@),
    {
        if same_text(field, "time") {
            Some(self.time)
        } else if same_text(field, "score") {
            Some(self.score)
        } else if same_text(field, "max_alpha_count") {
            Some(self.max_alpha_count)
        } else if same_text(field, "max_control_chain") {
            Some(self.max_control_chain)
        } else if same_text(field, "max_hyper_chain") {
            Some(self.max_hyper_chain)
        } else if same_text(field, "total_control_count") {
            Some(self.total_control_count)
        } else if same_text(field, "total_hyper_count") {
            Some(self.total_hyper_count)
        } else if same_text(field, "max_control_count") {
            Some(self.max_control_count)
        } else if same_text(field, "max_full_level_control_count") {
            Some(self.max_full_level_control_count)
        } else if same_text(field, "max_control_level") {
            Some(self.max_control_level)
        } else if same_text(field, "max_hyper_level") {
            Some(self.max_hyper_level)
        } else if same_text(field, "max_stopping_time") {
            Some(self.max_stopping_time)
        } else {
            None
        }
    }

    /// The figure that goes by the name `field`, which must be one of the
    /// names the board knows.
    pub fn fetch(&self, field: &str) -> (value: u32)
        requires
            spec_fetch(*self, field@) is Some,
        ensures
            Some(value) == spec_fetch(*self, field@),
    {
        match self.try_fetch(field) {
            Some(value) => value,
            None => 0,
        }
    }
}

} // verus!
