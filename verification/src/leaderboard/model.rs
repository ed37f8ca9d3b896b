//! The runs of each level and the best run among them.

use vstd::prelude::*;

verus! {

/// The number of runs that are kept for a level.
pub const MAX_HISTORIES_PER_LEVEL: usize = 9;

/// One run of a level: whether it cleared the level, how long it took, and
/// the adjustments that were made, in field units.
#[derive(Debug)]
pub struct LevelHistory {
    pub is_clear: bool,
    pub time: u32,
    pub x: Vec<i64>,
    pub y: Vec<i64>,
    pub force: Vec<i64>,
    pub angle: Vec<i64>,
    pub created_at: String,
}

/// The mathematical content of a [`LevelHistory`].
pub struct LevelHistoryView {
    pub is_clear: bool,
    pub time: u32,
    pub x: Seq<i64>,
    pub y: Seq<i64>,
    pub force: Seq<i64>,
    pub angle: Seq<i64>,
    pub created_at: Seq<char>,
}

impl View for LevelHistory {
    type V = LevelHistoryView;

    open spec fn view(&self) -> LevelHistoryView {
        LevelHistoryView {
            is_clear: self.is_clear,
            time: self.time,
            x: self.x@,
            y: self.y@,
            force: self.force@,
            angle: self.angle@,
            created_at: self.created_at@,
        }
    }
}

/// The history of a run that has not begun.
pub open spec fn empty_history() -> LevelHistoryView {
    LevelHistoryView {
        is_clear: false,
        time: 0,
        x: Seq::empty(),
        y: Seq::empty(),
        force: Seq::empty(),
        angle: Seq::empty(),
        created_at: Seq::empty(),
    }
}

/// Copies a list of numbers.
fn copy_numbers(numbers: &Vec<i64>) -> (copy: Vec<i64>)
    ensures
        copy@ == numbers@,
{
    let mut copy: Vec<i64> = Vec::new();
    let mut i: usize = 0;
    while i < numbers.len()
        invariant
            i <= numbers.len(),
            copy@ == numbers@.subrange(0, i as int),
        decreases numbers.len() - i,
    {
        copy.push(numbers[i]);
        i += 1;
        assert(copy@ =~= numbers@.subrange(0, i as int));
    }
    assert(copy@ =~= numbers@);
    copy
}

impl Default for LevelHistory {
    fn default() -> (history: LevelHistory)
        ensures
            history@ == empty_history(),
    {
        LevelHistory {
            is_clear: false,
            time: 0,
            x: Vec::new(),
            y: Vec::new(),
            force: Vec::new(),
            angle: Vec::new(),
            created_at: String::new(),
        }
    }
}

impl Clone for LevelHistory {
    fn clone(&self) -> (copy: LevelHistory)
        ensures
            copy@ == self@,
    {
        LevelHistory {
            is_clear: self.is_clear,
            time: self.time,
            x: copy_numbers(&self.x),
            y: copy_numbers(&self.y),
            force: copy_numbers(&self.force),
            angle: copy_numbers(&self.angle),
            created_at: self.created_at.clone(),
        }
    }
}

/// What is known of one level.
#[derive(Debug)]
pub struct LevelRecord {
    pub is_clear: bool,
    pub best_history: Option<LevelHistory>,
    pub histories: Vec<LevelHistory>,
}

/// The mathematical content of a [`LevelRecord`].
pub struct LevelRecordView {
    pub is_clear: bool,
    pub best_history: Option<LevelHistoryView>,
    pub histories: Seq<LevelHistoryView>,
}

/// The views of a list of histories, place by place.
pub open spec fn history_views(histories: Seq<LevelHistory>) -> Seq<LevelHistoryView> {
    Seq::new(histories.len(), |i: int| histories[i]@)
}

impl View for LevelRecord {
    type V = LevelRecordView;

    open spec fn view(&self) -> LevelRecordView {
        LevelRecordView {
            is_clear: self.is_clear,
            best_history: match self.best_history {
                Some(history) => Some(history@),
                None => None,
            },
            histories: history_views(self.histories@),
        }
    }
}

/// The record of a level that was opened and never played.
pub open spec fn empty_record() -> LevelRecordView {
    LevelRecordView { is_clear: false, best_history: None, histories: Seq::empty() }
}

/// The record after one more run is stored.
///
/// The run joins the list while the list has room. A run that cleared the
/// level marks the level as cleared, and becomes the best run where there
/// was none or where it was faster than the best so far.
pub open spec fn record_after_store(record: LevelRecordView, history: LevelHistoryView) -> LevelRecordView {
    LevelRecordView {
        is_clear: record.is_clear || history.is_clear,
        best_history: if history.is_clear && (record.best_history matches Some(best) ==> best.time
            > history.time) {
            Some(history)
        } else {
            record.best_history
        },
        histories: if record.histories.len() < MAX_HISTORIES_PER_LEVEL {
            record.histories.push(history)
        } else {
            record.histories
        },
    }
}

impl Clone for LevelRecord {
    fn clone(&self) -> (copy: LevelRecord)
        ensures
            copy@ == self@,
    {
        let mut histories: Vec<LevelHistory> = Vec::new();
        let mut i: usize = 0;
        while i < self.histories.len()
            invariant
                i <= self.histories.len(),
                histories@.len() == i,
                forall|k: int| 0 <= k < i ==> (#[trigger] histories@[k])@ == self.histories@[k]@,
            decreases self.histories.len() - i,
        {
            histories.push(self.histories[i].clone());
            i += 1;
        }
        let best_history = match &self.best_history {
            Some(history) => Some(history.clone()),
            None => None,
        };
        assert(history_views(histories@) =~= history_views(self.histories@));
        LevelRecord { is_clear: self.is_clear, best_history, histories }
    }
}

impl LevelRecord {
    /// Stores one more run in the record.
    pub fn store(&mut self, history: LevelHistory)
        ensures
            final(self)@ == record_after_store(old(self)@, history@),
    {
        let ghost before = self.histories@;
        if self.histories.len() < MAX_HISTORIES_PER_LEVEL {
            self.histories.push(history.clone());
            assert(history_views(self.histories@) =~= history_views(before).push(history@));
        }
        if history.is_clear {
            let faster = match &self.best_history {
                Some(best_history) => best_history.time > history.time,
                None => true,
            };
            if faster {
                self.best_history = Some(history);
            }
            if !self.is_clear {
                self.is_clear = true;
            }
        }
    }
}

/// The records of all levels, each under the code of its level.
pub struct LeaderboardModel {
    pub level_map: Vec<(String, LevelRecord)>,
}

/// The place of the first entry for `code` among the first `n` entries.
pub open spec fn place_of(entries: Seq<(String, LevelRecord)>, code: Seq<char>, n: int) -> Option<int>
    decreases n,
{
    if n <= 0 {
        None
    } else {
        match place_of(entries, code, n - 1) {
            Some(place) => Some(place),
            None => if entries[n - 1].0@ == code {
                Some(n - 1)
            } else {
                None
            },
        }
    }
}

/// What the entries hold for `code`: the record of its first entry.
pub open spec fn record_of(entries: Seq<(String, LevelRecord)>, code: Seq<char>) -> Option<LevelRecordView> {
    match place_of(entries, code, entries.len() as int) {
        Some(place) => Some(entries[place].1@),
        None => None,
    }
}

/// The place found for `code` holds `code`, and no earlier place does.
pub proof fn lemma_place_of(entries: Seq<(String, LevelRecord)>, code: Seq<char>, n: int)
    requires
        0 <= n <= entries.len(),
    ensures
        match place_of(entries, code, n) {
            Some(place) => 0 <= place < n && entries[place].0@ == code && forall|k: int|
                0 <= k < place ==> (#[trigger] entries[k]).0@ != code,
            None => forall|k: int| 0 <= k < n ==> (#[trigger] entries[k]).0@ != code,
        },
    decreases n,
{
    if n > 0 {
        lemma_place_of(entries, code, n - 1);
    }
}

/// Where the first `n` entries agree on their codes, they agree on places.
pub proof fn lemma_place_of_same_codes(
    a: Seq<(String, LevelRecord)>,
    b: Seq<(String, LevelRecord)>,
    code: Seq<char>,
    n: int,
)
    requires
        0 <= n <= a.len(),
        n <= b.len(),
        forall|k: int| 0 <= k < n ==> (#[trigger] a[k]).0@ == (#[trigger] b[k]).0@,
    ensures
        place_of(a, code, n) == place_of(b, code, n),
    decreases n,
{
    if n > 0 {
        lemma_place_of_same_codes(a, b, code, n - 1);
        assert(a[n - 1].0@ == b[n - 1].0@);
    }
}

impl LeaderboardModel {
    /// A board without any level.
    pub fn new() -> (model: LeaderboardModel)
        ensures
            model.level_map@.len() == 0,
    {
        LeaderboardModel { level_map: Vec::new() }
    }

    /// Finds the first entry for `code`.
    fn find(&self, code: &String) -> (place: Option<usize>)
        ensures
            match place {
                Some(i) => place_of(self.level_map@, code@, self.level_map@.len() as int) == Some(
                    i as int,
                ) && i < self.level_map@.len(),
                None => place_of(self.level_map@, code@, self.level_map@.len() as int) is None,
            },
    {
        let mut i: usize = 0;
        while i < self.level_map.len()
            invariant
                i <= self.level_map.len(),
                place_of(self.level_map@, code@, i as int) is None,
            decreases self.level_map.len() - i,
        {
            if self.level_map[i].0 == *code {
                proof {
                    lemma_place_of_found(self.level_map@, code@, i as int, self.level_map@.len() as int);
                }
                return Some(i);
            }
            i += 1;
        }
        None
    }

    /// Opens a level: a level without a record gets an empty one, a level
    /// that has a record keeps it.
    pub fn open_level(&mut self, level_code: String)
        ensures
            record_of(final(self).level_map@, level_code@) == match record_of(
                old(self).level_map@,
                level_code@,
            ) {
                Some(record) => Some(record),
                None => Some(empty_record()),
            },
            forall|code: Seq<char>|
                code != level_code@ ==> #[trigger] record_of(final(self).level_map@, code)
                    == record_of(old(self).level_map@, code),
    {
        let ghost before = self.level_map@;
        if self.find(&level_code).is_none() {
            let ghost n = before.len() as int;
            let record = LevelRecord { is_clear: false, best_history: None, histories: Vec::new() };
            assert(record@.histories =~= Seq::empty());
            self.level_map.push((level_code, record));
            proof {
                let after = self.level_map@;
                assert(after.len() == n + 1);
                assert(after[n].0@ == level_code@);
                assert forall|k: int| 0 <= k < n implies (#[trigger] after[k]).0@ == (
                #[trigger] before[k]).0@ by {
                    assert(after[k] == before[k]);
                }
                lemma_place_of_same_codes(after, before, level_code@, n);
                assert(place_of(after, level_code@, n + 1) == Some(n));
                assert forall|code: Seq<char>| code != level_code@ implies #[trigger] record_of(
                    after,
                    code,
                ) == record_of(before, code) by {
                    lemma_place_of_same_codes(after, before, code, n);
                    lemma_place_of(before, code, n);
                    assert(place_of(after, code, n + 1) == place_of(before, code, n));
                    if place_of(before, code, n) is Some {
                        let place = place_of(before, code, n)->0;
                        assert(after[place] == before[place]);
                    }
                }
            }
        }
    }

    /// Stores a run under the code of its level. A level that was never
    /// opened stores nothing.
    pub fn store_level_history(&mut self, level_code: String, history: LevelHistory)
        ensures
            record_of(final(self).level_map@, level_code@) == match record_of(
                old(self).level_map@,
                level_code@,
            ) {
                Some(record) => Some(record_after_store(record, history@)),
                None => None,
            },
            forall|code: Seq<char>|
                code != level_code@ ==> #[trigger] record_of(final(self).level_map@, code)
                    == record_of(old(self).level_map@, code),
    {
        let ghost before = self.level_map@;
        match self.find(&level_code) {
            Some(i) => {
                let (code, mut record) = self.level_map.remove(i);
                record.store(history);
                self.level_map.insert(i, (code, record));
                proof {
                    let after = self.level_map@;
                    let n = before.len() as int;
                    assert(after =~= before.update(i as int, (code, record)));
                    lemma_place_of(before, level_code@, n);
                    assert(code@ == level_code@);
                    assert forall|k: int| 0 <= k < n implies (#[trigger] after[k]).0@ == (
                    #[trigger] before[k]).0@ by {}
                    lemma_place_of_same_codes(after, before, level_code@, n);
                    assert forall|other: Seq<char>| other != level_code@ implies #[trigger] record_of(
                        after,
                        other,
                    ) == record_of(before, other) by {
                        lemma_place_of_same_codes(after, before, other, n);
                        lemma_place_of(before, other, n);
                        if place_of(before, other, n) is Some {
                            let place = place_of(before, other, n)->0;
                            assert(place != i);
                            assert(after[place] == before[place]);
                        }
                    }
                }
            },
            None => {},
        }
    }

    /// What is known of the level `level_code`; the empty record where the
    /// level was never opened.
    pub fn level_info(&self, level_code: String) -> (record: LevelRecord)
        ensures
            record@ == match record_of(self.level_map@, level_code@) {
                Some(found) => found,
                None => empty_record(),
            },
    {
        match self.find(&level_code) {
            Some(i) => self.level_map[i].1.clone(),
            None => {
                let record = LevelRecord { is_clear: false, best_history: None, histories: Vec::new() };
                assert(record@.histories =~= Seq::empty());
                record
            },
        }
    }
}

/// An entry that holds `code` while no earlier one does is the place of
/// `code`, however many entries follow.
pub proof fn lemma_place_of_found(entries: Seq<(String, LevelRecord)>, code: Seq<char>, i: int, n: int)
    requires
        0 <= i < n <= entries.len(),
        place_of(entries, code, i) is None,
        entries[i].0@ == code,
    ensures
        place_of(entries, code, n) == Some(i),
    decreases n,
{
    if n > i + 1 {
        lemma_place_of_found(entries, code, i, n - 1);
    }
}

} // verus!
