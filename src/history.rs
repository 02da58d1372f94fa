//! The play-history ledger: sessions of one game that follow each other within
//! a short gap are merged into one row.
use vstd::prelude::*;

verus! {

/// Largest gap, in seconds, between the end of a game's latest session and
/// the start of the next one for the two to be merged.
pub const MERGE_WINDOW_SECONDS: i64 = 600;

/// One stored play session.
#[derive(Clone, Copy, Debug, PartialEq, Eq, Structural)]
pub struct HistorySession {
    pub id: i64,
    pub timestamp_start: i64,
    pub timestamp_end: i64,
    pub game: i64,
}

/// What a commit does to the stored history.
#[derive(Clone, Copy, Debug, PartialEq, Eq, Structural)]
pub enum CommitAction {
    /// Move the end of row `id` to `timestamp_end`; its start stays.
    Extend { id: i64, timestamp_end: i64 },
    /// Store a new row.
    Insert { timestamp_start: i64, timestamp_end: i64, game: i64 },
}

/// Whether a session starting at `start` continues one that ended at
/// `last_end`.
pub open spec fn within_window(last_end: i64, start: i64) -> bool {
    start - last_end <= MERGE_WINDOW_SECONDS
}

/// The commit of `(start, end, game)` given the game's latest stored row.
pub open spec fn planned_commit(last: Option<HistorySession>, start: i64, end: i64, game: i64) -> CommitAction {
    match last {
        Some(row) => if within_window(row.timestamp_end, start) {
            CommitAction::Extend { id: row.id, timestamp_end: end }
        } else {
            CommitAction::Insert { timestamp_start: start, timestamp_end: end, game }
        },
        None => CommitAction::Insert { timestamp_start: start, timestamp_end: end, game },
    }
}

/// Decides how to record the session `(start, end, game)`, where `last` is the
/// game's stored row with the latest end, if it has any: extend that row when
/// the new session starts at most `MERGE_WINDOW_SECONDS` after it ended,
/// otherwise insert a new row.
pub fn plan_commit(last: Option<HistorySession>, start: i64, end: i64, game: i64) -> (action: CommitAction)
    ensures
        action == planned_commit(last, start, end, game),
{
    match last {
        Some(row) => {
            if (start as i128) - (row.timestamp_end as i128) <= MERGE_WINDOW_SECONDS as i128 {
                CommitAction::Extend { id: row.id, timestamp_end: end }
            } else {
                CommitAction::Insert { timestamp_start: start, timestamp_end: end, game }
            }
        },
        None => CommitAction::Insert { timestamp_start: start, timestamp_end: end, game },
    }
}

/// Index of the first row of `game` with the latest end among `rows`, or -1
/// when `game` has no row.
pub open spec fn last_session_index(rows: Seq<HistorySession>, game: i64) -> int
    decreases rows.len(),
{
    if rows.len() == 0 {
        -1
    } else {
        let p = last_session_index(rows.drop_last(), game);
        let row = rows.last();
        if row.game == game && (p < 0 || row.timestamp_end > rows[p].timestamp_end) {
            rows.len() - 1
        } else {
            p
        }
    }
}

/// The row of `game` with the latest end, if `game` has any.
pub open spec fn last_session(rows: Seq<HistorySession>, game: i64) -> Option<HistorySession> {
    let p = last_session_index(rows, game);
    if p < 0 {
        None
    } else {
        Some(rows[p])
    }
}

/// `last_session_index` picks a row of the game whose end no other row of the
/// game exceeds, and picks none only when the game has no row.
pub proof fn lemma_last_session_is_latest(rows: Seq<HistorySession>, game: i64)
    ensures
        ({
            let p = last_session_index(rows, game);
            &&& -1 <= p < rows.len()
            &&& p < 0 <==> (forall|j: int| 0 <= j < rows.len() ==> rows[j].game != game)
            &&& p >= 0 ==> rows[p].game == game
            &&& p >= 0 ==> forall|j: int|
                0 <= j < rows.len() && rows[j].game == game ==> rows[j].timestamp_end
                    <= rows[p].timestamp_end
        }),
    decreases rows.len(),
{
    if rows.len() > 0 {
        lemma_last_session_is_latest(rows.drop_last(), game);
        let init = rows.drop_last();
        assert forall|j: int| 0 <= j < init.len() implies init[j] == rows[j] by {}
    }
}

/// The rows after committing `(start, end, game)` to `rows`, where a new row
/// gets the id `next_id`.
pub open spec fn committed_rows(rows: Seq<HistorySession>, next_id: i64, start: i64, end: i64, game: i64) -> Seq<HistorySession> {
    let p = last_session_index(rows, game);
    match planned_commit(last_session(rows, game), start, end, game) {
        CommitAction::Extend { id, timestamp_end } => rows.update(
            p,
            HistorySession { timestamp_end, ..rows[p] },
        ),
        CommitAction::Insert { timestamp_start, timestamp_end, game } => rows.push(
            HistorySession { id: next_id, timestamp_start, timestamp_end, game },
        ),
    }
}

/// An in-memory history table with the merge-on-insert commit.
#[derive(Clone, Debug, PartialEq, Eq)]
pub struct HistoryLedger {
    pub sessions: Vec<HistorySession>,
    pub next_id: i64,
}

impl HistoryLedger {
    /// Row ids are positive, distinct and below `next_id`.
    pub open spec fn wf(&self) -> bool {
        &&& 1 <= self.next_id
        &&& forall|i: int|
            0 <= i < self.sessions@.len() ==> 1 <= #[trigger] self.sessions@[i].id < self.next_id
        &&& forall|i: int, j: int|
            0 <= i < j < self.sessions@.len() ==> #[trigger] self.sessions@[i].id
                != #[trigger] self.sessions@[j].id
    }

    /// An empty ledger.
    pub fn new() -> (r: HistoryLedger)
        ensures
            r.wf(),
            r.sessions@ == Seq::<HistorySession>::empty(),
            r.next_id == 1,
    {
        HistoryLedger { sessions: Vec::new(), next_id: 1 }
    }

    /// Position of the row that `last_session_index` picks.
    fn last_session_position(&self, game: i64) -> (r: Option<usize>)
        ensures
            match r {
                Some(p) => p as int == last_session_index(self.sessions@, game),
                None => last_session_index(self.sessions@, game) == -1,
            },
    {
        let mut best: Option<usize> = None;
        let mut i: usize = 0;
        while i < self.sessions.len()
            invariant
                i <= self.sessions@.len(),
                match best {
                    Some(b) => b as int == last_session_index(self.sessions@.take(i as int), game),
                    None => last_session_index(self.sessions@.take(i as int), game) == -1,
                },
            decreases self.sessions@.len() - i,
        {
            proof {
                lemma_last_session_is_latest(self.sessions@.take(i as int), game);
                assert(self.sessions@.take(i as int + 1).drop_last() == self.sessions@.take(i as int));
            }
            let row = self.sessions[i];
            let better = match best {
                Some(b) => row.game == game && row.timestamp_end > self.sessions[b].timestamp_end,
                None => row.game == game,
            };
            if better {
                best = Some(i);
            }
            i = i + 1;
        }
        proof {
            assert(self.sessions@.take(self.sessions@.len() as int) == self.sessions@);
        }
        best
    }

    /// The stored row of `game` with the latest end (the first such row where
    /// several share it), or `None` when the game has no row.
    pub fn find_last_session(&self, game: i64) -> (r: Option<HistorySession>)
        ensures
            r == last_session(self.sessions@, game),
            r is None <==> forall|j: int|
                0 <= j < self.sessions@.len() ==> self.sessions@[j].game != game,
            r matches Some(row) ==> row.game == game && self.sessions@.contains(row) && forall|
                j: int,
            |
                0 <= j < self.sessions@.len() && self.sessions@[j].game == game
                    ==> self.sessions@[j].timestamp_end <= row.timestamp_end,
    {
        proof {
            lemma_last_session_is_latest(self.sessions@, game);
        }
        match self.last_session_position(game) {
            Some(p) => Some(self.sessions[p]),
            None => None,
        }
    }

    /// Records the session `(start, end, game)`: the game's latest row is
    /// extended to `end` when the session starts at most
    /// `MERGE_WINDOW_SECONDS` after that row ended; otherwise a new row with
    /// the next id is stored. Returns what was done.
    pub fn commit(&mut self, start: i64, end: i64, game: i64) -> (action: CommitAction)
        requires
            old(self).wf(),
            old(self).next_id < i64::MAX,
        ensures
            final(self).wf(),
            action == planned_commit(last_session(old(self).sessions@, game), start, end, game),
            final(self).sessions@ == committed_rows(
                old(self).sessions@,
                old(self).next_id,
                start,
                end,
                game,
            ),
            final(self).next_id == (if action is Insert {
                old(self).next_id + 1
            } else {
                old(self).next_id as int
            }),
    {
        let last = self.find_last_session(game);
        let action = plan_commit(last, start, end, game);
        proof {
            lemma_last_session_is_latest(self.sessions@, game);
        }
        match action {
            CommitAction::Extend { id, timestamp_end } => {
                let p = match self.last_session_position(game) {
                    Some(p) => p,
                    // an extension is only planned for an existing row
                    None => 0,
                };
                let row = self.sessions[p];
                self.sessions.set(p, HistorySession { timestamp_end, ..row });
            },
            CommitAction::Insert { timestamp_start, timestamp_end, game } => {
                let row = HistorySession { id: self.next_id, timestamp_start, timestamp_end, game };
                self.sessions.push(row);
                self.next_id = self.next_id + 1;
            },
        }
        action
    }
}

} // verus!
