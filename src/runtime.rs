//! The process-wide record of the running game session.
use vstd::prelude::*;

verus! {

/// State of the at-most-one game session.
///
/// `current_game`, `running_since` and `pid` describe the latest session and
/// are only meaningful while `game_running` holds. `generation` names the
/// latest session admitted: session-scoped updates carry the token that
/// admission handed out and are ignored once that session is over.
#[derive(Clone, Copy, Debug, PartialEq, Eq, Structural)]
pub struct GameRuntime {
    pub current_game: Option<i64>,
    pub game_running: bool,
    pub running_since: Option<i64>,
    pub pid: Option<u32>,
    pub generation: u64,
}

/// A point-in-time copy of the runtime fields, for status reporting.
#[derive(Clone, Copy, Debug, PartialEq, Eq, Structural)]
pub struct RuntimeStatus {
    pub game_running: bool,
    pub current_game: Option<i64>,
    pub running_since: Option<i64>,
    pub pid: Option<u32>,
}

/// The generation that follows `g` (wrapping at the top of `u64`).
pub open spec fn next_generation(g: u64) -> u64 {
    if g == u64::MAX {
        0
    } else {
        (g + 1) as u64
    }
}

impl GameRuntime {
    /// Whether `token` names the session that is running now.
    pub open spec fn is_current(self, token: u64) -> bool {
        self.game_running && self.generation == token
    }

    /// The state after an admission request for `game`: refused (and nothing
    /// changes) while a session runs, otherwise a fresh session of `game`
    /// with no start time and no process id yet.
    pub open spec fn after_begin(self, game: i64) -> GameRuntime {
        if self.game_running {
            self
        } else {
            GameRuntime {
                current_game: Some(game),
                game_running: true,
                running_since: None,
                pid: None,
                generation: next_generation(self.generation),
            }
        }
    }

    /// The state after recording the start time `ts` for session `token`.
    pub open spec fn after_running_since(self, token: u64, ts: i64) -> GameRuntime {
        if self.is_current(token) {
            GameRuntime { running_since: Some(ts), ..self }
        } else {
            self
        }
    }

    /// The state after recording the process id `pid` for session `token`.
    pub open spec fn after_pid(self, token: u64, pid: u32) -> GameRuntime {
        if self.is_current(token) {
            GameRuntime { pid: Some(pid), ..self }
        } else {
            self
        }
    }

    /// The state after session `token` ends: it stops running if it is still
    /// the current one; other fields stay as they were.
    pub open spec fn after_end(self, token: u64) -> GameRuntime {
        if self.is_current(token) {
            GameRuntime { game_running: false, ..self }
        } else {
            self
        }
    }

    /// The state after a termination request: nothing runs any more.
    pub open spec fn after_terminate(self) -> GameRuntime {
        GameRuntime { game_running: false, ..self }
    }

    /// The process to signal on a termination request: the recorded pid of
    /// the running session, where there is one and it is a valid `i32`.
    pub open spec fn signal_target(self) -> Option<i32> {
        match self.pid {
            Some(p) => if self.game_running && p <= i32::MAX as u32 {
                Some(p as i32)
            } else {
                None
            },
            None => None,
        }
    }

    /// An idle runtime that has never admitted a session.
    pub fn new() -> (r: GameRuntime)
        ensures
            !r.game_running,
            r.current_game is None,
            r.running_since is None,
            r.pid is None,
            r.generation == 0,
    {
        GameRuntime {
            current_game: None,
            game_running: false,
            running_since: None,
            pid: None,
            generation: 0,
        }
    }

    /// The admission gate: starts a session of `game` unless one is running.
    /// Returns the new session's token, or `None` when refused.
    pub fn try_begin_session(&mut self, game: i64) -> (token: Option<u64>)
        ensures
            *final(self) == old(self).after_begin(game),
            token == (if old(self).game_running {
                None
            } else {
                Some(final(self).generation)
            }),
    {
        if self.game_running {
            return None;
        }
        let generation = if self.generation == u64::MAX {
            0
        } else {
            self.generation + 1
        };
        *self = GameRuntime {
            current_game: Some(game),
            game_running: true,
            running_since: None,
            pid: None,
            generation,
        };
        Some(generation)
    }

    /// Records when session `token` started; ignored for a finished session.
    pub fn set_running_since(&mut self, token: u64, ts: i64)
        ensures
            *final(self) == old(self).after_running_since(token, ts),
    {
        if self.game_running && self.generation == token {
            self.running_since = Some(ts);
        }
    }

    /// Records the OS process id of session `token`; ignored for a finished
    /// session.
    pub fn set_pid(&mut self, token: u64, pid: u32)
        ensures
            *final(self) == old(self).after_pid(token, pid),
    {
        if self.game_running && self.generation == token {
            self.pid = Some(pid);
        }
    }

    /// Ends session `token`. Returns whether it was still the running one;
    /// a session that was terminated, or replaced by a later one, leaves the
    /// state untouched.
    pub fn end_session(&mut self, token: u64) -> (ended: bool)
        ensures
            *final(self) == old(self).after_end(token),
            ended == old(self).is_current(token),
    {
        if self.game_running && self.generation == token {
            self.game_running = false;
            true
        } else {
            false
        }
    }

    /// A termination request: returns the process to signal, if any, and
    /// marks the runtime idle whether or not the signal will reach it.
    pub fn terminate(&mut self) -> (target: Option<i32>)
        ensures
            target == old(self).signal_target(),
            *final(self) == old(self).after_terminate(),
            !old(self).game_running ==> *final(self) == *old(self) && target is None,
    {
        let target = if self.game_running {
            match self.pid {
                Some(p) => if p <= i32::MAX as u32 {
                    Some(p as i32)
                } else {
                    None
                },
                None => None,
            }
        } else {
            None
        };
        self.game_running = false;
        target
    }

    /// A copy of the four reported fields.
    pub fn status(&self) -> (s: RuntimeStatus)
        ensures
            s.game_running == self.game_running,
            s.current_game == self.current_game,
            s.running_since == self.running_since,
            s.pid == self.pid,
    {
        RuntimeStatus {
            game_running: self.game_running,
            current_game: self.current_game,
            running_since: self.running_since,
            pid: self.pid,
        }
    }
}

/// Admission is exclusive: from an idle runtime, whichever of two requests
/// comes first is admitted and the other is refused without any change, so
/// the runtime shows the winner's game.
pub proof fn lemma_admission_exclusive(s: GameRuntime, first: i64, second: i64)
    requires
        !s.game_running,
    ensures
        s.after_begin(first).game_running,
        s.after_begin(first).current_game == Some(first),
        s.after_begin(first).after_begin(second) == s.after_begin(first),
{
}

/// Once a launched session's process exits and the session is ended, the
/// runtime reports that nothing runs, and a later launch of any game is
/// admitted.
pub proof fn lemma_exit_frees_runtime(s: GameRuntime, game: i64, since: i64, pid: u32, next: i64)
    requires
        !s.game_running,
    ensures
        ({
            let started = s.after_begin(game);
            let token = started.generation;
            let exited = started.after_running_since(token, since).after_pid(token, pid).after_end(
                token,
            );
            &&& !exited.game_running
            &&& exited.after_begin(next).game_running
            &&& exited.after_begin(next).current_game == Some(next)
        }),
{
}

/// A termination request on an idle runtime changes nothing and signals no
/// process.
pub proof fn lemma_terminate_idle(s: GameRuntime)
    requires
        !s.game_running,
    ensures
        s.after_terminate() == s,
        s.signal_target() is None,
{
}

/// After a session is terminated and another one is admitted, the late end
/// of the terminated session leaves the new one running.
pub proof fn lemma_stale_end_ignored(s: GameRuntime, first: i64, second: i64)
    requires
        !s.game_running,
    ensures
        ({
            let old_token = s.after_begin(first).generation;
            let renewed = s.after_begin(first).after_terminate().after_begin(second);
            &&& renewed.after_end(old_token) == renewed
            &&& renewed.game_running
            &&& renewed.current_game == Some(second)
        }),
{
}

} // verus!
