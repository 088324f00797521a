use crate::execution::RunState;
use vstd::prelude::*;

verus! {

/// How long a monitor connection may go without a pong, in milliseconds.
pub const HEARTBEAT_TIMEOUT_MS: u64 = 10000;

/// What a monitor client asks to follow.
pub struct MonitInfo {
    /// The latest run, whatever its id or name.
    pub last: bool,
    pub id: Option<String>,
    pub name: Option<String>,
}

/// The run record a monitor session follows.
pub enum RunQuery {
    Last,
    ById(String),
    ByName(String),
}

/// A monitor request that names no run.
#[derive(Clone, Copy, Debug, PartialEq, Eq, Structural)]
pub enum MonitorError {
    PipelineNotFound,
}

impl MonitInfo {
    /// Which run to follow: the latest if asked, else by id, else by name.
    pub fn query(self) -> (r: Result<RunQuery, MonitorError>)
        ensures
            self.last ==> r matches Ok(RunQuery::Last),
            !self.last && self.id is Some ==> (r matches Ok(RunQuery::ById(i)) && i
                == self.id->Some_0),
            !self.last && self.id is None && self.name is Some ==> (r matches Ok(
                RunQuery::ByName(n),
            ) && n == self.name->Some_0),
            !self.last && self.id is None && self.name is None ==> r == Err::<
                RunQuery,
                MonitorError,
            >(MonitorError::PipelineNotFound),
    {
        if self.last {
            Ok(RunQuery::Last)
        } else if let Some(id) = self.id {
            Ok(RunQuery::ById(id))
        } else if let Some(name) = self.name {
            Ok(RunQuery::ByName(name))
        } else {
            Err(MonitorError::PipelineNotFound)
        }
    }
}

/// What to do on the heartbeat tick.
#[derive(Clone, Copy, Debug, PartialEq, Eq, Structural)]
pub enum HeartbeatAction {
    /// Ping the client, then send the log lines appended since the last tick.
    PingAndFlush,
    /// The client went quiet for too long: close.
    Disconnect,
}

/// What to do after looking up the followed run.
#[derive(Clone, Copy, Debug, PartialEq, Eq, Structural)]
pub enum RecordAction {
    /// The run goes on: keep streaming.
    Continue,
    /// The run is no longer running: send the last lines, then close.
    DrainAndClose,
    /// The record could not be read: say so, then close.
    ErrorAndClose,
}

/// The client was last heard from longer ago than the timeout allows.
pub open spec fn timed_out(last_heard: u64, now: u64) -> bool {
    now > last_heard && now - last_heard > HEARTBEAT_TIMEOUT_MS
}

/// A server-side session that streams one run's log to a client.
pub struct MonitorSession {
    /// When the client was last heard from, in milliseconds.
    pub last_heard: u64,
    /// The run followed, once the client said which.
    pub run_id: Option<String>,
}

impl MonitorSession {
    pub fn new(now: u64) -> (r: MonitorSession)
        ensures
            r.last_heard == now,
            r.run_id is None,
    {
        MonitorSession { last_heard: now, run_id: None }
    }

    /// A ping or a pong from the client.
    pub fn heard(&mut self, now: u64)
        ensures
            final(self).last_heard == now,
            final(self).run_id == old(self).run_id,
    {
        self.last_heard = now;
    }

    /// The run to follow is now known.
    pub fn follow(&mut self, run_id: String)
        ensures
            final(self).run_id == Some(run_id),
            final(self).last_heard == old(self).last_heard,
    {
        self.run_id = Some(run_id);
    }

    /// The heartbeat tick: close on a quiet client, else ping and flush.
    pub fn heartbeat(&self, now: u64) -> (r: HeartbeatAction)
        ensures
            r == (if timed_out(self.last_heard, now) {
                HeartbeatAction::Disconnect
            } else {
                HeartbeatAction::PingAndFlush
            }),
    {
        if now > self.last_heard && now - self.last_heard > HEARTBEAT_TIMEOUT_MS {
            HeartbeatAction::Disconnect
        } else {
            HeartbeatAction::PingAndFlush
        }
    }

    /// The record tick: `record` is the followed run's state, or `None` when
    /// it could not be read.
    pub fn on_record(&self, record: Option<RunState>) -> (r: RecordAction)
        ensures
            record is None ==> r == RecordAction::ErrorAndClose,
            record == Some(RunState::Running) ==> r == RecordAction::Continue,
            record matches Some(s) && s != RunState::Running ==> r == RecordAction::DrainAndClose,
    {
        match record {
            None => RecordAction::ErrorAndClose,
            Some(RunState::Running) => RecordAction::Continue,
            Some(_) => RecordAction::DrainAndClose,
        }
    }
}

} // verus!
