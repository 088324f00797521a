use crate::queue::{
    Admission, QueuedRun, WorkerQueue, completed_post, enqueue_post, who_am_i_post,
};
use vstd::prelude::*;

verus! {

/// Messages between a worker and its supervisor.
pub enum WorkerMessages {
    /// The worker's first word after connecting.
    Ack,
    /// The worker names its process.
    WhoAmI { pid: u32 },
    /// The worker's run is over.
    Completed,
    /// The supervisor asks the worker to stop its run.
    Stop { run_id: String },
}

/// Messages from a server to the supervisor.
pub enum ServerMessages {
    /// Run `run` on a worker, now or when a slot frees.
    Enqueue(QueuedRun),
    /// Stop the run with this id.
    Stop { run_id: String },
}

/// What the supervisor does in answer to a message.
pub enum SupervisorAction {
    Nothing,
    /// Spawn a worker process for this run.
    Spawn(QueuedRun),
    /// Send `Stop` to the worker on this connection.
    SendStop { connection: u64, run_id: String },
}

/// The first messages a worker sends once connected: `Ack`, then its
/// process id.
pub fn worker_handshake(pid: u32) -> (r: Vec<WorkerMessages>)
    ensures
        r@.len() == 2,
        r@[0] is Ack,
        r@[1] matches WorkerMessages::WhoAmI { pid: p } && p == pid,
{
    let mut v: Vec<WorkerMessages> = Vec::new();
    v.push(WorkerMessages::Ack);
    v.push(WorkerMessages::WhoAmI { pid });
    v
}

/// The run id of a run to spawn, if the action spawns one.
pub open spec fn spawned_by(r: SupervisorAction) -> Option<Seq<char>> {
    match r {
        SupervisorAction::Spawn(x) => Some(x.run_id@),
        _ => None,
    }
}

/// Handles a message that a worker sent over `connection` at time `now`.
pub fn on_worker_message(
    queue: &mut WorkerQueue,
    connection: u64,
    msg: WorkerMessages,
    now: u64,
) -> (r: SupervisorAction)
    requires
        old(queue).wf(),
    ensures
        final(queue).wf(),
        msg matches WorkerMessages::WhoAmI { pid } ==> r is Nothing && who_am_i_post(
            *old(queue),
            *final(queue),
            pid,
            connection,
        ),
        msg is Completed ==> (r is Nothing || r is Spawn) && completed_post(
            *old(queue),
            *final(queue),
            connection,
            now,
            spawned_by(r),
        ),
        (msg is Ack || msg is Stop) ==> r is Nothing && final(queue).active_view() == old(
            queue,
        ).active_view() && final(queue).pending_view() == old(queue).pending_view()
            && final(queue).spec_capacity() == old(queue).spec_capacity(),
{
    match msg {
        WorkerMessages::WhoAmI { pid } => {
            queue.who_am_i(pid, connection);
            SupervisorAction::Nothing
        },
        WorkerMessages::Completed => match queue.completed(connection, now) {
            Some(next) => SupervisorAction::Spawn(next),
            None => SupervisorAction::Nothing,
        },
        _ => SupervisorAction::Nothing,
    }
}

/// Handles a message from the server at time `now`: a run is admitted to
/// the pool, or the worker of a run is told to stop.
pub fn on_server_message(queue: &mut WorkerQueue, msg: ServerMessages, now: u64) -> (r:
    SupervisorAction)
    requires
        old(queue).wf(),
    ensures
        final(queue).wf(),
        msg matches ServerMessages::Enqueue(run) ==> (r is Nothing || r is Spawn) && (
        r matches SupervisorAction::Spawn(x) ==> x == run) && enqueue_post(
            *old(queue),
            *final(queue),
            run.run_id@,
            now,
            r is Spawn,
        ),
        msg matches ServerMessages::Stop { run_id } ==> {
            &&& final(queue).active_view() == old(queue).active_view()
            &&& final(queue).pending_view() == old(queue).pending_view()
            &&& final(queue).spec_capacity() == old(queue).spec_capacity()
            &&& (r is Nothing || r is SendStop)
            &&& (r matches SupervisorAction::SendStop { connection, run_id: id } ==> id == run_id
                && exists|i: int|
                0 <= i < old(queue).active_view().len() && old(queue).active_view()[i].run_id
                    == run_id@ && old(queue).active_view()[i].connection == Some(connection))
            &&& (r is Nothing ==> forall|i: int|
                0 <= i < old(queue).active_view().len() && old(queue).active_view()[i].run_id
                    == run_id@ ==> old(queue).active_view()[i].connection is None)
        },
{
    match msg {
        ServerMessages::Enqueue(run) => match queue.enqueue(run, now) {
            Admission::Start(run) => SupervisorAction::Spawn(run),
            Admission::Queued(_) => SupervisorAction::Nothing,
        },
        ServerMessages::Stop { run_id } => match queue.connection_of(&run_id) {
            Some(connection) => SupervisorAction::SendStop { connection, run_id },
            None => SupervisorAction::Nothing,
        },
    }
}

/// Where a server-side exec session stands.
#[derive(Clone, Copy, Debug, PartialEq, Eq, Structural)]
pub enum ExecPhase {
    /// Connected, waiting for the run to start.
    AwaitingRunInfo,
    /// A run goes on for this client.
    Running,
    Closed,
}

/// What happens on an exec session.
pub enum ExecEvent {
    /// The client sent the run to start (already decoded).
    RunInfo,
    /// Any later text frame.
    Text,
    /// The run ended.
    RunnerDone,
    /// The client went away.
    Disconnected,
}

/// What the session does about an event.
#[derive(Clone, Copy, Debug, PartialEq, Eq, Structural)]
pub enum ExecReaction {
    StartRun,
    Ignore,
    /// Send the close frame.
    SendClose,
    /// Raise the run's stop flag.
    RequestStop,
}

/// The server side of one exec connection: one run per connection, closed
/// when the run ends; a client that leaves stops its run.
pub struct ExecSession {
    pub phase: ExecPhase,
}

impl ExecSession {
    pub fn new() -> (r: ExecSession)
        ensures
            r.phase == ExecPhase::AwaitingRunInfo,
    {
        ExecSession { phase: ExecPhase::AwaitingRunInfo }
    }

    pub fn on_event(&mut self, event: ExecEvent) -> (r: ExecReaction)
        ensures
            old(self).phase == ExecPhase::AwaitingRunInfo && event is RunInfo ==> r
                == ExecReaction::StartRun && final(self).phase == ExecPhase::Running,
            old(self).phase == ExecPhase::Running && event is RunnerDone ==> r
                == ExecReaction::SendClose && final(self).phase == ExecPhase::Closed,
            old(self).phase == ExecPhase::Running && event is Disconnected ==> r
                == ExecReaction::RequestStop && final(self).phase == ExecPhase::Closed,
            old(self).phase == ExecPhase::AwaitingRunInfo && event is Disconnected ==> r
                == ExecReaction::Ignore && final(self).phase == ExecPhase::Closed,
            !(old(self).phase == ExecPhase::AwaitingRunInfo && event is RunInfo) && !(old(
                self,
            ).phase == ExecPhase::Running && (event is RunnerDone || event is Disconnected))
                && !(old(self).phase == ExecPhase::AwaitingRunInfo && event is Disconnected) ==> r
                == ExecReaction::Ignore && final(self).phase == old(self).phase,
            r == ExecReaction::StartRun ==> old(self).phase == ExecPhase::AwaitingRunInfo,
    {
        match (self.phase, event) {
            (ExecPhase::AwaitingRunInfo, ExecEvent::RunInfo) => {
                self.phase = ExecPhase::Running;
                ExecReaction::StartRun
            },
            (ExecPhase::Running, ExecEvent::RunnerDone) => {
                self.phase = ExecPhase::Closed;
                ExecReaction::SendClose
            },
            (ExecPhase::Running, ExecEvent::Disconnected) => {
                self.phase = ExecPhase::Closed;
                ExecReaction::RequestStop
            },
            (ExecPhase::AwaitingRunInfo, ExecEvent::Disconnected) => {
                self.phase = ExecPhase::Closed;
                ExecReaction::Ignore
            },
            _ => ExecReaction::Ignore,
        }
    }
}

} // verus!
