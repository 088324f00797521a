use std::sync::{Arc, Mutex};
use vstd::prelude::*;

verus! {

/// Declares std::sync::Mutex, which holds the execution of a run shared
/// between threads; nothing inside it is read here.
#[verifier::external_type_specification]
#[verifier::external_body]
#[verifier::reject_recursive_types(T)]
pub struct ExMutex<T: ?Sized>(std::sync::Mutex<T>);

/// Relies on std::sync::Mutex::new: it only wraps the value, unlocked.
pub assume_specification<T>[ std::sync::Mutex::<T>::new ](t: T) -> std::sync::Mutex<T>;

/// Lifecycle state of a pipeline run.
#[derive(Clone, Copy, Debug, PartialEq, Eq, Structural)]
pub enum RunState {
    Queued,
    Running,
    Finished,
    Faulted,
}

/// Position of a state along `queued -> running -> (finished | faulted)`.
pub open spec fn rank(s: RunState) -> nat {
    match s {
        RunState::Queued => 0,
        RunState::Running => 1,
        RunState::Finished => 2,
        RunState::Faulted => 2,
    }
}

/// A run may move from `from` to `to`: forward along the order, or stay.
pub open spec fn may_follow(from: RunState, to: RunState) -> bool {
    from == to || rank(from) < rank(to)
}

/// The state is one in which a run has ended.
pub open spec fn is_terminal(s: RunState) -> bool {
    s == RunState::Finished || s == RunState::Faulted
}

impl RunState {
    /// The name under which the state is stored.
    pub fn as_str(&self) -> (r: &'static str)
        ensures
            *self == RunState::Queued ==> r@ == "queued"@,
            *self == RunState::Running ==> r@ == "running"@,
            *self == RunState::Finished ==> r@ == "finished"@,
            *self == RunState::Faulted ==> r@ == "faulted"@,
    {
        match self {
            RunState::Queued => "queued",
            RunState::Running => "running",
            RunState::Finished => "finished",
            RunState::Faulted => "faulted",
        }
    }

    /// Whether a run may move from this state to `to`.
    pub fn may_become(&self, to: RunState) -> (r: bool)
        ensures
            r == may_follow(*self, to),
    {
        match (*self, to) {
            (RunState::Queued, _) => true,
            (RunState::Running, RunState::Queued) => false,
            (RunState::Running, _) => true,
            (RunState::Finished, RunState::Finished) => true,
            (RunState::Faulted, RunState::Faulted) => true,
            _ => false,
        }
    }

    pub fn is_terminal(&self) -> (r: bool)
        ensures
            r == is_terminal(*self),
    {
        match self {
            RunState::Finished | RunState::Faulted => true,
            _ => false,
        }
    }
}

/// Errors of the execution state.
#[derive(Clone, Copy, Debug, PartialEq, Eq, Structural)]
pub enum ExecError {
    /// A state change that would move the run backwards, or between the
    /// two terminal states.
    InvalidTransition { from: RunState, to: RunState },
    /// A stop was requested for the run.
    Cancelled,
}

/// The lifecycle hooks that a runner drives.
pub trait Execution {
    fn update_running(&mut self, running: bool) -> Result<(), ExecError>;

    fn check_stop_signal(&self) -> Result<(), ExecError>;
}

/// The state of one run, shared by its runner and by stop requests: only
/// the runner moves `state`, a stop request only raises `stop_requested`.
pub struct ExecutionState {
    pub state: RunState,
    pub stop_requested: bool,
}

impl ExecutionState {
    pub fn new() -> (r: ExecutionState)
        ensures
            r.state == RunState::Queued,
            !r.stop_requested,
    {
        ExecutionState { state: RunState::Queued, stop_requested: false }
    }

    /// Moves the run to `to` where the order allows it; otherwise fails and
    /// changes nothing.
    pub fn transition(&mut self, to: RunState) -> (r: Result<(), ExecError>)
        ensures
            r is Ok <==> may_follow(old(self).state, to),
            r is Ok ==> final(self).state == to,
            r matches Err(e) ==> e == (ExecError::InvalidTransition {
                from: old(self).state,
                to,
            }) && final(self).state == old(self).state,
            may_follow(old(self).state, final(self).state),
            final(self).stop_requested == old(self).stop_requested,
    {
        if self.state.may_become(to) {
            self.state = to;
            Ok(())
        } else {
            Err(ExecError::InvalidTransition { from: self.state, to })
        }
    }

    pub fn set_as_running(&mut self) -> (r: Result<(), ExecError>)
        ensures
            r is Ok <==> may_follow(old(self).state, RunState::Running),
            final(self).state == if r is Ok {
                RunState::Running
            } else {
                old(self).state
            },
            final(self).stop_requested == old(self).stop_requested,
    {
        self.transition(RunState::Running)
    }

    pub fn set_as_finished(&mut self) -> (r: Result<(), ExecError>)
        ensures
            r is Ok <==> may_follow(old(self).state, RunState::Finished),
            final(self).state == if r is Ok {
                RunState::Finished
            } else {
                old(self).state
            },
            final(self).stop_requested == old(self).stop_requested,
    {
        self.transition(RunState::Finished)
    }

    pub fn set_as_faulted(&mut self) -> (r: Result<(), ExecError>)
        ensures
            r is Ok <==> may_follow(old(self).state, RunState::Faulted),
            final(self).state == if r is Ok {
                RunState::Faulted
            } else {
                old(self).state
            },
            final(self).stop_requested == old(self).stop_requested,
    {
        self.transition(RunState::Faulted)
    }

    /// Raises the stop flag; it stays raised.
    pub fn request_stop(&mut self)
        ensures
            final(self).stop_requested,
            final(self).state == old(self).state,
    {
        self.stop_requested = true;
    }

    /// Fails with `Cancelled` exactly when a stop was requested.
    pub fn check_stop(&self) -> (r: Result<(), ExecError>)
        ensures
            r is Ok <==> !self.stop_requested,
            r is Err ==> r == Err::<(), ExecError>(ExecError::Cancelled),
    {
        if self.stop_requested {
            Err(ExecError::Cancelled)
        } else {
            Ok(())
        }
    }
}

impl Execution for ExecutionState {
    fn update_running(&mut self, running: bool) -> Result<(), ExecError> {
        if running {
            self.set_as_running()
        } else {
            self.set_as_finished()
        }
    }

    fn check_stop_signal(&self) -> Result<(), ExecError> {
        self.check_stop()
    }
}

/// The states that a run passes through when the transitions `targets` are
/// requested in turn from `start`, a refused one leaving the state as it was.
pub open spec fn trace(start: RunState, targets: Seq<RunState>) -> Seq<RunState>
    decreases targets.len(),
{
    if targets.len() == 0 {
        seq![start]
    } else {
        let prev = trace(start, targets.drop_last());
        let cur = prev.last();
        let next = if may_follow(cur, targets.last()) {
            targets.last()
        } else {
            cur
        };
        prev.push(next)
    }
}

proof fn lemma_trace_shape(start: RunState, targets: Seq<RunState>)
    ensures
        trace(start, targets).len() == targets.len() + 1,
        trace(start, targets)[0] == start,
        forall|i: int|
            0 <= i < targets.len() ==> may_follow(
                #[trigger] trace(start, targets)[i],
                trace(start, targets)[i + 1],
            ),
    decreases targets.len(),
{
    if targets.len() > 0 {
        lemma_trace_shape(start, targets.drop_last());
        let prev = trace(start, targets.drop_last());
        assert forall|i: int| 0 <= i < targets.len() implies may_follow(
            #[trigger] trace(start, targets)[i],
            trace(start, targets)[i + 1],
        ) by {
            if i < targets.len() - 1 {
                assert(trace(start, targets)[i] == prev[i]);
                assert(trace(start, targets)[i + 1] == prev[i + 1]);
            }
        }
    }
}

/// Run states only move forward: along any sequence of requested
/// transitions, every later state follows every earlier one in the order of
/// `queued -> running -> (finished | faulted)`, so no run is ever seen to go
/// from `finished` back to `running`.
pub proof fn lemma_states_monotone(start: RunState, targets: Seq<RunState>, i: int, j: int)
    requires
        0 <= i <= j <= targets.len(),
    ensures
        may_follow(trace(start, targets)[i], trace(start, targets)[j]),
        !(trace(start, targets)[i] == RunState::Finished && trace(start, targets)[j]
            == RunState::Running),
{
    lemma_trace_shape(start, targets);
    lemma_chain_monotone(trace(start, targets), i, j);
}

proof fn lemma_chain_monotone(t: Seq<RunState>, i: int, j: int)
    requires
        0 <= i <= j < t.len(),
        forall|k: int| 0 <= k < t.len() - 1 ==> may_follow(#[trigger] t[k], t[k + 1]),
    ensures
        may_follow(t[i], t[j]),
    decreases j - i,
{
    if i < j {
        lemma_chain_monotone(t, i, j - 1);
        assert(may_follow(t[j - 1], t[j]));
    }
}

/// An execution that records nothing and never asks to stop.
pub struct EmptyExec;

impl EmptyExec {
    pub fn atom() -> (r: Arc<Mutex<Self>>) {
        Arc::new(Mutex::new(EmptyExec))
    }
}

impl Execution for EmptyExec {
    fn update_running(&mut self, _running: bool) -> Result<(), ExecError> {
        Ok(())
    }

    fn check_stop_signal(&self) -> Result<(), ExecError> {
        Ok(())
    }
}

/// An execution for runs that keep no record.
pub struct NullExec;

impl NullExec {
    pub fn atom() -> (r: Arc<Mutex<Self>>) {
        Arc::new(Mutex::new(NullExec))
    }
}

impl Execution for NullExec {
    fn update_running(&mut self, _running: bool) -> Result<(), ExecError> {
        Ok(())
    }

    fn check_stop_signal(&self) -> Result<(), ExecError> {
        Ok(())
    }
}

} // verus!
