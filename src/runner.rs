use crate::pipeline::{Pipeline, Platform, first_error, platform_applied, platform_texts};
use crate::plan::{Op, expand_plan, ops_view, plan, raw_plan_of, copy_variables};
use crate::tokens::{ContextView, TokenContext, TokenError};
use crate::vars::{VarMap, variables_view};
use vstd::prelude::*;

verus! {

/// Where a run stands: what it last asked its driver to do.
#[derive(Clone, Copy, Debug, PartialEq, Eq, Structural)]
pub enum Stage {
    /// Nothing asked yet.
    Init,
    /// Asked to mark the run as running.
    Starting,
    /// Asked to perform operation `i` of the body.
    Op(usize),
    /// Asked to report a failure; the body resumes at the given operation.
    Reported(usize),
    /// Asked to record the run's terminal state.
    Terminal,
    /// Asked to dispose of the platform or keep it alive.
    Platform,
    /// Asked to tell the supervisor that the run completed.
    Completing,
    /// The run is over.
    Done,
}

/// What the driver reports back about the last request.
pub enum Outcome {
    Succeeded,
    Failed(String),
    /// The operation found that a stop was requested.
    Stopped,
}

/// What a run asks its driver to do next.
pub enum Action {
    /// Mark the run as running in the execution state.
    SetRunning,
    /// Perform operation `i` of the body.
    Perform(usize),
    /// Write this failure as a line of the run's log.
    Report(String),
    /// Write that the run was stopped on request.
    Cancelled,
    SetFinished,
    SetFaulted,
    /// Tear the platform down.
    Dispose,
    /// Leave the platform up for later runs.
    KeepAlive,
    /// Tell the supervisor that the run completed.
    SendCompleted,
    /// The run is over; `success` is false if it faulted or its cleanup failed.
    Done { success: bool },
}

/// The kind of an outcome, without its message.
#[derive(Clone, Copy, Debug, PartialEq, Eq, Structural)]
pub enum OutcomeKind {
    Succeeded,
    Failed,
    Stopped,
}

/// The kind of an action, without its message.
#[derive(Clone, Copy, Debug, PartialEq, Eq, Structural)]
pub enum ActionKind {
    SetRunning,
    Perform(usize),
    Report,
    Cancelled,
    SetFinished,
    SetFaulted,
    Dispose,
    KeepAlive,
    SendCompleted,
    Done { success: bool },
}

pub open spec fn outcome_kind(o: Outcome) -> OutcomeKind {
    match o {
        Outcome::Succeeded => OutcomeKind::Succeeded,
        Outcome::Failed(_) => OutcomeKind::Failed,
        Outcome::Stopped => OutcomeKind::Stopped,
    }
}

pub open spec fn action_kind(a: Action) -> ActionKind {
    match a {
        Action::SetRunning => ActionKind::SetRunning,
        Action::Perform(i) => ActionKind::Perform(i),
        Action::Report(_) => ActionKind::Report,
        Action::Cancelled => ActionKind::Cancelled,
        Action::SetFinished => ActionKind::SetFinished,
        Action::SetFaulted => ActionKind::SetFaulted,
        Action::Dispose => ActionKind::Dispose,
        Action::KeepAlive => ActionKind::KeepAlive,
        Action::SendCompleted => ActionKind::SendCompleted,
        Action::Done { success } => ActionKind::Done { success },
    }
}

/// The control state of a run.
#[derive(Clone, Copy, Debug, PartialEq, Eq, Structural)]
pub struct Control {
    pub stage: Stage,
    /// The number of operations in the body.
    pub n_ops: usize,
    /// The run was started by another run and shares its state.
    pub is_child: bool,
    pub dispose: bool,
    /// A supervisor awaits word of completion.
    pub has_ipc: bool,
    pub has_faulted: bool,
    pub cleanup_failed: bool,
    /// The platform was disposed of or kept alive without error.
    pub platform_released: bool,
}

/// The control state of a run that has not begun.
pub open spec fn initial(n_ops: usize, is_child: bool, dispose: bool, has_ipc: bool) -> Control {
    Control {
        stage: Stage::Init,
        n_ops,
        is_child,
        dispose,
        has_ipc,
        has_faulted: false,
        cleanup_failed: false,
        platform_released: false,
    }
}

/// The request that releases the platform as the pipeline asks.
pub open spec fn platform_action(dispose: bool) -> ActionKind {
    if dispose {
        ActionKind::Dispose
    } else {
        ActionKind::KeepAlive
    }
}

pub open spec fn finish(c: Control) -> (Control, ActionKind) {
    (
        Control { stage: Stage::Done, ..c },
        ActionKind::Done { success: !c.has_faulted && !c.cleanup_failed },
    )
}

pub open spec fn after_platform(c: Control) -> (Control, ActionKind) {
    if !c.is_child && c.has_ipc {
        (Control { stage: Stage::Completing, ..c }, ActionKind::SendCompleted)
    } else {
        finish(c)
    }
}

pub open spec fn settle_platform(c: Control) -> (Control, ActionKind) {
    (Control { stage: Stage::Platform, ..c }, platform_action(c.dispose))
}

/// Cleanup: the root records the terminal state, then every run releases
/// its platform, then a supervised root reports completion. The first
/// cleanup request that fails ends the run without success.
pub open spec fn begin_cleanup(c: Control) -> (Control, ActionKind) {
    if !c.is_child {
        (
            Control { stage: Stage::Terminal, ..c },
            if c.has_faulted {
                ActionKind::SetFaulted
            } else {
                ActionKind::SetFinished
            },
        )
    } else {
        settle_platform(c)
    }
}

/// Goes on with operation `j`, or with cleanup once the body is over or
/// has faulted.
pub open spec fn advance(c: Control, j: int) -> (Control, ActionKind) {
    if !c.has_faulted && 0 <= j < c.n_ops {
        (Control { stage: Stage::Op(j as usize), ..c }, ActionKind::Perform(j as usize))
    } else {
        begin_cleanup(c)
    }
}

pub open spec fn note_cleanup(c: Control, o: OutcomeKind) -> Control {
    Control { cleanup_failed: c.cleanup_failed || o != OutcomeKind::Succeeded, ..c }
}

/// A failure at stage `c.stage`, the body resuming at `resume`.
pub open spec fn fail(c: Control, o: OutcomeKind, tolerated: bool, resume: int) -> (
    Control,
    ActionKind,
) {
    if o == OutcomeKind::Stopped {
        (
            Control { stage: Stage::Reported(resume as usize), has_faulted: true, ..c },
            ActionKind::Cancelled,
        )
    } else {
        (
            Control {
                stage: Stage::Reported(resume as usize),
                has_faulted: c.has_faulted || !tolerated,
                ..c
            },
            ActionKind::Report,
        )
    }
}

/// One move of a run: from its control state and the outcome of its last
/// request to its next control state and request. `tolerated[i]` says that a
/// failure of operation `i` does not fault the run.
pub open spec fn step(c: Control, o: OutcomeKind, tolerated: Seq<bool>) -> (Control, ActionKind) {
    match c.stage {
        Stage::Init => if c.is_child {
            advance(c, 0)
        } else {
            (Control { stage: Stage::Starting, ..c }, ActionKind::SetRunning)
        },
        Stage::Starting => if o == OutcomeKind::Succeeded {
            advance(c, 0)
        } else {
            fail(c, o, false, c.n_ops as int)
        },
        Stage::Op(i) => if o == OutcomeKind::Succeeded {
            advance(c, i + 1)
        } else {
            fail(c, o, 0 <= i < tolerated.len() && tolerated[i as int], i + 1)
        },
        Stage::Reported(j) => advance(c, j as int),
        Stage::Terminal => if o == OutcomeKind::Succeeded {
            settle_platform(c)
        } else {
            finish(note_cleanup(c, o))
        },
        Stage::Platform => if o == OutcomeKind::Succeeded {
            after_platform(Control { platform_released: true, ..c })
        } else {
            finish(note_cleanup(c, o))
        },
        Stage::Completing => finish(note_cleanup(c, o)),
        Stage::Done => finish(c),
    }
}

/// The moves of a run fed the outcomes `outs` in turn from control state `c`:
/// entry `k` is the state and request after the `k`-th outcome.
pub open spec fn moves(c: Control, tolerated: Seq<bool>, outs: Seq<OutcomeKind>) -> Seq<
    (Control, ActionKind),
>
    decreases outs.len(),
{
    if outs.len() == 0 {
        seq![]
    } else {
        let prev = moves(c, tolerated, outs.drop_last());
        let cur = if prev.len() == 0 {
            c
        } else {
            prev.last().0
        };
        prev.push(step(cur, outs.last(), tolerated))
    }
}

/// The control state in which the `k`-th outcome is received.
pub open spec fn state_before(
    c: Control,
    tolerated: Seq<bool>,
    outs: Seq<OutcomeKind>,
    k: int,
) -> Control {
    if k == 0 {
        c
    } else {
        moves(c, tolerated, outs)[k - 1].0
    }
}

proof fn lemma_moves_shape(c: Control, tolerated: Seq<bool>, outs: Seq<OutcomeKind>)
    ensures
        moves(c, tolerated, outs).len() == outs.len(),
        forall|k: int|
            0 <= k < outs.len() ==> #[trigger] moves(c, tolerated, outs)[k] == step(
                state_before(c, tolerated, outs, k),
                outs[k],
                tolerated,
            ),
    decreases outs.len(),
{
    if outs.len() > 0 {
        let pre = outs.drop_last();
        lemma_moves_shape(c, tolerated, pre);
        assert forall|k: int| 0 <= k < outs.len() implies #[trigger] moves(c, tolerated, outs)[k]
            == step(state_before(c, tolerated, outs, k), outs[k], tolerated) by {
            if k < outs.len() - 1 {
                assert(moves(c, tolerated, outs)[k] == moves(c, tolerated, pre)[k]);
                assert(outs[k] == pre[k]);
                if k > 0 {
                    assert(moves(c, tolerated, outs)[k - 1] == moves(c, tolerated, pre)[k - 1]);
                }
            } else {
                if k > 0 {
                    assert(moves(c, tolerated, outs)[k - 1] == moves(c, tolerated, pre)[k - 1]);
                }
            }
        }
    }
}

/// Entering the platform stage is asking to release the platform.
proof fn lemma_platform_stage_entry(c: Control, o: OutcomeKind, tolerated: Seq<bool>)
    ensures
        step(c, o, tolerated).0.stage == Stage::Platform ==> step(c, o, tolerated).1
            == platform_action(c.dispose),
        step(c, o, tolerated).0.dispose == c.dispose,
        step(c, o, tolerated).0.is_child == c.is_child,
        step(c, o, tolerated).0.n_ops == c.n_ops,
        c.has_faulted ==> step(c, o, tolerated).0.has_faulted,
        c.has_faulted ==> !(step(c, o, tolerated).1 is Perform),
        step(c, o, tolerated).0.platform_released && !c.platform_released ==> c.stage
            == Stage::Platform && o == OutcomeKind::Succeeded,
        released_inv(c) ==> released_inv(step(c, o, tolerated).0),
        released_inv(c) && step(c, o, tolerated).1 == (ActionKind::Done { success: true })
            ==> step(c, o, tolerated).0.platform_released,
{
}

/// Once past the platform stage, a cleanup without failure has released the
/// platform.
pub open spec fn released_inv(c: Control) -> bool {
    (c.stage == Stage::Completing || c.stage == Stage::Done) && !c.cleanup_failed
        ==> c.platform_released
}

/// Cleanup stops at its first failure: a failed write of the terminal state
/// is followed by no platform request, and a failed release of the platform
/// by no word of completion; either ends the run without success.
pub proof fn lemma_cleanup_stops_at_failure(c: Control, o: OutcomeKind, tolerated: Seq<bool>)
    requires
        c.stage == Stage::Terminal || c.stage == Stage::Platform,
        o != OutcomeKind::Succeeded,
    ensures
        step(c, o, tolerated).1 == (ActionKind::Done { success: false }),
        step(c, o, tolerated).0.stage == Stage::Done,
{
}

/// Completion is reported to the supervisor only after the terminal state
/// was recorded and the platform released, each without error.
pub proof fn lemma_completed_after_cleanup(
    start: Control,
    tolerated: Seq<bool>,
    outs: Seq<OutcomeKind>,
    k: int,
)
    requires
        start == initial(start.n_ops, start.is_child, start.dispose, start.has_ipc),
        0 <= k < outs.len(),
        moves(start, tolerated, outs)[k].1 == ActionKind::SendCompleted,
    ensures
        k >= 1,
        moves(start, tolerated, outs)[k - 1].1 == platform_action(start.dispose),
        outs[k] == OutcomeKind::Succeeded,
        !start.is_child,
{
    lemma_moves_shape(start, tolerated, outs);
    let s = state_before(start, tolerated, outs, k);
    lemma_released_history(start, tolerated, outs, k);
    lemma_config_kept(start, tolerated, outs, k);
    assert(s.stage == Stage::Platform);
}

/// Cleanup completes before success is reported: in every run from the
/// start, a `Done { success: true }` comes only after the platform was asked
/// to be disposed of (or kept alive, as the pipeline says) and that request
/// succeeded.
pub proof fn lemma_success_only_after_cleanup(
    start: Control,
    tolerated: Seq<bool>,
    outs: Seq<OutcomeKind>,
    k: int,
)
    requires
        start == initial(start.n_ops, start.is_child, start.dispose, start.has_ipc),
        0 <= k < outs.len(),
        moves(start, tolerated, outs)[k].1 == (ActionKind::Done { success: true }),
    ensures
        exists|j: int|
            0 <= j < k && moves(start, tolerated, outs)[j].1 == platform_action(start.dispose)
                && outs[j + 1] == OutcomeKind::Succeeded,
{
    lemma_moves_shape(start, tolerated, outs);
    let ms = moves(start, tolerated, outs);
    // Along the run the configuration stays, and a released platform was
    // released by a successful answer to the platform request.
    assert forall|m: int| 0 <= m <= k implies (#[trigger] state_before(
        start,
        tolerated,
        outs,
        m,
    )).dispose == start.dispose && released_inv(state_before(start, tolerated, outs, m)) && (
        state_before(start, tolerated, outs, m).platform_released
        ==> exists|j: int|
        0 <= j < m - 1 && ms[j].1 == platform_action(start.dispose) && outs[j + 1]
            == OutcomeKind::Succeeded) && (state_before(start, tolerated, outs, m).stage
        == Stage::Platform ==> m > 0 && ms[m - 1].1 == platform_action(start.dispose)) by {
        lemma_released_history(start, tolerated, outs, m);
    }
    let s = state_before(start, tolerated, outs, k);
    lemma_platform_stage_entry(s, outs[k], tolerated);
    if s.platform_released {
    } else {
        assert(ms[k].0.platform_released);
        assert(s.stage == Stage::Platform && outs[k] == OutcomeKind::Succeeded);
        assert(ms[k - 1].1 == platform_action(start.dispose));
        assert(outs[(k - 1) + 1] == OutcomeKind::Succeeded);
    }
}

proof fn lemma_released_history(
    start: Control,
    tolerated: Seq<bool>,
    outs: Seq<OutcomeKind>,
    m: int,
)
    requires
        start == initial(start.n_ops, start.is_child, start.dispose, start.has_ipc),
        0 <= m < outs.len(),
    ensures
        state_before(start, tolerated, outs, m).dispose == start.dispose,
        released_inv(state_before(start, tolerated, outs, m)),
        state_before(start, tolerated, outs, m).platform_released ==> exists|j: int|
            0 <= j < m - 1 && moves(start, tolerated, outs)[j].1 == platform_action(start.dispose)
                && outs[j + 1] == OutcomeKind::Succeeded,
        state_before(start, tolerated, outs, m).stage == Stage::Platform ==> m > 0 && moves(
            start,
            tolerated,
            outs,
        )[m - 1].1 == platform_action(start.dispose),
    decreases m,
{
    lemma_moves_shape(start, tolerated, outs);
    if m > 0 {
        lemma_released_history(start, tolerated, outs, m - 1);
        let p = state_before(start, tolerated, outs, m - 1);
        lemma_platform_stage_entry(p, outs[m - 1], tolerated);
        let ms = moves(start, tolerated, outs);
        assert(ms[m - 1] == step(p, outs[m - 1], tolerated));
        if state_before(start, tolerated, outs, m).platform_released && !p.platform_released {
            assert(p.stage == Stage::Platform);
            assert(ms[m - 2].1 == platform_action(start.dispose));
            assert(outs[(m - 2) + 1] == OutcomeKind::Succeeded);
        }
    }
}

/// A stop observed while the body runs faults the run at once: the next
/// request reports the cancellation, the one after it records the run as
/// faulted (for a root run; a child run goes on to release its platform),
/// and from then on the run performs no further operation (no command,
/// artifact or step), never records itself as finished nor reports success.
pub proof fn lemma_stop_faults_run(
    start: Control,
    tolerated: Seq<bool>,
    outs: Seq<OutcomeKind>,
    k: int,
)
    requires
        0 <= k < outs.len(),
        outs[k] == OutcomeKind::Stopped,
        state_before(start, tolerated, outs, k).stage is Op,
    ensures
        moves(start, tolerated, outs)[k].1 == ActionKind::Cancelled,
        k + 1 < outs.len() ==> moves(start, tolerated, outs)[k + 1].1 == if start.is_child {
            platform_action(start.dispose)
        } else {
            ActionKind::SetFaulted
        },
        forall|m: int|
            k <= m < outs.len() ==> (#[trigger] moves(start, tolerated, outs)[m]).0.has_faulted
                && moves(start, tolerated, outs)[m].1 != ActionKind::SetFinished
                && moves(start, tolerated, outs)[m].1 != (ActionKind::Done { success: true })
                && !(moves(start, tolerated, outs)[m].1 is Perform),
{
    lemma_moves_shape(start, tolerated, outs);
    let ms = moves(start, tolerated, outs);
    assert forall|m: int| 0 <= m <= k implies (#[trigger] state_before(
        start,
        tolerated,
        outs,
        m,
    )).is_child == start.is_child && state_before(start, tolerated, outs, m).dispose
        == start.dispose by {
        lemma_config_kept(start, tolerated, outs, m);
    }
    assert forall|m: int| k <= m < outs.len() implies (#[trigger] ms[m]).0.has_faulted
        && ms[m].1 != ActionKind::SetFinished && ms[m].1 != (ActionKind::Done {
        success: true,
    }) && !(ms[m].1 is Perform) by {
        lemma_faulted_kept(start, tolerated, outs, k, m);
    }
}

proof fn lemma_config_kept(start: Control, tolerated: Seq<bool>, outs: Seq<OutcomeKind>, m: int)
    requires
        0 <= m < outs.len(),
    ensures
        state_before(start, tolerated, outs, m).is_child == start.is_child,
        state_before(start, tolerated, outs, m).dispose == start.dispose,
    decreases m,
{
    lemma_moves_shape(start, tolerated, outs);
    if m > 0 {
        lemma_config_kept(start, tolerated, outs, m - 1);
        lemma_platform_stage_entry(state_before(start, tolerated, outs, m - 1), outs[m - 1], tolerated);
    }
}

proof fn lemma_faulted_kept(
    start: Control,
    tolerated: Seq<bool>,
    outs: Seq<OutcomeKind>,
    k: int,
    m: int,
)
    requires
        0 <= k <= m < outs.len(),
        outs[k] == OutcomeKind::Stopped,
        state_before(start, tolerated, outs, k).stage is Op,
    ensures
        moves(start, tolerated, outs)[m].0.has_faulted,
        moves(start, tolerated, outs)[m].1 != ActionKind::SetFinished,
        moves(start, tolerated, outs)[m].1 != (ActionKind::Done { success: true }),
        !(moves(start, tolerated, outs)[m].1 is Perform),
    decreases m - k,
{
    lemma_moves_shape(start, tolerated, outs);
    if m > k {
        lemma_faulted_kept(start, tolerated, outs, k, m - 1);
        lemma_platform_stage_entry(state_before(start, tolerated, outs, m), outs[m], tolerated);
    }
}

/// The control state is consistent.
pub open spec fn control_wf(c: Control) -> bool {
    &&& (c.stage matches Stage::Op(i) ==> i < c.n_ops)
    &&& (c.stage matches Stage::Reported(j) ==> j <= c.n_ops)
}

/// What substitution reads in a run of pipeline `p`.
pub open spec fn context_of(
    run_id: Seq<char>,
    start_time: Seq<char>,
    vars: crate::vars::PairsView,
    env: crate::vars::PairsView,
    p: Pipeline,
) -> ContextView {
    ContextView {
        run_id,
        start_time,
        vars,
        env,
        var_defaults: variables_view(p.variables@),
        env_defaults: variables_view(p.environment@),
    }
}

fn finish_exec(c: Control) -> (r: (Control, Action))
    ensures
        (r.0, action_kind(r.1)) == finish(c),
{
    (Control { stage: Stage::Done, ..c }, Action::Done { success: !c.has_faulted && !c.cleanup_failed })
}

fn after_platform_exec(c: Control) -> (r: (Control, Action))
    ensures
        (r.0, action_kind(r.1)) == after_platform(c),
{
    if !c.is_child && c.has_ipc {
        (Control { stage: Stage::Completing, ..c }, Action::SendCompleted)
    } else {
        finish_exec(c)
    }
}

fn settle_platform_exec(c: Control) -> (r: (Control, Action))
    ensures
        (r.0, action_kind(r.1)) == settle_platform(c),
{
    (
        Control { stage: Stage::Platform, ..c },
        if c.dispose {
            Action::Dispose
        } else {
            Action::KeepAlive
        },
    )
}

fn begin_cleanup_exec(c: Control) -> (r: (Control, Action))
    ensures
        (r.0, action_kind(r.1)) == begin_cleanup(c),
{
    if !c.is_child {
        (
            Control { stage: Stage::Terminal, ..c },
            if c.has_faulted {
                Action::SetFaulted
            } else {
                Action::SetFinished
            },
        )
    } else {
        settle_platform_exec(c)
    }
}

fn advance_exec(c: Control, j: usize) -> (r: (Control, Action))
    ensures
        (r.0, action_kind(r.1)) == advance(c, j as int),
{
    if !c.has_faulted && j < c.n_ops {
        (Control { stage: Stage::Op(j), ..c }, Action::Perform(j))
    } else {
        begin_cleanup_exec(c)
    }
}

fn note_cleanup_exec(c: Control, ok: bool) -> (r: Control)
    ensures
        ok ==> r == note_cleanup(c, OutcomeKind::Succeeded),
        !ok ==> r == note_cleanup(c, OutcomeKind::Failed),
{
    Control { cleanup_failed: c.cleanup_failed || !ok, ..c }
}

fn fail_exec(c: Control, o: Outcome, tolerated: bool, resume: usize) -> (r: (Control, Action))
    requires
        !(o is Succeeded),
    ensures
        (r.0, action_kind(r.1)) == fail(c, outcome_kind(o), tolerated, resume as int),
        r.1 matches Action::Report(m) ==> o == Outcome::Failed(m),
{
    match o {
        Outcome::Stopped => (
            Control { stage: Stage::Reported(resume), has_faulted: true, ..c },
            Action::Cancelled,
        ),
        Outcome::Failed(m) => (
            Control {
                stage: Stage::Reported(resume),
                has_faulted: c.has_faulted || !tolerated,
                ..c
            },
            Action::Report(m),
        ),
        Outcome::Succeeded => (c, Action::Cancelled),
    }
}

/// The driver of one pipeline run. It holds the run's operations, already
/// through substitution, and decides after each outcome what comes next;
/// whoever runs it performs the requests and reports their outcomes.
pub struct Runner {
    pub ctx: TokenContext,
    pub runs_on: Platform,
    pub ops: Vec<Op>,
    pub control: Control,
}

impl Runner {
    /// Which operations may fail without faulting the run.
    pub open spec fn tolerated(&self) -> Seq<bool> {
        self.ops@.map_values(|o: Op| o.spec_tolerates_failure())
    }

    pub open spec fn wf(&self) -> bool {
        self.control.n_ops == self.ops@.len() && control_wf(self.control)
    }

    /// Builds the runner of one run of `pipeline`: substitutes the tokens of
    /// its platform, then those of every operation of its body. Fails with the
    /// first token error, platform first.
    pub fn new(
        run_id: String,
        run_start_time: String,
        pipeline: Pipeline,
        variables: VarMap,
        environment: VarMap,
        is_child: bool,
        has_ipc: bool,
    ) -> (r: Result<Runner, TokenError>)
        ensures
            r matches Ok(rn) ==> {
                &&& rn.ctx@ == context_of(
                    run_id@,
                    run_start_time@,
                    variables@,
                    environment@,
                    pipeline,
                )
                &&& rn.wf()
                &&& rn.control == initial(rn.control.n_ops, is_child, pipeline.dispose, has_ipc)
                &&& platform_applied(rn.ctx@, pipeline.runs_on, rn.runs_on)
                &&& plan(rn.ctx@, Pipeline { runs_on: rn.runs_on, ..pipeline }) == Ok::<
                    Seq<crate::plan::OpView>,
                    TokenError,
                >(ops_view(rn.ops@))
            },
            first_error(
                context_of(run_id@, run_start_time@, variables@, environment@, pipeline),
                platform_texts(pipeline.runs_on),
            ) matches Some(e) ==> r matches Err(e2) && e2 == e,
            r matches Err(e) ==> first_error(
                context_of(run_id@, run_start_time@, variables@, environment@, pipeline),
                platform_texts(pipeline.runs_on),
            ) == Some(e) || exists|q: Platform|
                platform_applied(
                    context_of(run_id@, run_start_time@, variables@, environment@, pipeline),
                    pipeline.runs_on,
                    q,
                ) && plan(
                    context_of(run_id@, run_start_time@, variables@, environment@, pipeline),
                    Pipeline { runs_on: q, ..pipeline },
                ) == Err::<Seq<crate::plan::OpView>, TokenError>(e),
    {
        let ghost p0 = pipeline;
        let mut pipeline = pipeline;
        let pipeline_variables = copy_variables(&pipeline.variables);
        let pipeline_environment = copy_variables(&pipeline.environment);
        let ctx = TokenContext {
            run_id,
            run_start_time,
            variables,
            environment,
            pipeline_variables,
            pipeline_environment,
        };
        match pipeline.runs_on.apply_tokens(&ctx) {
            Err(e) => {
                return Err(e);
            },
            Ok(()) => {},
        }
        proof {
            assert(pipeline == Pipeline { runs_on: pipeline.runs_on, ..p0 });
        }
        let raw = raw_plan_of(&pipeline);
        let ops = match expand_plan(&ctx, &raw) {
            Err(e) => {
                return Err(e);
            },
            Ok(ops) => ops,
        };
        let control = Control {
            stage: Stage::Init,
            n_ops: ops.len(),
            is_child,
            dispose: pipeline.dispose,
            has_ipc,
            has_faulted: false,
            cleanup_failed: false,
            platform_released: false,
        };
        let Pipeline { runs_on, .. } = pipeline;
        Ok(Runner { ctx, runs_on, ops, control })
    }

    /// Operation `i` of the body.
    pub fn op(&self, i: usize) -> (r: &Op)
        requires
            i < self.ops@.len(),
        ensures
            *r == self.ops@[i as int],
    {
        &self.ops[i]
    }

    /// Takes the outcome of the last request and returns the next one.
    pub fn next_action(&mut self, outcome: Outcome) -> (r: Action)
        requires
            old(self).wf(),
        ensures
            final(self).wf(),
            final(self).ctx == old(self).ctx,
            final(self).ops == old(self).ops,
            final(self).runs_on == old(self).runs_on,
            (final(self).control, action_kind(r)) == step(
                old(self).control,
                outcome_kind(outcome),
                old(self).tolerated(),
            ),
            r matches Action::Report(m) ==> outcome == Outcome::Failed(m),
    {
        let c = self.control;
        let ghost t = self.tolerated();
        let (nc, a) = match c.stage {
            Stage::Init => {
                if c.is_child {
                    advance_exec(c, 0)
                } else {
                    (Control { stage: Stage::Starting, ..c }, Action::SetRunning)
                }
            },
            Stage::Starting => {
                match outcome {
                    Outcome::Succeeded => advance_exec(c, 0),
                    other => fail_exec(c, other, false, c.n_ops),
                }
            },
            Stage::Op(i) => {
                match outcome {
                    Outcome::Succeeded => advance_exec(c, i + 1),
                    other => {
                        let tol = self.ops[i].tolerates_failure();
                        proof {
                            assert(t[i as int] == tol);
                        }
                        fail_exec(c, other, tol, i + 1)
                    },
                }
            },
            Stage::Reported(j) => advance_exec(c, j),
            Stage::Terminal => {
                if matches!(outcome, Outcome::Succeeded) {
                    settle_platform_exec(c)
                } else {
                    finish_exec(note_cleanup_exec(c, false))
                }
            },
            Stage::Platform => {
                if matches!(outcome, Outcome::Succeeded) {
                    after_platform_exec(Control { platform_released: true, ..c })
                } else {
                    finish_exec(note_cleanup_exec(c, false))
                }
            },
            Stage::Completing => {
                let ok = matches!(outcome, Outcome::Succeeded);
                finish_exec(note_cleanup_exec(c, ok))
            },
            Stage::Done => finish_exec(c),
        };
        self.control = nc;
        a
    }
}

} // verus!
