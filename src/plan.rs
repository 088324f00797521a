use crate::pipeline::{
    Artifact, BuildStep, External, Pipeline, concat, platform_label,
};
use crate::tokens::{TokenContext, TokenError, ContextView, expand};
use crate::vars::{PairsView, Variable, variables_view};
use vstd::prelude::*;

verus! {

/// The direction of an artifact copy.
#[derive(Clone, Copy, Debug, PartialEq, Eq, Structural)]
pub enum ArtifactMethod {
    /// From the host into the platform.
    Push,
    /// From the platform out to the host.
    Get,
}

/// One operation of a run's body, in the order the run performs them.
pub enum Op {
    /// A line for the run's log.
    Log(String),
    /// Announces an artifact copy; substitution turns it into a `Log` line.
    CopyNote { from: String, to: String },
    Transfer { method: ArtifactMethod, from: String, to: String, ignore_errors: bool },
    LocalExternal { pipeline: String, variables: Vec<Variable>, environment: Vec<Variable> },
    ServerExternal {
        server: String,
        pipeline: String,
        variables: Vec<Variable>,
        environment: Vec<Variable>,
    },
    Shell { working_dir: Option<String>, command: String },
    /// Fails the run with a cancellation if a stop was requested.
    CheckStop,
}

/// An operation with its texts as character sequences.
pub enum OpView {
    Log(Seq<char>),
    CopyNote { from: Seq<char>, to: Seq<char> },
    Transfer { method: ArtifactMethod, from: Seq<char>, to: Seq<char>, ignore_errors: bool },
    LocalExternal { pipeline: Seq<char>, variables: PairsView, environment: PairsView },
    ServerExternal {
        server: Seq<char>,
        pipeline: Seq<char>,
        variables: PairsView,
        environment: PairsView,
    },
    Shell { working_dir: Option<Seq<char>>, command: Seq<char> },
    CheckStop,
}

pub open spec fn opt_view(o: Option<String>) -> Option<Seq<char>> {
    match o {
        Some(s) => Some(s@),
        None => None,
    }
}

impl View for Op {
    type V = OpView;

    open spec fn view(&self) -> OpView {
        match self {
            Op::Log(t) => OpView::Log(t@),
            Op::CopyNote { from, to } => OpView::CopyNote { from: from@, to: to@ },
            Op::Transfer { method, from, to, ignore_errors } => OpView::Transfer {
                method: *method,
                from: from@,
                to: to@,
                ignore_errors: *ignore_errors,
            },
            Op::LocalExternal { pipeline, variables, environment } => OpView::LocalExternal {
                pipeline: pipeline@,
                variables: variables_view(variables@),
                environment: variables_view(environment@),
            },
            Op::ServerExternal { server, pipeline, variables, environment } =>
                OpView::ServerExternal {
                server: server@,
                pipeline: pipeline@,
                variables: variables_view(variables@),
                environment: variables_view(environment@),
            },
            Op::Shell { working_dir, command } => OpView::Shell {
                working_dir: opt_view(*working_dir),
                command: command@,
            },
            Op::CheckStop => OpView::CheckStop,
        }
    }
}

impl Op {
    /// A failure of this operation is reported and the run goes on.
    pub open spec fn spec_tolerates_failure(&self) -> bool {
        match self {
            Op::Log(_) | Op::CopyNote { .. } => true,
            Op::Transfer { ignore_errors, .. } => *ignore_errors,
            _ => false,
        }
    }

    pub fn tolerates_failure(&self) -> (r: bool)
        ensures
            r == self.spec_tolerates_failure(),
    {
        match self {
            Op::Log(_) | Op::CopyNote { .. } => true,
            Op::Transfer { ignore_errors, .. } => *ignore_errors,
            _ => false,
        }
    }
}

pub open spec fn ops_view(v: Seq<Op>) -> Seq<OpView> {
    v.map_values(|o: Op| o@)
}

// ---- the order of operations ----

/// The opening lines: the pipeline's name, if it has one, and its platform.
pub open spec fn header_ops(p: Pipeline) -> Seq<OpView> {
    (match p.name {
        Some(n) => seq![OpView::Log("Pipeline: "@ + n@)],
        None => seq![],
    }) + seq![OpView::Log("Runs on: "@ + platform_label(p.runs_on))]
}

/// The direction that an artifact names, if it names one.
pub open spec fn artifact_method(a: Artifact) -> Option<ArtifactMethod> {
    match a.method {
        Some(m) => if m@ == "push"@ {
            Some(ArtifactMethod::Push)
        } else if m@ == "get"@ {
            Some(ArtifactMethod::Get)
        } else {
            None
        },
        None => None,
    }
}

/// The operations of one artifact at stage `after`: it runs there only if it
/// names a direction and both ends.
pub open spec fn artifact_ops_one(a: Artifact, after: Option<Seq<char>>) -> Seq<OpView> {
    if opt_view(a.after) == after && artifact_method(a) is Some && a.from is Some && a.to is Some {
        seq![
            OpView::CopyNote { from: a.from->Some_0@, to: a.to->Some_0@ },
            OpView::Transfer {
                method: artifact_method(a)->Some_0,
                from: a.from->Some_0@,
                to: a.to->Some_0@,
                ignore_errors: a.ignore_errors,
            },
        ]
    } else {
        seq![]
    }
}

/// The operations of the first `n` artifacts at stage `after`.
pub open spec fn artifact_ops(arts: Seq<Artifact>, after: Option<Seq<char>>, n: int) -> Seq<
    OpView,
>
    decreases n,
{
    if n <= 0 {
        seq![]
    } else {
        artifact_ops(arts, after, n - 1) + artifact_ops_one(arts[n - 1], after)
    }
}

/// The first sub-pipeline declared under `name`, looking from index `j` on.
pub open spec fn find_external_from(exts: Seq<External>, name: Seq<char>, j: int) -> Option<
    External,
>
    decreases exts.len() - j,
{
    if j < 0 || j >= exts.len() {
        None
    } else if exts[j].spec_name() == name {
        Some(exts[j])
    } else {
        find_external_from(exts, name, j + 1)
    }
}

/// The operations of one sub-pipeline reference: the invocation, then a
/// check for a stop request. An undeclared name is passed over.
pub open spec fn external_ops_one(p: Pipeline, name: Seq<char>) -> Seq<OpView> {
    match find_external_from(p.external@, name, 0) {
        Some(External::Local(d)) => seq![
            OpView::LocalExternal {
                pipeline: d.pipeline@,
                variables: variables_view(d.variables@),
                environment: variables_view(d.environment@),
            },
            OpView::CheckStop,
        ],
        Some(External::Server { server, details: d }) => seq![
            OpView::ServerExternal {
                server: server@,
                pipeline: d.pipeline@,
                variables: variables_view(d.variables@),
                environment: variables_view(d.environment@),
            },
            OpView::CheckStop,
        ],
        None => seq![],
    }
}

pub open spec fn external_ops(p: Pipeline, names: Seq<String>, n: int) -> Seq<OpView>
    decreases n,
{
    if n <= 0 {
        seq![]
    } else {
        external_ops(p, names, n - 1) + external_ops_one(p, names[n - 1]@)
    }
}

/// Each command, followed by a check for a stop request.
pub open spec fn command_ops(s: BuildStep, n: int) -> Seq<OpView>
    decreases n,
{
    if n <= 0 {
        seq![]
    } else {
        command_ops(s, n - 1) + seq![
            OpView::Shell { working_dir: opt_view(s.working_dir), command: s.commands@[n - 1]@ },
            OpView::CheckStop,
        ]
    }
}

/// One step: its name line, its sub-pipelines, its commands, the artifacts
/// that follow it by name, and a check for a stop request.
pub open spec fn step_ops(p: Pipeline, s: BuildStep) -> Seq<OpView> {
    (match s.name {
        Some(n) => seq![OpView::Log("Step: "@ + n@)],
        None => seq![],
    }) + external_ops(p, s.external@, s.external@.len() as int) + command_ops(
        s,
        s.commands@.len() as int,
    ) + (match s.name {
        Some(n) => artifact_ops(p.artifacts@, Some(n@), p.artifacts@.len() as int),
        None => seq![],
    }) + seq![OpView::CheckStop]
}

pub open spec fn steps_ops(p: Pipeline, n: int) -> Seq<OpView>
    decreases n,
{
    if n <= 0 {
        seq![]
    } else {
        steps_ops(p, n - 1) + step_ops(p, p.steps@[n - 1])
    }
}

/// The whole body of a run, before substitution: the opening lines, the
/// artifacts that run before any step, then the steps in order.
pub open spec fn raw_plan(p: Pipeline) -> Seq<OpView> {
    header_ops(p) + artifact_ops(p.artifacts@, None, p.artifacts@.len() as int) + steps_ops(
        p,
        p.steps@.len() as int,
    )
}

// ---- substitution over operations ----

/// The line that announces an artifact copy.
pub open spec fn copy_line(from: Seq<char>, to: Seq<char>) -> Seq<char> {
    "Copying artifacts from: "@ + from + " into container to: "@ + to
}

/// The values of `pairs` through substitution, the names kept; the first
/// error in order wins.
pub open spec fn expand_values(ctx: ContextView, pairs: PairsView, n: int) -> Result<
    PairsView,
    TokenError,
>
    decreases n,
{
    if n <= 0 {
        Ok(seq![])
    } else {
        match expand_values(ctx, pairs, n - 1) {
            Err(e) => Err(e),
            Ok(prev) => match expand(ctx, pairs[n - 1].1) {
                Err(e) => Err(e),
                Ok(v) => Ok(prev.push((pairs[n - 1].0, v))),
            },
        }
    }
}

pub open spec fn expand_all_values(ctx: ContextView, pairs: PairsView) -> Result<
    PairsView,
    TokenError,
> {
    expand_values(ctx, pairs, pairs.len() as int)
}

/// An operation through substitution; its texts are expanded in order and
/// the first error wins. Log lines and server names are kept as written.
pub open spec fn expand_op(ctx: ContextView, op: OpView) -> Result<OpView, TokenError> {
    match op {
        OpView::Log(t) => Ok(OpView::Log(t)),
        OpView::CopyNote { from, to } => match expand(ctx, from) {
            Err(e) => Err(e),
            Ok(f) => match expand(ctx, to) {
                Err(e) => Err(e),
                Ok(t) => Ok(OpView::Log(copy_line(f, t))),
            },
        },
        OpView::Transfer { method, from, to, ignore_errors } => match expand(ctx, from) {
            Err(e) => Err(e),
            Ok(f) => match expand(ctx, to) {
                Err(e) => Err(e),
                Ok(t) => Ok(OpView::Transfer { method, from: f, to: t, ignore_errors }),
            },
        },
        OpView::LocalExternal { pipeline, variables, environment } => match expand(
            ctx,
            pipeline,
        ) {
            Err(e) => Err(e),
            Ok(pl) => match expand_all_values(ctx, variables) {
                Err(e) => Err(e),
                Ok(vs) => match expand_all_values(ctx, environment) {
                    Err(e) => Err(e),
                    Ok(es) => Ok(
                        OpView::LocalExternal { pipeline: pl, variables: vs, environment: es },
                    ),
                },
            },
        },
        OpView::ServerExternal { server, pipeline, variables, environment } => match expand(
            ctx,
            pipeline,
        ) {
            Err(e) => Err(e),
            Ok(pl) => match expand_all_values(ctx, variables) {
                Err(e) => Err(e),
                Ok(vs) => match expand_all_values(ctx, environment) {
                    Err(e) => Err(e),
                    Ok(es) => Ok(
                        OpView::ServerExternal {
                            server,
                            pipeline: pl,
                            variables: vs,
                            environment: es,
                        },
                    ),
                },
            },
        },
        OpView::Shell { working_dir, command } => match working_dir {
            Some(w) => match expand(ctx, w) {
                Err(e) => Err(e),
                Ok(wd) => match expand(ctx, command) {
                    Err(e) => Err(e),
                    Ok(c) => Ok(OpView::Shell { working_dir: Some(wd), command: c }),
                },
            },
            None => match expand(ctx, command) {
                Err(e) => Err(e),
                Ok(c) => Ok(OpView::Shell { working_dir: None, command: c }),
            },
        },
        OpView::CheckStop => Ok(OpView::CheckStop),
    }
}

/// The first `n` operations through substitution; the first error wins.
pub open spec fn expand_ops(ctx: ContextView, ops: Seq<OpView>, n: int) -> Result<
    Seq<OpView>,
    TokenError,
>
    decreases n,
{
    if n <= 0 {
        Ok(seq![])
    } else {
        match expand_ops(ctx, ops, n - 1) {
            Err(e) => Err(e),
            Ok(prev) => match expand_op(ctx, ops[n - 1]) {
                Err(e) => Err(e),
                Ok(o) => Ok(prev.push(o)),
            },
        }
    }
}

/// The body of a run as it is performed: the raw plan through substitution.
pub open spec fn plan(ctx: ContextView, p: Pipeline) -> Result<Seq<OpView>, TokenError> {
    let raw = raw_plan(p);
    expand_ops(ctx, raw, raw.len() as int)
}

// ---- building the plan ----

fn push_op(out: &mut Vec<Op>, o: Op)
    ensures
        ops_view(final(out)@) == ops_view(old(out)@).push(o@),
{
    let ghost ov = o@;
    out.push(o);
    proof {
        assert(ops_view(out@) =~= ops_view(old(out)@).push(ov));
    }
}

fn clone_opt(a: &Option<String>) -> (r: Option<String>)
    ensures
        opt_view(r) == opt_view(*a),
{
    match a {
        Some(s) => Some(s.clone()),
        None => None,
    }
}

fn opt_eq(a: &Option<String>, b: &Option<String>) -> (r: bool)
    ensures
        r == (opt_view(*a) == opt_view(*b)),
{
    match (a, b) {
        (Some(x), Some(y)) => *x == *y,
        (None, None) => true,
        _ => false,
    }
}

/// A copy of declared variables.
pub fn copy_variables(v: &Vec<Variable>) -> (r: Vec<Variable>)
    ensures
        variables_view(r@) == variables_view(v@),
{
    let mut out: Vec<Variable> = Vec::new();
    let mut i: usize = 0;
    while i < v.len()
        invariant
            i <= v@.len(),
            variables_view(out@) =~= variables_view(v@.subrange(0, i as int)),
        decreases v@.len() - i,
    {
        let ghost pre = out@;
        out.push(Variable::new(v[i].name.clone(), v[i].default_value.clone()));
        proof {
            assert(variables_view(out@) =~= variables_view(pre).push(
                (v@[i as int].name@, v@[i as int].default_value@),
            ));
            assert(v@.subrange(0, i + 1) =~= v@.subrange(0, i as int).push(v@[i as int]));
            assert(variables_view(v@.subrange(0, i + 1)) =~= variables_view(
                v@.subrange(0, i as int),
            ).push((v@[i as int].name@, v@[i as int].default_value@)));
        }
        i = i + 1;
    }
    proof {
        assert(v@.subrange(0, v@.len() as int) == v@);
    }
    out
}

fn method_of(a: &Artifact) -> (r: Option<ArtifactMethod>)
    ensures
        r == artifact_method(*a),
{
    match &a.method {
        Some(m) => {
            if *m == String::from_str("push") {
                Some(ArtifactMethod::Push)
            } else if *m == String::from_str("get") {
                Some(ArtifactMethod::Get)
            } else {
                None
            }
        },
        None => None,
    }
}

fn push_artifact_ops(out: &mut Vec<Op>, arts: &Vec<Artifact>, after: &Option<String>)
    ensures
        ops_view(final(out)@) == ops_view(old(out)@) + artifact_ops(
            arts@,
            opt_view(*after),
            arts@.len() as int,
        ),
{
    let ghost base = ops_view(out@);
    let ghost av = opt_view(*after);
    let mut i: usize = 0;
    proof {
        assert(base + seq![] =~= base);
    }
    while i < arts.len()
        invariant
            i <= arts@.len(),
            av == opt_view(*after),
            ops_view(out@) == base + artifact_ops(arts@, av, i as int),
        decreases arts@.len() - i,
    {
        let a = &arts[i];
        let m = method_of(a);
        let ghost prev = ops_view(out@);
        if opt_eq(&a.after, after) && m.is_some() && a.from.is_some() && a.to.is_some() {
            let from = clone_opt(&a.from).unwrap();
            let to = clone_opt(&a.to).unwrap();
            push_op(out, Op::CopyNote { from: from.clone(), to: to.clone() });
            push_op(
                out,
                Op::Transfer { method: m.unwrap(), from, to, ignore_errors: a.ignore_errors },
            );
            proof {
                assert(artifact_ops_one(arts@[i as int], av) =~= seq![
                    OpView::CopyNote { from: from@, to: to@ },
                    OpView::Transfer {
                        method: m->Some_0,
                        from: from@,
                        to: to@,
                        ignore_errors: a.ignore_errors,
                    },
                ]);
                assert(ops_view(out@) =~= base + artifact_ops(arts@, av, i + 1));
            }
        } else {
            proof {
                assert(artifact_ops_one(arts@[i as int], av) =~= seq![]);
                assert(ops_view(out@) =~= base + artifact_ops(arts@, av, i + 1));
            }
        }
        i = i + 1;
    }
}

fn find_external(exts: &Vec<External>, name: &String) -> (r: Option<usize>)
    ensures
        r matches Some(j) ==> j < exts@.len() && find_external_from(exts@, name@, 0) == Some(
            exts@[j as int],
        ),
        r is None ==> find_external_from(exts@, name@, 0) is None,
{
    let mut j: usize = 0;
    while j < exts.len()
        invariant
            j <= exts@.len(),
            find_external_from(exts@, name@, 0) == find_external_from(exts@, name@, j as int),
        decreases exts@.len() - j,
    {
        if *exts[j].name() == *name {
            return Some(j);
        }
        j = j + 1;
    }
    None
}

fn push_external_ops(out: &mut Vec<Op>, p: &Pipeline, names: &Vec<String>)
    ensures
        ops_view(final(out)@) == ops_view(old(out)@) + external_ops(
            *p,
            names@,
            names@.len() as int,
        ),
{
    let ghost base = ops_view(out@);
    let mut i: usize = 0;
    proof {
        assert(base + seq![] =~= base);
    }
    while i < names.len()
        invariant
            i <= names@.len(),
            ops_view(out@) == base + external_ops(*p, names@, i as int),
        decreases names@.len() - i,
    {
        match find_external(&p.external, &names[i]) {
            Some(j) => {
                match &p.external[j] {
                    External::Local(d) => {
                        push_op(
                            out,
                            Op::LocalExternal {
                                pipeline: d.pipeline.clone(),
                                variables: copy_variables(&d.variables),
                                environment: copy_variables(&d.environment),
                            },
                        );
                    },
                    External::Server { server, details: d } => {
                        push_op(
                            out,
                            Op::ServerExternal {
                                server: server.clone(),
                                pipeline: d.pipeline.clone(),
                                variables: copy_variables(&d.variables),
                                environment: copy_variables(&d.environment),
                            },
                        );
                    },
                }
                push_op(out, Op::CheckStop);
            },
            None => {},
        }
        proof {
            assert(ops_view(out@) =~= base + external_ops(*p, names@, i + 1));
        }
        i = i + 1;
    }
}

fn push_command_ops(out: &mut Vec<Op>, s: &BuildStep)
    ensures
        ops_view(final(out)@) == ops_view(old(out)@) + command_ops(*s, s.commands@.len() as int),
{
    let ghost base = ops_view(out@);
    let mut i: usize = 0;
    proof {
        assert(base + seq![] =~= base);
    }
    while i < s.commands.len()
        invariant
            i <= s.commands@.len(),
            ops_view(out@) == base + command_ops(*s, i as int),
        decreases s.commands@.len() - i,
    {
        push_op(
            out,
            Op::Shell { working_dir: clone_opt(&s.working_dir), command: s.commands[i].clone() },
        );
        push_op(out, Op::CheckStop);
        proof {
            assert(ops_view(out@) =~= base + command_ops(*s, i + 1));
        }
        i = i + 1;
    }
}

fn push_step_ops(out: &mut Vec<Op>, p: &Pipeline, s: &BuildStep)
    ensures
        ops_view(final(out)@) == ops_view(old(out)@) + step_ops(*p, *s),
{
    let ghost base = ops_view(out@);
    match &s.name {
        Some(n) => push_op(out, Op::Log(concat("Step: ", n.as_str()))),
        None => {},
    }
    let ghost a = ops_view(out@);
    push_external_ops(out, p, &s.external);
    let ghost b = ops_view(out@);
    push_command_ops(out, s);
    let ghost c = ops_view(out@);
    match &s.name {
        Some(n) => push_artifact_ops(out, &p.artifacts, &s.name),
        None => {},
    }
    let ghost d = ops_view(out@);
    push_op(out, Op::CheckStop);
    proof {
        let name_ops = match &s.name {
            Some(n) => seq![OpView::Log("Step: "@ + n@)],
            None => seq![],
        };
        assert(a =~= base + name_ops);
        let art = match &s.name {
            Some(n) => artifact_ops(p.artifacts@, Some(n@), p.artifacts@.len() as int),
            None => seq![],
        };
        assert(d =~= c + art);
        assert(ops_view(out@) =~= base + step_ops(*p, *s));
    }
}

/// The operations of a pipeline's body, in order, before substitution.
pub fn raw_plan_of(p: &Pipeline) -> (r: Vec<Op>)
    ensures
        ops_view(r@) == raw_plan(*p),
{
    let mut out: Vec<Op> = Vec::new();
    match &p.name {
        Some(n) => push_op(&mut out, Op::Log(concat("Pipeline: ", n.as_str()))),
        None => {},
    }
    let label = p.runs_on.label();
    push_op(&mut out, Op::Log(concat("Runs on: ", label.as_str())));
    proof {
        assert(ops_view(out@) =~= header_ops(*p));
    }
    let none: Option<String> = None;
    push_artifact_ops(&mut out, &p.artifacts, &none);
    let ghost base = ops_view(out@);
    let mut i: usize = 0;
    proof {
        assert(base + seq![] =~= base);
    }
    while i < p.steps.len()
        invariant
            i <= p.steps@.len(),
            base == header_ops(*p) + artifact_ops(p.artifacts@, None, p.artifacts@.len() as int),
            ops_view(out@) == base + steps_ops(*p, i as int),
        decreases p.steps@.len() - i,
    {
        push_step_ops(&mut out, p, &p.steps[i]);
        proof {
            assert(ops_view(out@) =~= base + steps_ops(*p, i + 1));
        }
        i = i + 1;
    }
    proof {
        assert(ops_view(out@) =~= raw_plan(*p));
    }
    out
}

// ---- substitution over operations, executed ----

fn copy_line_of(from: &String, to: &String) -> (r: String)
    ensures
        r@ == copy_line(from@, to@),
{
    let a = concat("Copying artifacts from: ", from.as_str());
    let b = concat(a.as_str(), " into container to: ");
    concat(b.as_str(), to.as_str())
}

/// The values of declared variables through substitution, the names kept.
pub fn expand_variables(ctx: &TokenContext, v: &Vec<Variable>) -> (r: Result<
    Vec<Variable>,
    TokenError,
>)
    ensures
        r matches Ok(x) ==> expand_all_values(ctx@, variables_view(v@)) == Ok::<
            PairsView,
            TokenError,
        >(variables_view(x@)),
        r matches Err(e) ==> expand_all_values(ctx@, variables_view(v@)) == Err::<
            PairsView,
            TokenError,
        >(e),
{
    let ghost vv = variables_view(v@);
    let mut out: Vec<Variable> = Vec::new();
    let mut i: usize = 0;
    proof {
        assert(variables_view(out@) =~= seq![]);
    }
    while i < v.len()
        invariant
            i <= v@.len(),
            vv == variables_view(v@),
            expand_values(ctx@, vv, i as int) == Ok::<PairsView, TokenError>(
                variables_view(out@),
            ),
        decreases v@.len() - i,
    {
        match ctx.apply_context(v[i].default_value.as_str()) {
            Err(e) => {
                proof {
                    assert(vv[i as int].1 == v@[i as int].default_value@);
                    lemma_expand_values_err(ctx@, vv, i as int + 1, v@.len() as int, e);
                }
                return Err(e);
            },
            Ok(x) => {
                let ghost pre = out@;
                out.push(Variable::new(v[i].name.clone(), x));
                proof {
                    assert(vv[i as int].1 == v@[i as int].default_value@);
                    assert(variables_view(out@) =~= variables_view(pre).push(
                        (vv[i as int].0, x@),
                    ));
                }
            },
        }
        i = i + 1;
    }
    Ok(out)
}

proof fn lemma_expand_values_err(ctx: ContextView, pairs: PairsView, k: int, n: int, e: TokenError)
    requires
        0 < k <= n,
        expand_values(ctx, pairs, k) == Err::<PairsView, TokenError>(e),
    ensures
        expand_values(ctx, pairs, n) == Err::<PairsView, TokenError>(e),
    decreases n - k,
{
    if k < n {
        lemma_expand_values_err(ctx, pairs, k + 1, n, e);
    }
}

proof fn lemma_expand_ops_err(ctx: ContextView, ops: Seq<OpView>, k: int, n: int, e: TokenError)
    requires
        0 < k <= n,
        expand_ops(ctx, ops, k) == Err::<Seq<OpView>, TokenError>(e),
    ensures
        expand_ops(ctx, ops, n) == Err::<Seq<OpView>, TokenError>(e),
    decreases n - k,
{
    if k < n {
        lemma_expand_ops_err(ctx, ops, k + 1, n, e);
    }
}

/// One operation through substitution.
pub fn expand_op_exec(ctx: &TokenContext, op: &Op) -> (r: Result<Op, TokenError>)
    ensures
        r matches Ok(o) ==> expand_op(ctx@, op@) == Ok::<OpView, TokenError>(o@),
        r matches Err(e) ==> expand_op(ctx@, op@) == Err::<OpView, TokenError>(e),
{
    match op {
        Op::Log(t) => Ok(Op::Log(t.clone())),
        Op::CopyNote { from, to } => {
            let f = ctx.apply_context(from.as_str())?;
            let t = ctx.apply_context(to.as_str())?;
            Ok(Op::Log(copy_line_of(&f, &t)))
        },
        Op::Transfer { method, from, to, ignore_errors } => {
            let f = ctx.apply_context(from.as_str())?;
            let t = ctx.apply_context(to.as_str())?;
            Ok(Op::Transfer { method: *method, from: f, to: t, ignore_errors: *ignore_errors })
        },
        Op::LocalExternal { pipeline, variables, environment } => {
            let pl = ctx.apply_context(pipeline.as_str())?;
            let vs = expand_variables(ctx, variables)?;
            let es = expand_variables(ctx, environment)?;
            Ok(Op::LocalExternal { pipeline: pl, variables: vs, environment: es })
        },
        Op::ServerExternal { server, pipeline, variables, environment } => {
            let pl = ctx.apply_context(pipeline.as_str())?;
            let vs = expand_variables(ctx, variables)?;
            let es = expand_variables(ctx, environment)?;
            Ok(
                Op::ServerExternal {
                    server: server.clone(),
                    pipeline: pl,
                    variables: vs,
                    environment: es,
                },
            )
        },
        Op::Shell { working_dir, command } => {
            let wd = match working_dir {
                Some(w) => Some(ctx.apply_context(w.as_str())?),
                None => None,
            };
            let c = ctx.apply_context(command.as_str())?;
            Ok(Op::Shell { working_dir: wd, command: c })
        },
        Op::CheckStop => Ok(Op::CheckStop),
    }
}

/// Operations through substitution, in order; the first error wins.
pub fn expand_plan(ctx: &TokenContext, ops: &Vec<Op>) -> (r: Result<Vec<Op>, TokenError>)
    ensures
        r matches Ok(x) ==> expand_ops(ctx@, ops_view(ops@), ops@.len() as int) == Ok::<
            Seq<OpView>,
            TokenError,
        >(ops_view(x@)),
        r matches Err(e) ==> expand_ops(ctx@, ops_view(ops@), ops@.len() as int) == Err::<
            Seq<OpView>,
            TokenError,
        >(e),
{
    let ghost ov = ops_view(ops@);
    let mut out: Vec<Op> = Vec::new();
    let mut i: usize = 0;
    proof {
        assert(ops_view(out@) =~= seq![]);
    }
    while i < ops.len()
        invariant
            i <= ops@.len(),
            ov == ops_view(ops@),
            expand_ops(ctx@, ov, i as int) == Ok::<Seq<OpView>, TokenError>(ops_view(out@)),
        decreases ops@.len() - i,
    {
        match expand_op_exec(ctx, &ops[i]) {
            Err(e) => {
                proof {
                    assert(ov[i as int] == ops@[i as int]@);
                    lemma_expand_ops_err(ctx@, ov, i as int + 1, ops@.len() as int, e);
                }
                return Err(e);
            },
            Ok(o) => {
                proof {
                    assert(ov[i as int] == ops@[i as int]@);
                }
                push_op(&mut out, o);
            },
        }
        i = i + 1;
    }
    Ok(out)
}

} // verus!
