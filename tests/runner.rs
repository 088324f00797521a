use bld::pipeline::{Artifact, BuildStep, External, ExternalDetails, Pipeline, Platform};
use bld::plan::{ArtifactMethod, Op};
use bld::runner::{Action, Outcome, Runner};
use bld::tokens::TokenError;
use bld::vars::{VarMap, Variable};

fn s(x: &str) -> String {
    x.to_string()
}

fn step(name: Option<&str>, commands: &[&str]) -> BuildStep {
    BuildStep {
        name: name.map(s),
        working_dir: None,
        commands: commands.iter().map(|c| s(c)).collect(),
        external: Vec::new(),
    }
}

fn pipeline(name: Option<&str>, steps: Vec<BuildStep>) -> Pipeline {
    Pipeline {
        name: name.map(s),
        runs_on: Platform::ContainerOrMachine(s("machine")),
        dispose: false,
        steps,
        artifacts: Vec::new(),
        variables: Vec::new(),
        environment: Vec::new(),
        external: Vec::new(),
    }
}

fn root(p: Pipeline) -> Runner {
    Runner::new(s("run-1"), s("2024-01-01 10:00:00"), p, VarMap::new(), VarMap::new(), false, false)
        .ok()
        .unwrap()
}

/// Drives a runner to its end. `answer` decides the outcome of each
/// operation; every other request succeeds. Returns a description of each
/// request, in order.
fn drive(runner: &mut Runner, answer: &mut dyn FnMut(&Op) -> Outcome) -> Vec<String> {
    let mut seen = Vec::new();
    let mut outcome = Outcome::Succeeded;
    for _ in 0..1000 {
        let action = runner.next_action(outcome);
        outcome = Outcome::Succeeded;
        match action {
            Action::SetRunning => seen.push(s("set running")),
            Action::Perform(i) => {
                let op = runner.op(i);
                seen.push(match op {
                    Op::Log(t) => format!("log {t}"),
                    Op::Shell { command, .. } => format!("sh {command}"),
                    Op::CheckStop => s("check stop"),
                    Op::Transfer { method, from, to, .. } => format!("{method:?} {from} {to}"),
                    Op::LocalExternal { pipeline, .. } => format!("local {pipeline}"),
                    Op::ServerExternal { server, pipeline, .. } => format!("server {server} {pipeline}"),
                    Op::CopyNote { .. } => s("copy note"),
                });
                outcome = answer(op);
            }
            Action::Report(m) => seen.push(format!("report {m}")),
            Action::Cancelled => seen.push(s("cancelled")),
            Action::SetFinished => seen.push(s("set finished")),
            Action::SetFaulted => seen.push(s("set faulted")),
            Action::Dispose => seen.push(s("dispose")),
            Action::KeepAlive => seen.push(s("keep alive")),
            Action::SendCompleted => seen.push(s("send completed")),
            Action::Done { success } => {
                seen.push(format!("done {success}"));
                return seen;
            }
        }
    }
    panic!("the run did not end");
}

fn all_ok(_: &Op) -> Outcome {
    Outcome::Succeeded
}

#[test]
fn local_run_single_step() {
    let mut r = root(pipeline(Some("hello"), vec![step(Some("s1"), &["echo hi"])]));
    let seen = drive(&mut r, &mut all_ok);
    assert_eq!(
        seen,
        vec![
            "set running",
            "log Pipeline: hello",
            "log Runs on: machine",
            "log Step: s1",
            "sh echo hi",
            "check stop",
            "check stop",
            "set finished",
            "keep alive",
            "done true",
        ]
    );
}

fn hi_pipeline() -> Pipeline {
    let mut p = pipeline(Some("hi"), vec![step(None, &["echo ${VAR:who}"])]);
    p.variables.push(Variable::new(s("who"), s("world")));
    p
}

fn commands_of(r: &Runner) -> Vec<String> {
    r.ops
        .iter()
        .filter_map(|o| match o {
            Op::Shell { command, .. } => Some(command.clone()),
            _ => None,
        })
        .collect()
}

#[test]
fn variable_substitution_prefers_caller_value() {
    let mut vars = VarMap::new();
    vars.insert(s("who"), s("earth"));
    let r = Runner::new(s("id"), s("t"), hi_pipeline(), vars, VarMap::new(), false, false)
        .ok()
        .unwrap();
    assert_eq!(commands_of(&r), vec![s("echo earth")]);
}

#[test]
fn variable_substitution_falls_back_to_default() {
    let r = root(hi_pipeline());
    assert_eq!(commands_of(&r), vec![s("echo world")]);
}

#[test]
fn unknown_variable_expands_to_empty() {
    let r = root(pipeline(None, vec![step(None, &["echo [${VAR:nobody}]"])]));
    assert_eq!(commands_of(&r), vec![s("echo []")]);
}

#[test]
fn malformed_token_fails_building() {
    let p = pipeline(None, vec![step(None, &["echo ${VAR:who"])]);
    let r = Runner::new(s("id"), s("t"), p, VarMap::new(), VarMap::new(), false, false);
    assert!(matches!(r, Err(TokenError::Unterminated)));
}

#[test]
fn fault_skips_later_steps_and_cleans_up() {
    let mut r = root(pipeline(
        Some("f"),
        vec![step(Some("a"), &["exit 2"]), step(Some("b"), &["echo never"])],
    ));
    let seen = drive(&mut r, &mut |op: &Op| match op {
        Op::Shell { command, .. } if command == "exit 2" => Outcome::Failed(s("exit status 2")),
        _ => Outcome::Succeeded,
    });
    assert!(!seen.contains(&s("sh echo never")));
    assert!(!seen.contains(&s("log Step: b")));
    let n = seen.len();
    assert_eq!(
        &seen[n - 4..],
        &[s("report exit status 2"), s("set faulted"), s("keep alive"), s("done false")]
    );
}

#[test]
fn sub_pipeline_is_invoked_then_stop_is_checked() {
    let mut p = pipeline(Some("parent"), Vec::new());
    let mut st = step(Some("s1"), &[]);
    st.external.push(s("sub"));
    p.steps.push(st);
    p.external.push(External::Local(ExternalDetails {
        name: s("sub"),
        pipeline: s("sub.yaml"),
        variables: vec![Variable::new(s("x"), s("${RUN:id}"))],
        environment: Vec::new(),
    }));
    let mut r = root(p);
    let seen = drive(&mut r, &mut all_ok);
    let at = seen.iter().position(|x| x == "local sub.yaml").unwrap();
    assert_eq!(seen[at + 1], "check stop");
    match r.ops.iter().find(|o| matches!(o, Op::LocalExternal { .. })).unwrap() {
        Op::LocalExternal { variables, .. } => {
            assert_eq!(variables[0].name, "x");
            assert_eq!(variables[0].default_value, "run-1");
        }
        _ => unreachable!(),
    }
}

#[test]
fn child_fault_faults_parent() {
    let mut p = pipeline(Some("parent"), Vec::new());
    let mut st = step(Some("s1"), &["echo after"]);
    st.external.push(s("sub"));
    p.steps.push(st);
    p.external.push(External::Local(ExternalDetails {
        name: s("sub"),
        pipeline: s("sub.yaml"),
        variables: Vec::new(),
        environment: Vec::new(),
    }));
    let mut r = root(p);
    let seen = drive(&mut r, &mut |op: &Op| match op {
        Op::LocalExternal { .. } => Outcome::Failed(s("child faulted")),
        _ => Outcome::Succeeded,
    });
    assert!(!seen.contains(&s("sh echo after")));
    assert!(seen.contains(&s("set faulted")));
    assert_eq!(seen.last().unwrap(), "done false");
}

#[test]
fn child_runner_leaves_state_to_root() {
    let p = pipeline(Some("sub"), vec![step(None, &["echo child-line"])]);
    let mut r = Runner::new(s("id"), s("t"), p, VarMap::new(), VarMap::new(), true, true)
        .ok()
        .unwrap();
    let seen = drive(&mut r, &mut all_ok);
    assert!(!seen.contains(&s("set running")));
    assert!(!seen.contains(&s("set finished")));
    assert!(!seen.contains(&s("send completed")));
    assert!(seen.contains(&s("sh echo child-line")));
    assert_eq!(seen.last().unwrap(), "done true");
}

#[test]
fn stop_during_long_command_faults_at_once() {
    let mut r = root(pipeline(
        Some("long"),
        vec![step(Some("a"), &["sleep 60", "echo later"]), step(Some("b"), &["echo never"])],
    ));
    let seen = drive(&mut r, &mut |op: &Op| match op {
        Op::CheckStop => Outcome::Stopped,
        _ => Outcome::Succeeded,
    });
    let at = seen.iter().position(|x| x == "sh sleep 60").unwrap();
    assert_eq!(
        &seen[at + 1..],
        &[
            s("check stop"),
            s("cancelled"),
            s("set faulted"),
            s("keep alive"),
            s("done false")
        ]
    );
}

#[test]
fn success_comes_after_platform_release() {
    let mut p = pipeline(Some("d"), vec![step(None, &["true"])]);
    p.dispose = true;
    let mut r = Runner::new(s("id"), s("t"), p, VarMap::new(), VarMap::new(), false, true)
        .ok()
        .unwrap();
    let seen = drive(&mut r, &mut all_ok);
    let n = seen.len();
    assert_eq!(&seen[n - 4..], &[s("set finished"), s("dispose"), s("send completed"), s("done true")]);
}

#[test]
fn failed_cleanup_reports_failure() {
    let mut r = root(pipeline(None, vec![step(None, &["true"])]));
    let mut outcome = Outcome::Succeeded;
    loop {
        let a = r.next_action(outcome);
        outcome = Outcome::Succeeded;
        match a {
            Action::KeepAlive => outcome = Outcome::Failed(s("platform gone")),
            Action::Done { success } => {
                assert!(!success);
                break;
            }
            _ => {}
        }
    }
}

#[test]
fn artifacts_run_before_steps_and_after_named_step() {
    let mut p = pipeline(None, vec![step(Some("build"), &["make"])]);
    p.artifacts.push(Artifact {
        method: Some(s("push")),
        from: Some(s("src")),
        to: Some(s("/work")),
        after: None,
        ignore_errors: false,
    });
    p.artifacts.push(Artifact {
        method: Some(s("get")),
        from: Some(s("/work/out")),
        to: Some(s("out")),
        after: Some(s("build")),
        ignore_errors: true,
    });
    p.artifacts.push(Artifact {
        method: Some(s("copy")),
        from: Some(s("a")),
        to: Some(s("b")),
        after: None,
        ignore_errors: false,
    });
    let mut r = root(p);
    let seen = drive(&mut r, &mut |op: &Op| match op {
        Op::Transfer { method: ArtifactMethod::Get, .. } => Outcome::Failed(s("no such file")),
        _ => Outcome::Succeeded,
    });
    let push = seen.iter().position(|x| x == "Push src /work").unwrap();
    let make = seen.iter().position(|x| x == "sh make").unwrap();
    let get = seen.iter().position(|x| x == "Get /work/out out").unwrap();
    assert!(push < make && make < get);
    assert!(seen.contains(&s("log Copying artifacts from: src into container to: /work")));
    assert!(!seen.iter().any(|x| x.contains("copy")
        && !x.starts_with("log Copying")));
    assert_eq!(seen[get + 1], "report no such file");
    assert_eq!(seen.last().unwrap(), "done true");
}

#[test]
fn failing_artifact_without_ignore_faults() {
    let mut p = pipeline(None, vec![step(Some("s"), &["echo x"])]);
    p.artifacts.push(Artifact {
        method: Some(s("push")),
        from: Some(s("a")),
        to: Some(s("b")),
        after: None,
        ignore_errors: false,
    });
    let mut r = root(p);
    let seen = drive(&mut r, &mut |op: &Op| match op {
        Op::Transfer { .. } => Outcome::Failed(s("copy failed")),
        _ => Outcome::Succeeded,
    });
    assert!(!seen.contains(&s("sh echo x")));
    assert_eq!(seen.last().unwrap(), "done false");
}

#[test]
fn server_external_keeps_server_name() {
    let mut p = pipeline(None, Vec::new());
    let mut st = step(None, &[]);
    st.external.push(s("remote"));
    p.steps.push(st);
    p.external.push(External::Server {
        server: s("prod"),
        details: ExternalDetails {
            name: s("remote"),
            pipeline: s("deploy.yaml"),
            variables: Vec::new(),
            environment: vec![Variable::new(s("E"), s("${ENV:E}"))],
        },
    });
    let mut env = VarMap::new();
    env.insert(s("E"), s("staging"));
    let r = Runner::new(s("id"), s("t"), p, VarMap::new(), env, false, false).ok().unwrap();
    match r.ops.iter().find(|o| matches!(o, Op::ServerExternal { .. })).unwrap() {
        Op::ServerExternal { server, pipeline, environment, .. } => {
            assert_eq!(server, "prod");
            assert_eq!(pipeline, "deploy.yaml");
            assert_eq!(environment[0].default_value, "staging");
        }
        _ => unreachable!(),
    }
}

#[test]
fn undeclared_external_is_passed_over() {
    let mut p = pipeline(None, Vec::new());
    let mut st = step(None, &["echo x"]);
    st.external.push(s("missing"));
    p.steps.push(st);
    let r = root(p);
    assert!(!r.ops.iter().any(|o| matches!(o, Op::LocalExternal { .. } | Op::ServerExternal { .. })));
}

#[test]
fn platform_tokens_are_applied_when_building() {
    let mut p = pipeline(Some("p"), Vec::new());
    p.runs_on = Platform::Build { name: s("img-${RUN:id}"), tag: s("v1"), dockerfile: s("Dockerfile") };
    let r = root(p);
    match &r.runs_on {
        Platform::Build { name, .. } => assert_eq!(name, "img-run-1"),
        _ => unreachable!(),
    }
    assert!(matches!(&r.ops[1], Op::Log(t) if t == "Runs on: img-run-1:v1"));
}

#[test]
fn failed_state_write_ends_cleanup() {
    let mut r = root(pipeline(None, vec![step(None, &["true"])]));
    let mut seen = Vec::new();
    let mut outcome = Outcome::Succeeded;
    loop {
        let a = r.next_action(outcome);
        outcome = Outcome::Succeeded;
        match a {
            Action::SetFinished => {
                seen.push(s("set finished"));
                outcome = Outcome::Failed(s("store unavailable"));
            }
            Action::Dispose | Action::KeepAlive => seen.push(s("platform")),
            Action::Done { success } => {
                assert!(!success);
                break;
            }
            _ => {}
        }
    }
    assert_eq!(seen, vec![s("set finished")]);
}

#[test]
fn failed_platform_release_sends_no_completion() {
    let p = pipeline(None, vec![step(None, &["true"])]);
    let mut r = Runner::new(s("id"), s("t"), p, VarMap::new(), VarMap::new(), false, true)
        .ok()
        .unwrap();
    let mut outcome = Outcome::Succeeded;
    loop {
        let a = r.next_action(outcome);
        outcome = Outcome::Succeeded;
        match a {
            Action::KeepAlive => outcome = Outcome::Failed(s("platform gone")),
            Action::SendCompleted => panic!("completion sent after a failed cleanup"),
            Action::Done { success } => {
                assert!(!success);
                break;
            }
            _ => {}
        }
    }
}
