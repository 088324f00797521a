use bld::pipeline::{Platform, SshConfig, SshUserAuth};
use bld::tokens::{TokenContext, TokenError, TokenKind};
use bld::vars::{parse_variable, parse_variables, VarMap, Variable};

fn s(x: &str) -> String {
    x.to_string()
}

fn ctx() -> TokenContext {
    let mut variables = VarMap::new();
    variables.insert(s("who"), s("earth"));
    variables.insert(s("loop"), s("${VAR:loop}"));
    let mut environment = VarMap::new();
    environment.insert(s("HOME"), s("/home/bld"));
    TokenContext {
        run_id: s("abc-123"),
        run_start_time: s("2024-05-01 12:00:00"),
        variables,
        environment,
        pipeline_variables: vec![Variable::new(s("who"), s("world")), Variable::new(s("tag"), s("latest"))],
        pipeline_environment: vec![Variable::new(s("MODE"), s("debug"))],
    }
}

#[test]
fn expands_each_family() {
    let c = ctx();
    let out = c
        .apply_context("${VAR:who} ${VAR:tag} ${ENV:HOME} ${ENV:MODE} ${RUN:id} ${RUN:start_time}")
        .ok()
        .unwrap();
    assert_eq!(out, "earth latest /home/bld debug abc-123 2024-05-01 12:00:00");
}

#[test]
fn text_without_tokens_is_unchanged() {
    let c = ctx();
    assert_eq!(c.apply_context("echo ${HOME} $VAR: {x}").ok().unwrap(), "echo ${HOME} $VAR: {x}");
    assert_eq!(c.apply_context("").ok().unwrap(), "");
}

#[test]
fn substitution_is_single_pass() {
    let c = ctx();
    assert_eq!(c.apply_context("${VAR:loop}").ok().unwrap(), "${VAR:loop}");
}

#[test]
fn substitution_is_idempotent() {
    let c = ctx();
    let once = c.apply_context("cd ${ENV:HOME} && echo ${VAR:who}-${RUN:id}").ok().unwrap();
    let twice = c.apply_context(&once).ok().unwrap();
    assert_eq!(once, "cd /home/bld && echo earth-abc-123");
    assert_eq!(twice, once);
}

#[test]
fn token_errors() {
    let c = ctx();
    assert!(matches!(c.apply_context("x ${VAR:who"), Err(TokenError::Unterminated)));
    assert!(matches!(c.apply_context("${ENV:}"), Err(TokenError::EmptyKey)));
    assert!(matches!(c.apply_context("${RUN:name}"), Err(TokenError::UnknownRunProperty)));
}

#[test]
fn resolve_by_kind() {
    let c = ctx();
    assert_eq!(c.resolve(TokenKind::Variable, &s("nobody")).ok().unwrap(), "");
    assert_eq!(c.resolve(TokenKind::RunProperty, &s("id")).ok().unwrap(), "abc-123");
}

#[test]
fn assignment_splits_at_first_equals() {
    let (k, v) = parse_variable("a=b=c");
    assert_eq!((k.as_str(), v.as_str()), ("a", "b=c"));
    let (k, v) = parse_variable("flag");
    assert_eq!((k.as_str(), v.as_str()), ("flag", ""));
    let (k, v) = parse_variable("=x");
    assert_eq!((k.as_str(), v.as_str()), ("", "x"));
}

#[test]
fn later_assignment_wins() {
    let m = parse_variables(&vec![s("a=1"), s("b=2"), s("a=3")]);
    assert_eq!(m.len(), 2);
    assert_eq!(m.get(&s("a")), Some(s("3")));
    assert_eq!(m.get(&s("b")), Some(s("2")));
    assert_eq!(m.get(&s("c")), None);
}

#[test]
fn platform_label_and_tokens() {
    let c = ctx();
    let mut p = Platform::Pull { image: s("repo/${VAR:tag}"), pull: true };
    assert!(p.apply_tokens(&c).is_ok());
    assert_eq!(p.label(), "repo/latest");
    let mut m = Platform::ContainerOrMachine(s("machine"));
    assert!(m.apply_tokens(&c).is_ok());
    assert_eq!(m.label(), "machine");
    let mut ssh = Platform::Ssh(SshConfig {
        host: s("${ENV:MODE}.example"),
        port: Platform::default_ssh_port(),
        user: s("${VAR:who}"),
        userauth: SshUserAuth::Keys { public_key: None, private_key: s("${ENV:HOME}/.ssh/id") },
    });
    assert!(ssh.apply_tokens(&c).is_ok());
    assert_eq!(ssh.label(), "debug.example:22");
    match ssh {
        Platform::Ssh(cfg) => {
            assert_eq!(cfg.user, "earth");
            assert!(matches!(cfg.userauth, SshUserAuth::Keys { private_key, .. } if private_key == "/home/bld/.ssh/id"));
        }
        _ => unreachable!(),
    }
}

#[test]
fn platform_error_leaves_it_unchanged() {
    let c = ctx();
    let mut p = Platform::Build { name: s("${VAR:who}"), tag: s("${RUN:x}"), dockerfile: s("D") };
    assert!(matches!(p.apply_tokens(&c), Err(TokenError::UnknownRunProperty)));
    assert_eq!(p.label(), "${VAR:who}:${RUN:x}");
}
