use bld::commands::{
    parse_i64, AddCommand, BldCommand, InitCommand, InitKind, RunCommand, RunTarget, ServerCommand,
    WorkerCommand,
};
use bld::config::{ConfigError, RemoteServer};
use bld::queue::QueuedRun;

fn s(x: &str) -> String {
    x.to_string()
}

#[test]
fn command_ids() {
    assert_eq!(RunCommand::boxed().id(), "run");
    assert_eq!(ServerCommand::boxed().id(), "server");
}

#[test]
fn run_target_local_and_server() {
    let servers = vec![RemoteServer {
        name: s("prod"),
        host: s("h"),
        port: 1,
        node_id: None,
        tls: false,
        same_auth_as: None,
    }];
    match RunCommand::target(None, None, false, &vec![s("who=earth")], &servers) {
        Ok(RunTarget::Local { pipeline, variables }) => {
            assert_eq!(pipeline, "default");
            assert_eq!(variables.get(&s("who")), Some(s("earth")));
        }
        _ => panic!("expected a local run"),
    }
    match RunCommand::target(Some(s("p")), Some(s("prod")), true, &Vec::new(), &servers) {
        Ok(RunTarget::Server { server, auth, pipeline, detach, .. }) => {
            assert_eq!((server, auth, pipeline.as_str(), detach), (0, 0, "p", true));
        }
        _ => panic!("expected a server run"),
    }
    assert!(matches!(
        RunCommand::target(None, Some(s("nope")), false, &Vec::new(), &servers),
        Err(ConfigError::ServerNotFound)
    ));
}

#[test]
fn run_identity_is_fresh() {
    let (a, start) = RunCommand::local_identity();
    let (b, _) = RunCommand::local_identity();
    assert_eq!(a.len(), 36);
    assert_ne!(a, b);
    assert!(!start.is_empty());
}

#[test]
fn integers_parse_like_std() {
    assert_eq!(parse_i64("8080"), Some(8080));
    assert_eq!(parse_i64("+7"), Some(7));
    assert_eq!(parse_i64("-1"), Some(-1));
    assert_eq!(parse_i64("9223372036854775807"), Some(i64::MAX));
    assert_eq!(parse_i64("-9223372036854775808"), Some(i64::MIN));
    assert_eq!(parse_i64("9223372036854775808"), None);
    assert_eq!(parse_i64("99999999999999999999999"), None);
    assert_eq!(parse_i64(""), None);
    assert_eq!(parse_i64("-"), None);
    assert_eq!(parse_i64("12a"), None);
}

#[test]
fn server_host_and_port() {
    assert_eq!(ServerCommand::port_or_default(Some(s("9000")), 6080), 9000);
    assert_eq!(ServerCommand::port_or_default(Some(s("nine")), 6080), 6080);
    assert_eq!(ServerCommand::port_or_default(None, 6080), 6080);
    assert_eq!(ServerCommand::host_or_default(None, &s("localhost")), "localhost");
    assert_eq!(ServerCommand::host_or_default(Some(s("0.0.0.0")), &s("localhost")), "0.0.0.0");
}

#[test]
fn worker_command_line_and_inputs() {
    let run = QueuedRun {
        run_id: s("r1"),
        pipeline: s("p.yaml"),
        variables: vec![s("a=1")],
        environment: vec![s("E=x"), s("F=y")],
    };
    assert_eq!(
        WorkerCommand::command_line(&run),
        vec![
            "worker", "--pipeline", "p.yaml", "--run-id", "r1", "--variable", "a=1",
            "--environment", "E=x", "--environment", "F=y"
        ]
    );
    let w = WorkerCommand {
        verbose: false,
        pipeline: s("p.yaml"),
        run_id: s("r1"),
        variables: run.variables.clone(),
        environment: run.environment.clone(),
    };
    let (v, e) = w.inputs();
    assert_eq!(v.get(&s("a")), Some(s("1")));
    assert_eq!(e.get(&s("F")), Some(s("y")));
}

#[test]
fn temporary_pipeline_names() {
    assert_eq!(AddCommand::tmp_name("abc"), "abc.yaml");
    let n = AddCommand::new_tmp_name();
    assert_eq!(n.len(), 41);
    assert!(n.ends_with(".yaml"));
    assert_ne!(n, AddCommand::new_tmp_name());
}

#[test]
fn init_layout_for_client_and_server() {
    let client = InitCommand { verbose: false, is_server: false }.layout();
    let paths: Vec<String> = client.iter().map(|e| e.path.join("/")).collect();
    assert_eq!(paths, vec![".bld", ".bld/default.yaml", ".bld/config.yaml"]);
    let server = InitCommand { verbose: false, is_server: true }.layout();
    let paths: Vec<String> = server.iter().map(|e| e.path.join("/")).collect();
    assert_eq!(
        paths,
        vec![
            ".bld",
            ".bld/logs",
            ".bld/db",
            ".bld/db/bld-server.db",
            ".bld/server_pipelines",
            ".bld/default.yaml",
            ".bld/config.yaml"
        ]
    );
    assert_eq!(server[3].kind, InitKind::EmptyFile);
    assert!(InitCommand::build_dir_exists(&vec![(s("src"), true), (s(".bld"), true)]));
    assert!(!InitCommand::build_dir_exists(&vec![(s(".bld"), false)]));
}
