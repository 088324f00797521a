use bld::config::{exec_url_of, find_auth_server, int_to_text, worker_url_of, ConfigError, LocalServer, RemoteServer};
use bld::execution::{EmptyExec, ExecError, ExecutionState, NullExec, RunState};
use bld::high_avail::{agent_info, HighAvail, HighAvailError};
use bld::logs::{FileScanner, LogStream};
use bld::messages::{on_server_message, on_worker_message, ServerMessages, SupervisorAction, WorkerMessages};
use bld::monitor::{HeartbeatAction, MonitInfo, MonitorError, MonitorSession, RecordAction, RunQuery};
use bld::queue::{Admission, QueuedRun, WorkerQueue};
use bld::runs::{RunIndex, RunIndexError, RunRecord};
use bld::store::{pipeline_file_name, PipelineStore};

fn s(x: &str) -> String {
    x.to_string()
}

#[test]
fn run_states_only_move_forward() {
    let mut e = ExecutionState::new();
    assert_eq!(e.state, RunState::Queued);
    assert!(e.set_as_running().is_ok());
    assert!(e.set_as_finished().is_ok());
    assert_eq!(
        e.set_as_running(),
        Err(ExecError::InvalidTransition { from: RunState::Finished, to: RunState::Running })
    );
    assert!(e.set_as_faulted().is_err());
    assert_eq!(e.state, RunState::Finished);
    assert_eq!(e.state.as_str(), "finished");
}

#[test]
fn stop_flag_is_sticky() {
    let mut e = ExecutionState::new();
    assert!(e.check_stop().is_ok());
    e.request_stop();
    assert_eq!(e.check_stop(), Err(ExecError::Cancelled));
    assert!(e.set_as_running().is_ok());
    assert!(e.stop_requested);
    assert!(e.set_as_faulted().is_ok());
    assert_eq!(e.state.as_str(), "faulted");
}

#[test]
fn empty_executions_lock() {
    let a = EmptyExec::atom();
    assert!(a.lock().is_ok());
    let b = NullExec::atom();
    assert!(b.lock().is_ok());
}

fn run(id: &str) -> QueuedRun {
    QueuedRun { run_id: s(id), pipeline: s("p.yaml"), variables: Vec::new(), environment: Vec::new() }
}

#[test]
fn supervisor_capacity_and_fifo() {
    let mut q = WorkerQueue::new(2);
    let mut started = Vec::new();
    for (i, id) in ["r1", "r2", "r3", "r4", "r5"].iter().enumerate() {
        match q.enqueue(run(id), 0) {
            Admission::Start(r) => started.push(r.run_id),
            Admission::Queued(pos) => assert_eq!(pos, i - 2),
        }
        assert!(q.active_len() <= 2);
    }
    assert_eq!(started, vec![s("r1"), s("r2")]);
    assert_eq!(q.pending_len(), 3);
    assert!(q.spawned(&s("r1"), 100));
    assert!(q.who_am_i(100, 7));
    assert!(!q.who_am_i(999, 8));
    assert_eq!(q.connection_of(&s("r1")), Some(7));
    let next = q.completed(7, 10).unwrap();
    assert_eq!(next.run_id, "r3");
    assert_eq!(q.active_len(), 2);
    assert!(q.completed(7, 11).is_none());
    // r2 never said who it is: after the grace period its slot goes to r4.
    let (expired, next) = q.expire_one(30_000, 30_000).unwrap();
    assert_eq!(expired, "r2");
    assert_eq!(next.unwrap().run_id, "r4");
    assert_eq!(q.active_len(), 2);
    assert_eq!(q.pending_len(), 1);
    assert!(q.expire_one(30_001, 30_000).is_none());
    assert_eq!(q.connections(), Vec::<u64>::new());
}

#[test]
fn readers_see_the_same_order() {
    let mut log = LogStream::new();
    log.write_line(s("a"));
    log.write_line(s("b"));
    let mut reader_a = FileScanner::new();
    let mut reader_b = FileScanner::new();
    let snapshot = log.lines_from(0);
    assert_eq!(reader_a.fetch(&snapshot), vec![s("a"), s("b")]);
    log.write_line(s("c"));
    let snapshot = log.lines_from(0);
    assert_eq!(reader_b.fetch(&snapshot), vec![s("a"), s("b"), s("c")]);
    assert_eq!(reader_a.fetch(&snapshot), vec![s("c")]);
    assert_eq!(reader_a.fetch(&snapshot), Vec::<String>::new());
    assert_eq!(log.lines_from(1), vec![s("b"), s("c")]);
}

#[test]
fn push_then_pull_round_trip() {
    let mut store = PipelineStore::new();
    let content = s("name: hello\nruns_on: machine\nsteps:\n- exec:\n  - echo ünïcode\n");
    store.push_file(s("hello.yaml"), content.clone());
    assert_eq!(store.pull(&s("hello.yaml")), Some(content));
    let id = store.id_of(&s("hello.yaml")).unwrap();
    assert_eq!(id.len(), 36);
    store.push_file(s("hello.yaml"), s("v2"));
    assert_eq!(store.pull(&s("hello.yaml")), Some(s("v2")));
    assert_eq!(store.id_of(&s("hello.yaml")), Some(id));
    store.push(s("notes.txt"), s("x"), s("id-2"));
    store.push(s("b.yml"), s("y"), s("id-3"));
    assert_eq!(store.list(), "hello.yaml\nb.yml\n");
    assert!(store.remove(&s("hello.yaml")));
    assert!(!store.remove(&s("hello.yaml")));
    assert_eq!(store.pull(&s("hello.yaml")), None);
}

fn server(name: &str, node: Option<u64>, same: Option<&str>) -> RemoteServer {
    RemoteServer {
        name: s(name),
        host: format!("{name}.local"),
        port: 6080,
        node_id: node,
        tls: false,
        same_auth_as: same.map(s),
    }
}

#[test]
fn urls_and_numbers() {
    assert_eq!(int_to_text(0), "0");
    assert_eq!(int_to_text(-42), "-42");
    assert_eq!(int_to_text(i64::MIN), "-9223372036854775808");
    let mut srv = server("prod", None, None);
    assert_eq!(exec_url_of(&srv), "ws://prod.local:6080/ws-exec/");
    srv.tls = true;
    assert_eq!(exec_url_of(&srv), "wss://prod.local:6080/ws-exec/");
    assert_eq!(worker_url_of(false, "localhost", 7000), "ws://localhost:7000/ws-worker/");
}

#[test]
fn auth_server_resolution() {
    let servers = vec![server("a", None, None), server("b", None, Some("a")), server("c", None, Some("zz"))];
    assert_eq!(find_auth_server(&servers, &s("a")), Ok(0));
    assert_eq!(find_auth_server(&servers, &s("b")), Ok(0));
    assert_eq!(find_auth_server(&servers, &s("c")), Err(ConfigError::AuthServerNotFound));
    assert_eq!(find_auth_server(&servers, &s("d")), Err(ConfigError::ServerNotFound));
}

#[test]
fn high_availability_members() {
    let local = LocalServer { host: s("me"), port: 6080, node_id: Some(1), tls: false, ha_mode: true };
    let servers = vec![server("a", Some(2), None), server("b", Some(3), None)];
    let (me, all) = agent_info(&local, &servers).ok().unwrap();
    assert_eq!(me.id, 1);
    assert_eq!(me.protocol, "http");
    let mut ids: Vec<u64> = all.iter().map(|a| a.id).collect();
    ids.sort();
    assert_eq!(ids, vec![1, 2, 3]);
    let no_local = LocalServer { node_id: None, ..local };
    assert!(matches!(agent_info(&no_local, &servers), Err(HighAvailError::LocalNodeIdMissing)));
    let local = LocalServer { host: s("me"), port: 6080, node_id: Some(1), tls: false, ha_mode: true };
    let bad = vec![server("a", Some(2), None), server("b", None, None)];
    assert!(matches!(agent_info(&local, &bad), Err(HighAvailError::ServerNodeIdMissing(n)) if n == "b"));
}

#[test]
fn monitor_query_precedence() {
    let q = MonitInfo { last: true, id: Some(s("x")), name: Some(s("n")) }.query();
    assert!(matches!(q, Ok(RunQuery::Last)));
    let q = MonitInfo { last: false, id: Some(s("x")), name: Some(s("n")) }.query();
    assert!(matches!(q, Ok(RunQuery::ById(i)) if i == "x"));
    let q = MonitInfo { last: false, id: None, name: Some(s("n")) }.query();
    assert!(matches!(q, Ok(RunQuery::ByName(n)) if n == "n"));
    let q = MonitInfo { last: false, id: None, name: None }.query();
    assert!(matches!(q, Err(MonitorError::PipelineNotFound)));
}

#[test]
fn monitor_heartbeat_and_record() {
    let mut m = MonitorSession::new(1_000);
    assert_eq!(m.heartbeat(11_000), HeartbeatAction::PingAndFlush);
    assert_eq!(m.heartbeat(11_001), HeartbeatAction::Disconnect);
    m.heard(11_001);
    assert_eq!(m.heartbeat(12_000), HeartbeatAction::PingAndFlush);
    m.follow(s("run-9"));
    assert_eq!(m.run_id, Some(s("run-9")));
    assert_eq!(m.on_record(Some(RunState::Running)), RecordAction::Continue);
    assert_eq!(m.on_record(Some(RunState::Finished)), RecordAction::DrainAndClose);
    assert_eq!(m.on_record(None), RecordAction::ErrorAndClose);
}

#[test]
fn run_index_selects_newest() {
    let mut idx = RunIndex::new();
    let rec = |id: &str, name: &str| RunRecord { id: s(id), name: s(name), start_time: s("t") };
    assert!(idx.select(&RunQuery::Last).is_none());
    assert_eq!(idx.record(rec("1", "build")), Ok(()));
    assert_eq!(idx.record(rec("2", "deploy")), Ok(()));
    assert_eq!(idx.record(rec("3", "build")), Ok(()));
    assert_eq!(idx.record(rec("2", "other")), Err(RunIndexError::DuplicateId));
    assert_eq!(idx.len(), 3);
    assert_eq!(idx.select(&RunQuery::Last), Some(2));
    assert_eq!(idx.select(&RunQuery::ById(s("2"))), Some(1));
    assert_eq!(idx.select(&RunQuery::ByName(s("build"))), Some(2));
    assert_eq!(idx.select(&RunQuery::ByName(s("none"))), None);
    assert_eq!(idx.get(1).name, "deploy");
}

#[test]
fn pipeline_file_names() {
    assert_eq!(pipeline_file_name("hello"), "hello.yaml");
    assert_eq!(pipeline_file_name("hello.yaml"), "hello.yaml");
    assert_eq!(pipeline_file_name("ci.yml"), "ci.yml");
    assert_eq!(pipeline_file_name("notes.txt"), "notes.txt.yaml");
}

#[test]
fn high_availability_mode_switch() {
    let servers = vec![server("a", Some(2), None)];
    let off = LocalServer { host: s("me"), port: 1, node_id: None, tls: false, ha_mode: false };
    assert!(matches!(HighAvail::new(&off, &servers), Ok(HighAvail::Disabled)));
    let on = LocalServer { host: s("me"), port: 1, node_id: Some(1), tls: true, ha_mode: true };
    match HighAvail::new(&on, &servers) {
        Ok(HighAvail::Enabled { me, members }) => {
            assert_eq!(me.protocol, "https");
            assert_eq!(members.len(), 2);
        }
        _ => panic!("expected an enabled group"),
    }
    let on_without_id = LocalServer { host: s("me"), port: 1, node_id: None, tls: false, ha_mode: true };
    assert!(matches!(HighAvail::new(&on_without_id, &servers), Err(HighAvailError::LocalNodeIdMissing)));
}

#[test]
fn supervisor_messages_drive_the_queue() {
    let mut q = WorkerQueue::new(1);
    assert!(matches!(on_server_message(&mut q, ServerMessages::Enqueue(run("a")), 0), SupervisorAction::Spawn(x) if x.run_id == "a"));
    assert!(matches!(on_server_message(&mut q, ServerMessages::Enqueue(run("b")), 0), SupervisorAction::Nothing));
    assert!(matches!(on_server_message(&mut q, ServerMessages::Stop { run_id: s("a") }, 0), SupervisorAction::Nothing));
    assert!(q.spawned(&s("a"), 42));
    assert!(matches!(on_worker_message(&mut q, 5, WorkerMessages::Ack, 1), SupervisorAction::Nothing));
    assert!(matches!(on_worker_message(&mut q, 5, WorkerMessages::WhoAmI { pid: 42 }, 1), SupervisorAction::Nothing));
    assert!(matches!(on_server_message(&mut q, ServerMessages::Stop { run_id: s("a") }, 2),
        SupervisorAction::SendStop { connection: 5, run_id } if run_id == "a"));
    assert!(matches!(on_worker_message(&mut q, 5, WorkerMessages::Completed, 3), SupervisorAction::Spawn(x) if x.run_id == "b"));
    assert_eq!(q.pending_len(), 0);
    assert_eq!(q.active_len(), 1);
    assert!(matches!(on_worker_message(&mut q, 9, WorkerMessages::Completed, 4), SupervisorAction::Nothing));
    assert_eq!(q.active_len(), 1);
}

#[test]
fn removing_a_pipeline_keeps_the_others() {
    let mut store = PipelineStore::new();
    store.push(s("a.yaml"), s("A"), s("1"));
    store.push(s("b.yaml"), s("B"), s("2"));
    assert!(store.remove(&s("a.yaml")));
    assert_eq!(store.pull(&s("b.yaml")), Some(s("B")));
    assert_eq!(store.list(), "b.yaml\n");
}
