use xc_supervisor::process::{ExecSpec, ProcessId, SpawnInfo, StdioMode};
use xc_supervisor::codec::{encode_packet, method_kind, parse_request, MethodKind};
use xc_supervisor::network::{HostEntry, IpAddress};
use xc_supervisor::runner::{
    Action, ControlRequest, PidEvent, ProcessRunner, RunningContainer, DEINIT_GRACE_SECONDS,
};

fn sleep0() -> ExecSpec {
    ExecSpec {
        arg0: "/bin/sleep".to_string(),
        args: vec!["0".to_string()],
        envs: Vec::new(),
        work_dir: None,
        output_mode: StdioMode::Inherit,
        notify: None,
    }
}

fn container(
    init: Vec<ExecSpec>,
    main: Option<ExecSpec>,
    deinit: Vec<ExecSpec>,
    persist: bool,
) -> RunningContainer {
    RunningContainer {
        name: "box0".to_string(),
        root: "/var/run/xc/box0".to_string(),
        jid: 7,
        linux: false,
        init_norun: false,
        main_norun: false,
        deinit_norun: false,
        persist,
        init_proto: init,
        main_proto: main,
        deinit_proto: deinit,
        main_started_notify: None,
        destroyed_notify: Some(90),
        destroyed: None,
    }
}

fn info(pid: u32) -> SpawnInfo {
    SpawnInfo { pid, terminal_socket: None, stdout_log: None, stderr_log: None }
}

fn spawn_and_record(r: &mut ProcessRunner, pid: u32) -> ProcessId {
    let mut acts = Vec::new();
    let (id, spec) = r.next_spawn().expect("a spawn should be pending");
    r.record_spawn_success(id, spec, info(pid), None, &mut acts);
    assert!(matches!(acts.last(), Some(Action::WatchPid(p)) if *p == pid));
    id
}

#[test]
fn happy_path_main_only_terminates_and_destroys() {
    // container with no init and no deinit: main runs, exits, and the
    // supervisor terminates and stamps destruction
    let mut r = ProcessRunner::new(3, container(vec![], Some(sleep0()), vec![], false), true);
    r.start(1000);
    assert_eq!(r.started, Some(1000));
    let id = spawn_and_record(&mut r, 42);
    assert_eq!(id, ProcessId::Main);
    let mut acts = Vec::new();
    r.mark_main_started(&mut acts);
    assert!(r.main_started);

    let brk = r.handle_pid_event(PidEvent::Exited { pid: 42, exit_code: 0 }, &mut acts);
    assert!(brk, "main tree exit with no deinit work ends the loop");
    assert!(r.main_exited);

    let mut acts = Vec::new();
    r.cleanup(2000, &mut acts);
    let m = r.manifest();
    assert_eq!(m.destroyed, Some(2000));
    assert_eq!(m.processes.len(), 1);
    assert_eq!(m.processes[0].0, ProcessId::Main);
    assert_eq!(m.processes[0].1.exited, Some(0));
    assert!(m.processes[0].1.tree_exited);
    assert!(matches!(acts[0], Action::KillJail(7)));
    assert!(matches!(acts[1], Action::Notify(90)));
}

#[test]
fn second_start_is_ignored() {
    let mut r = ProcessRunner::new(3, container(vec![], Some(sleep0()), vec![], false), true);
    r.start(1000);
    r.start(2000);
    assert_eq!(r.started, Some(1000), "the start timestamp is assigned once");
}

#[test]
fn init_gating_runs_inits_one_at_a_time_then_main() {
    let mut r = ProcessRunner::new(
        3,
        container(vec![sleep0(), sleep0()], Some(sleep0()), vec![], false),
        true,
    );
    r.start(10);
    // only init.0 is dispatched
    let id0 = spawn_and_record(&mut r, 100);
    assert_eq!(id0, ProcessId::Init(0));
    assert!(r.next_spawn().is_none(), "nothing else may run while init.0 lives");

    let mut acts = Vec::new();
    let brk = r.handle_pid_event(PidEvent::Exited { pid: 100, exit_code: 0 }, &mut acts);
    assert!(!brk);
    let id1 = spawn_and_record(&mut r, 101);
    assert_eq!(id1, ProcessId::Init(1));
    assert!(r.next_spawn().is_none());

    let mut acts = Vec::new();
    let brk = r.handle_pid_event(PidEvent::Exited { pid: 101, exit_code: 0 }, &mut acts);
    assert!(!brk);
    let idm = spawn_and_record(&mut r, 102);
    assert_eq!(idm, ProcessId::Main, "main starts only after the init queue drained");
}

#[test]
fn deinit_grace_timer_arms_and_timer_breaks() {
    // main exits while a deinit is configured; the deinit's direct child
    // exits but a grandchild lingers, so only the grace timer ends the loop
    let mut r = ProcessRunner::new(
        3,
        container(vec![], Some(sleep0()), vec![sleep0()], false),
        true,
    );
    r.start(10);
    spawn_and_record(&mut r, 42);
    let mut acts = Vec::new();
    let brk = r.handle_pid_event(PidEvent::Exited { pid: 42, exit_code: 0 }, &mut acts);
    assert!(!brk, "deinit work is pending, the loop continues");

    let idd = spawn_and_record(&mut r, 50);
    assert_eq!(idd, ProcessId::Deinit(0));
    // the deinit forks a grandchild before its direct child exits
    let mut acts = Vec::new();
    r.handle_pid_event(PidEvent::ChildForked { pid: 51, parent: 50 }, &mut acts);
    let brk = r.handle_pid_event(PidEvent::Exited { pid: 50, exit_code: 0 }, &mut acts);
    assert!(!brk, "the grandchild still lives");
    assert!(
        acts.iter().any(|a| matches!(a, Action::ArmDeinitTimer(s) if *s == DEINIT_GRACE_SECONDS)),
        "the grace timer is armed when the deinit queue drains"
    );
    // the grace timer fires before the grandchild exits
    assert!(r.handle_timer());
}

#[test]
fn deinit_tree_exit_breaks_without_timer() {
    let mut r = ProcessRunner::new(
        3,
        container(vec![], Some(sleep0()), vec![sleep0()], false),
        true,
    );
    r.start(10);
    spawn_and_record(&mut r, 42);
    let mut acts = Vec::new();
    r.handle_pid_event(PidEvent::Exited { pid: 42, exit_code: 0 }, &mut acts);
    spawn_and_record(&mut r, 50);
    let mut acts = Vec::new();
    let brk = r.handle_pid_event(PidEvent::Exited { pid: 50, exit_code: 0 }, &mut acts);
    assert!(brk, "the final deinit's tree is gone, the loop ends");
}

#[test]
fn persist_keeps_the_loop_after_main_exits() {
    let mut r = ProcessRunner::new(3, container(vec![], Some(sleep0()), vec![], true), true);
    r.start(10);
    spawn_and_record(&mut r, 42);
    let mut acts = Vec::new();
    let brk = r.handle_pid_event(PidEvent::Exited { pid: 42, exit_code: 0 }, &mut acts);
    assert!(!brk, "a persistent container outlives its main process");
    // the external kill event ends it (no deinit work exists)
    assert!(r.handle_user_kill());
}

#[test]
fn kill_with_deinit_work_runs_deinit_first() {
    let mut r = ProcessRunner::new(
        3,
        container(vec![], Some(sleep0()), vec![sleep0()], true),
        true,
    );
    r.start(10);
    spawn_and_record(&mut r, 42);
    let brk = r.handle_user_kill();
    assert!(!brk);
    let idd = spawn_and_record(&mut r, 60);
    assert_eq!(idd, ProcessId::Deinit(0));
    let mut acts = Vec::new();
    let brk = r.handle_pid_event(PidEvent::Exited { pid: 60, exit_code: 0 }, &mut acts);
    assert!(brk, "the deinit tree is gone after a kill");
}

#[test]
fn descendants_are_attributed_to_their_named_ancestor() {
    let mut r = ProcessRunner::new(3, container(vec![], Some(sleep0()), vec![], false), true);
    r.start(10);
    spawn_and_record(&mut r, 42);
    let mut acts = Vec::new();
    // main forks 43, and 43 forks 44: both map straight to 42
    r.handle_pid_event(PidEvent::ChildForked { pid: 43, parent: 42 }, &mut acts);
    r.handle_pid_event(PidEvent::ChildForked { pid: 44, parent: 43 }, &mut acts);
    assert_eq!(r.pid_ancestor(43), 42);
    assert_eq!(r.pid_ancestor(44), 42);

    // main's direct child exits; descendants keep the tree alive
    let brk = r.handle_pid_event(PidEvent::Exited { pid: 42, exit_code: 0 }, &mut acts);
    assert!(!brk);
    let m = r.manifest();
    assert_eq!(m.processes[0].1.exited, Some(0));
    assert!(!m.processes[0].1.tree_exited);

    let brk = r.handle_pid_event(PidEvent::Exited { pid: 43, exit_code: 0 }, &mut acts);
    assert!(!brk);
    let brk = r.handle_pid_event(PidEvent::Exited { pid: 44, exit_code: 0 }, &mut acts);
    assert!(brk, "the last descendant's exit completes the tree");
    assert!(r.manifest().processes[0].1.tree_exited);
}

#[test]
fn spawn_failure_fires_notify_and_records_nothing() {
    let mut r = ProcessRunner::new(
        3,
        container(
            vec![],
            Some(ExecSpec { notify: Some(33), ..sleep0() }),
            vec![],
            false,
        ),
        true,
    );
    r.start(10);
    let (id, spec) = r.next_spawn().unwrap();
    let mut acts = Vec::new();
    r.record_spawn_failure(id, spec.notify, &mut acts);
    assert!(matches!(acts[0], Action::Notify(33)), "waiters unblock when the spawn fails");
    assert_eq!(r.manifest().processes.len(), 0, "a failed spawn is never tracked");
}

#[test]
fn exec_request_spawns_adhoc_process() {
    let mut r = ProcessRunner::new(3, container(vec![], None, vec![], false), false);
    let mut acts = Vec::new();
    let spec = ExecSpec { notify: Some(21), ..sleep0() };
    r.handle_request(9, ControlRequest::Exec(spec), 500, &mut acts);
    let (fd, id, exec_spec, notify) = match acts.remove(0) {
        Action::SpawnAdhoc { fd, id, exec_spec, notify } => (fd, id, exec_spec, notify),
        _ => panic!("an exec request asks the driver to spawn"),
    };
    assert_eq!(fd, 9);
    assert_eq!(id, ProcessId::Adhoc(0));
    assert_eq!(notify, Some(21));
    let mut acts = Vec::new();
    r.record_spawn_success(id, exec_spec, info(77), notify, &mut acts);
    let m = r.manifest();
    assert_eq!(m.processes.len(), 1);
    assert_eq!(m.processes[0].0, ProcessId::Adhoc(0));
    assert_eq!(m.processes[0].1.spawn_info.as_ref().unwrap().pid, 77);
}

#[test]
fn start_request_responds_ok() {
    let mut r = ProcessRunner::new(3, container(vec![], Some(sleep0()), vec![], false), false);
    let mut acts = Vec::new();
    r.handle_request(9, ControlRequest::Start, 777, &mut acts);
    assert_eq!(r.started, Some(777));
    assert!(matches!(&acts[0], Action::Respond { fd: 9, status: 0, body } if body.as_str() == "null"));
}

#[test]
fn write_hosts_request_builds_content_and_responds() {
    let mut r = ProcessRunner::new(3, container(vec![], None, vec![], false), false);
    let mut acts = Vec::new();
    let entries = vec![HostEntry {
        ip_addr: IpAddress::V4(10, 0, 0, 5),
        hostname: "db".to_string(),
    }];
    r.handle_request(4, ControlRequest::WriteHosts(entries), 0, &mut acts);
    match &acts[0] {
        Action::WriteHostsFile { content, reply_fd } => {
            assert_eq!(*reply_fd, 4);
            assert_eq!(content, "::1 localhost\n127.0.0.1 localhost\n10.0.0.5 db\n");
        },
        _ => panic!("a hosts write is delegated to the driver"),
    }
    assert!(matches!(&acts[1], Action::Respond { fd: 4, status: 0, body } if body.as_str() == "null"));
}

#[test]
fn unknown_request_is_ignored() {
    let mut r = ProcessRunner::new(3, container(vec![], None, vec![], false), false);
    let mut acts = Vec::new();
    r.handle_request(4, ControlRequest::Unknown, 0, &mut acts);
    assert!(acts.is_empty());
}

#[test]
fn exited_flag_is_monotonic_across_events() {
    let mut r = ProcessRunner::new(3, container(vec![], Some(sleep0()), vec![], true), true);
    r.start(10);
    spawn_and_record(&mut r, 42);
    let mut acts = Vec::new();
    r.handle_pid_event(PidEvent::Exited { pid: 42, exit_code: 7 }, &mut acts);
    assert_eq!(r.manifest().processes[0].1.exited, Some(7));
    // a stray duplicate exit keeps the first exit code
    r.handle_pid_event(PidEvent::Exited { pid: 42, exit_code: 9 }, &mut acts);
    assert_eq!(r.manifest().processes[0].1.exited, Some(7));
    assert!(r.manifest().processes[0].1.tree_exited);
}

#[test]
fn control_stream_roundtrip_dispatches_a_request() {
    let mut r = ProcessRunner::new(3, container(vec![], Some(sleep0()), vec![], false), false);
    let mut acts = Vec::new();
    r.add_control_stream(8, &mut acts);
    assert!(matches!(acts[0], Action::WatchFd(8)));
    let payload = b"{\"method\":\"start\",\"data\":null}".to_vec();
    let packet = encode_packet(&payload);
    let got = r.stream_data(8, &packet).unwrap().unwrap();
    assert_eq!(got, payload);
    let (method, _data) = parse_request(&got).unwrap();
    assert_eq!(method_kind(&method), MethodKind::Start);
    let mut acts = Vec::new();
    r.handle_request(8, ControlRequest::Start, 123, &mut acts);
    assert_eq!(r.started, Some(123));
    // end of file drops the stream; later reads find no stream
    r.stream_closed(8);
    assert!(r.stream_data(8, &packet).unwrap().is_none());
}

#[test]
fn run_main_request_always_responds() {
    // with a main proto: main is enqueued and a success response is sent
    let mut r = ProcessRunner::new(3, container(vec![], Some(sleep0()), vec![], false), false);
    let mut acts = Vec::new();
    r.handle_request(9, ControlRequest::RunMain, 0, &mut acts);
    assert!(
        matches!(&acts[0], Action::Respond { fd: 9, status: 0, body } if body.as_str() == "null")
    );
    let (id, _spec) = r.next_spawn().unwrap();
    assert_eq!(id, ProcessId::Main);

    // without a main proto: nothing to enqueue, still a success response
    let mut r2 = ProcessRunner::new(3, container(vec![], None, vec![], false), false);
    let mut acts = Vec::new();
    r2.handle_request(9, ControlRequest::RunMain, 0, &mut acts);
    assert!(
        matches!(&acts[0], Action::Respond { fd: 9, status: 0, body } if body.as_str() == "null")
    );
    assert!(r2.next_spawn().is_none());
}
