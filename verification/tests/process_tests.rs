use xc_supervisor::process::{
    search_path, spawn_paths, spawn_precheck, ExecError, ExecSpec, ProcessId, ProcessStat,
    SpawnInfo, StdioMode,
};

fn spec_with_env(envs: Vec<(String, String)>) -> ExecSpec {
    ExecSpec {
        arg0: "true".to_string(),
        args: Vec::new(),
        envs,
        work_dir: None,
        output_mode: StdioMode::Inherit,
        notify: None,
    }
}

#[test]
fn process_id_text() {
    assert_eq!(ProcessId::Main.text(), "main");
    assert_eq!(ProcessId::Init(0).text(), "init.0");
    assert_eq!(ProcessId::Deinit(12).text(), "deinit.12");
    assert_eq!(ProcessId::Adhoc(3).text(), "exec.3");
}

#[test]
fn env_value_takes_the_first_binding() {
    let spec = spec_with_env(vec![
        ("PATH".to_string(), "/bin".to_string()),
        ("PATH".to_string(), "/sbin".to_string()),
        ("HOME".to_string(), "/root".to_string()),
    ]);
    assert_eq!(spec.env_value(&"PATH".to_string()), Some("/bin".to_string()));
    assert_eq!(spec.env_value(&"HOME".to_string()), Some("/root".to_string()));
    assert_eq!(spec.env_value(&"TERM".to_string()), None);
}

#[test]
fn search_path_falls_back_to_the_default_list() {
    let with = spec_with_env(vec![("PATH".to_string(), "/opt/bin".to_string())]);
    assert_eq!(search_path(&with), "/opt/bin");
    let without = spec_with_env(vec![]);
    assert_eq!(search_path(&without), "/bin:/usr/bin:/sbin:/usr/sbin");
}

#[test]
fn spawn_paths_terminal_mode() {
    let p = spawn_paths("box0", ProcessId::Main, &StdioMode::Terminal);
    assert_eq!(p.terminal_socket.unwrap(), "/var/run/xc.box0.main");
    assert_eq!(p.terminal_log.unwrap(), "/var/log/xc.box0.main.log");
    assert!(p.stdout_log.is_none() && p.stderr_log.is_none());
}

#[test]
fn spawn_paths_inherit_mode() {
    let p = spawn_paths("box0", ProcessId::Init(1), &StdioMode::Inherit);
    assert!(p.terminal_socket.is_none() && p.terminal_log.is_none());
    assert_eq!(p.stdout_log.unwrap(), "/var/log/xc.box0.init.1.out.log");
    assert_eq!(p.stderr_log.unwrap(), "/var/log/xc.box0.init.1.err.log");
}

#[test]
fn spawn_paths_files_and_forward_modes() {
    let p = spawn_paths(
        "box0",
        ProcessId::Main,
        &StdioMode::Files { stdout: Some("/tmp/o".to_string()), stderr: None },
    );
    assert_eq!(p.stdout_log.unwrap(), "/tmp/o");
    assert!(p.stderr_log.is_none());
    let f = spawn_paths(
        "box0",
        ProcessId::Main,
        &StdioMode::Forward { stdin: 0, stdout: 1, stderr: 2 },
    );
    assert!(f.terminal_socket.is_none() && f.stdout_log.is_none() && f.stderr_log.is_none());
}

#[test]
fn spawn_precheck_error_cases() {
    assert_eq!(spawn_precheck(None, false, false), Err(ExecError::ExecutableNotFound));
    assert_eq!(
        spawn_precheck(Some("/r/bin/true".to_string()), true, false),
        Err(ExecError::MissingLinuxKmod)
    );
    assert_eq!(
        spawn_precheck(Some("/r/bin/true".to_string()), true, true),
        Ok("/r/bin/true".to_string())
    );
    assert_eq!(
        spawn_precheck(Some("/r/bin/true".to_string()), false, false),
        Ok("/r/bin/true".to_string())
    );
}

#[test]
fn process_stat_flags_are_monotonic() {
    let mut stat = ProcessStat::new(spec_with_env(vec![]));
    assert!(stat.spawn_info.is_none() && stat.exited.is_none() && !stat.tree_exited);
    stat.set_started(SpawnInfo {
        pid: 5,
        terminal_socket: None,
        stdout_log: None,
        stderr_log: None,
    });
    assert_eq!(stat.spawn_info.as_ref().unwrap().pid, 5);
    stat.set_started(SpawnInfo {
        pid: 6,
        terminal_socket: None,
        stdout_log: None,
        stderr_log: None,
    });
    assert_eq!(stat.spawn_info.as_ref().unwrap().pid, 5, "the first spawn record is kept");
    stat.set_exited(3);
    stat.set_exited(4);
    assert_eq!(stat.exited, Some(3), "the first exit code is kept");
    stat.set_tree_exited();
    assert!(stat.tree_exited);
}
