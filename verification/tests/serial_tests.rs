use xc_supervisor::process::{ExecSpec, ProcessId, StdioMode};
use xc_supervisor::serial::{QueueKind, SerialExec};

fn spec_named(name: &str) -> ExecSpec {
    ExecSpec {
        arg0: name.to_string(),
        args: Vec::new(),
        envs: Vec::new(),
        work_dir: None,
        output_mode: StdioMode::Inherit,
        notify: None,
    }
}

#[test]
fn serial_new_starts_dormant_with_all_elements() {
    let q = SerialExec::new(QueueKind::Init, vec![spec_named("a"), spec_named("b")], false);
    assert_eq!(q.idx, 0);
    assert!(q.last_spawn.is_none());
    assert!(!q.activated);
    assert_eq!(q.execs.len(), 2);
    assert!(!q.is_empty());
}

#[test]
fn serial_pop_front_mints_ids_in_order() {
    let mut q = SerialExec::new(QueueKind::Init, vec![spec_named("a"), spec_named("b")], true);
    let (id, e) = q.pop_front().unwrap();
    assert_eq!(id, ProcessId::Init(0));
    assert_eq!(e.arg0, "a");
    assert_eq!(q.last_spawn, Some(ProcessId::Init(0)));
    let (id2, e2) = q.pop_front().unwrap();
    assert_eq!(id2, ProcessId::Init(1));
    assert_eq!(e2.arg0, "b");
    assert!(q.pop_front().is_none());
}

#[test]
fn serial_dormant_queue_never_dispatches() {
    let mut q = SerialExec::new(QueueKind::Deinit, vec![spec_named("a")], false);
    let mut out = Vec::new();
    assert!(!q.try_drain_proc_queue(None, &mut out));
    assert!(out.is_empty());
    assert_eq!(q.execs.len(), 1);
}

#[test]
fn serial_kick_dispatches_first_element() {
    // a freshly activated queue with nothing dispatched is kicked with no id
    let mut q = SerialExec::new(QueueKind::Deinit, vec![spec_named("a"), spec_named("b")], true);
    let mut out = Vec::new();
    assert!(!q.try_drain_proc_queue(None, &mut out));
    assert_eq!(out.len(), 1);
    assert_eq!(out[0].0, ProcessId::Deinit(0));
    assert_eq!(q.last_spawn, Some(ProcessId::Deinit(0)));
    // a second kick matches no dispatched id and does nothing
    assert!(!q.try_drain_proc_queue(None, &mut out));
    assert_eq!(out.len(), 1);
}

#[test]
fn serial_advances_only_on_the_last_spawned_id() {
    let mut q = SerialExec::new(QueueKind::Init, vec![spec_named("a"), spec_named("b")], true);
    let mut out = Vec::new();
    // dispatch the first element
    assert!(!q.try_drain_proc_queue(None, &mut out));
    assert_eq!(out.len(), 1);
    // an unrelated exit does not advance the queue
    let other = ProcessId::Main;
    assert!(!q.try_drain_proc_queue(Some(&other), &mut out));
    assert_eq!(out.len(), 1);
    // the exit of init.0 dispatches init.1
    let first = ProcessId::Init(0);
    assert!(!q.try_drain_proc_queue(Some(&first), &mut out));
    assert_eq!(out.len(), 2);
    assert_eq!(out[1].0, ProcessId::Init(1));
    // the exit of init.1 drains the queue
    let second = ProcessId::Init(1);
    assert!(q.try_drain_proc_queue(Some(&second), &mut out));
    assert_eq!(out.len(), 2);
}

#[test]
fn serial_drained_empty_queue_reports_true_only_for_last_id() {
    let mut q = SerialExec::new(QueueKind::Init, vec![spec_named("a")], true);
    let mut out = Vec::new();
    let (id, _) = q.pop_front().unwrap();
    assert!(q.try_drain_proc_queue(Some(&id), &mut out));
    assert!(out.is_empty());
    let other = ProcessId::Init(7);
    assert!(!q.try_drain_proc_queue(Some(&other), &mut out));
}
