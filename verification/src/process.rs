//! Core process data model: logical process identities, exec specifications,
//! spawn results, and the per-process status record with monotonic flags.

use vstd::prelude::*;

verus! {

/// Logical identity of a supervised process, unique within one supervisor
/// lifetime: the single `main` process, the members of the init and deinit
/// serial queues (minted in spawn order), or an ad-hoc process started over
/// the control socket.
#[derive(Clone, Copy, Debug, PartialEq, Eq, Structural)]
pub enum ProcessId {
    Main,
    Init(usize),
    Deinit(usize),
    Adhoc(u64),
}

/// Text of a process id, as it appears in published socket and log paths.
pub open spec fn spec_id_text(id: ProcessId) -> Seq<char> {
    match id {
        ProcessId::Main => "main"@,
        ProcessId::Init(n) => "init."@ + crate::textfmt::spec_u64_text(n as int),
        ProcessId::Deinit(n) => "deinit."@ + crate::textfmt::spec_u64_text(n as int),
        ProcessId::Adhoc(n) => "exec."@ + crate::textfmt::spec_u64_text(n as int),
    }
}

impl ProcessId {
    /// Render the id as text.
    pub fn text(&self) -> (r: String)
        ensures
            r@ == spec_id_text(*self),
    {
        proof {
            reveal_strlit("main");
            reveal_strlit("init.");
            reveal_strlit("deinit.");
            reveal_strlit("exec.");
        }
        match self {
            ProcessId::Main => String::from_str("main"),
            ProcessId::Init(n) => {
                let mut r = String::from_str("init.");
                r.append(crate::textfmt::u64_text(*n as u64).as_str());
                r
            },
            ProcessId::Deinit(n) => {
                let mut r = String::from_str("deinit.");
                r.append(crate::textfmt::u64_text(*n as u64).as_str());
                r
            },
            ProcessId::Adhoc(n) => {
                let mut r = String::from_str("exec.");
                r.append(crate::textfmt::u64_text(*n).as_str());
                r
            },
        }
    }
}

/// How the spawned child's stdio is wired.
#[derive(Clone, Debug)]
pub enum StdioMode {
    /// A pseudo-terminal whose output goes to a log file, with the master end
    /// exposed through a listening socket.
    Terminal,
    /// Stdout and stderr go to the given files, if any.
    Files { stdout: Option<String>, stderr: Option<String> },
    /// Like `Files`, with supervisor-chosen default paths.
    Inherit,
    /// Caller-supplied descriptor numbers for stdin, stdout and stderr.
    Forward { stdin: i32, stdout: i32, stderr: i32 },
}

/// Description of one process to run inside the container.
#[derive(Clone, Debug)]
pub struct ExecSpec {
    /// Program name; also the key for path resolution.
    pub arg0: String,
    /// Arguments after the program name.
    pub args: Vec<String>,
    /// Environment entries; the entry named `PATH` drives path resolution.
    pub envs: Vec<(String, String)>,
    /// Working directory, interpreted inside the container root.
    pub work_dir: Option<String>,
    pub output_mode: StdioMode,
    /// Descriptor of a cross-process notification the supervisor signals once
    /// the process's whole tree has exited.
    pub notify: Option<i32>,
}

impl ExecSpec {
    /// First value bound to `key` in the environment list, if any.
    pub fn env_value(&self, key: &String) -> (r: Option<String>)
        ensures
            r == spec_env_value(self.envs@, key@),
    {
        let n = self.envs.len();
        let mut i: usize = 0;
        while i < n
            invariant
                n == self.envs@.len(),
                i <= n,
                forall|j: int| 0 <= j < i ==> self.envs@[j].0@ != key@,
            decreases n - i,
        {
            if self.envs[i].0 == *key {
                proof {
                    lemma_env_value_skip(self.envs@, key@, i as int);
                }
                return Some(self.envs[i].1.clone());
            }
            i += 1;
        }
        proof {
            if n > 0 {
                lemma_env_value_skip(self.envs@, key@, n as int);
            }
        }
        None
    }
}

/// Scanning past entries whose key does not match leaves the looked-up value
/// unchanged.
proof fn lemma_env_value_skip(envs: Seq<(String, String)>, key: Seq<char>, i: int)
    requires
        0 <= i <= envs.len(),
        forall|j: int| 0 <= j < i ==> envs[j].0@ != key,
    ensures
        spec_env_value(envs, key) == spec_env_value(envs.skip(i), key),
    decreases i,
{
    if i > 0 {
        lemma_env_value_skip(envs.drop_first(), key, i - 1);
        assert(envs.drop_first().skip(i - 1) =~= envs.skip(i));
    } else {
        assert(envs.skip(0) =~= envs);
    }
}

/// First value bound to `key` in an environment list.
pub open spec fn spec_env_value(envs: Seq<(String, String)>, key: Seq<char>) -> Option<String>
    decreases envs.len(),
{
    if envs.len() == 0 {
        None
    } else if envs[0].0@ == key {
        Some(envs[0].1)
    } else {
        spec_env_value(envs.drop_first(), key)
    }
}

/// Two string options hold the same text.
pub open spec fn spec_str_opt_eq(a: Option<String>, b: Option<String>) -> bool {
    match (a, b) {
        (Some(x), Some(y)) => x@ == y@,
        (None, None) => true,
        _ => false,
    }
}

/// Two string lists hold the same texts.
pub open spec fn spec_strings_eq(a: Seq<String>, b: Seq<String>) -> bool {
    a.len() == b.len() && forall|i: int| 0 <= i < a.len() ==> a[i]@ == b[i]@
}

/// Two environment lists hold the same bindings in the same order.
pub open spec fn spec_envs_eq(a: Seq<(String, String)>, b: Seq<(String, String)>) -> bool {
    a.len() == b.len() && forall|i: int|
        0 <= i < a.len() ==> #[trigger] a[i].0@ == b[i].0@ && a[i].1@ == b[i].1@
}

/// Two stdio modes are the same mode with the same paths and descriptors.
pub open spec fn spec_mode_eq(a: StdioMode, b: StdioMode) -> bool {
    match (a, b) {
        (StdioMode::Terminal, StdioMode::Terminal) => true,
        (
            StdioMode::Files { stdout: ao, stderr: ae },
            StdioMode::Files { stdout: bo, stderr: be },
        ) => spec_str_opt_eq(ao, bo) && spec_str_opt_eq(ae, be),
        (StdioMode::Inherit, StdioMode::Inherit) => true,
        (
            StdioMode::Forward { stdin: ai, stdout: ao, stderr: ae },
            StdioMode::Forward { stdin: bi, stdout: bo, stderr: be },
        ) => ai == bi && ao == bo && ae == be,
        _ => false,
    }
}

/// Two exec specifications describe the same process.
pub open spec fn spec_exec_eq(a: ExecSpec, b: ExecSpec) -> bool {
    &&& a.arg0@ == b.arg0@
    &&& spec_strings_eq(a.args@, b.args@)
    &&& spec_envs_eq(a.envs@, b.envs@)
    &&& spec_str_opt_eq(a.work_dir, b.work_dir)
    &&& spec_mode_eq(a.output_mode, b.output_mode)
    &&& a.notify == b.notify
}

/// Two exec specification lists agree element by element.
pub open spec fn spec_execs_eq(a: Seq<ExecSpec>, b: Seq<ExecSpec>) -> bool {
    a.len() == b.len() && forall|i: int| 0 <= i < a.len() ==> spec_exec_eq(#[trigger] a[i], b[i])
}

/// Copy a string option.
pub fn clone_opt_string(v: &Option<String>) -> (r: Option<String>)
    ensures
        spec_str_opt_eq(r, *v),
{
    match v {
        Some(s) => Some(s.clone()),
        None => None,
    }
}

/// Copy a string list.
pub fn clone_strings(v: &Vec<String>) -> (r: Vec<String>)
    ensures
        spec_strings_eq(r@, v@),
{
    let mut r: Vec<String> = Vec::new();
    let n = v.len();
    let mut i: usize = 0;
    while i < n
        invariant
            n == v@.len(),
            i <= n,
            r@.len() == i,
            forall|j: int| 0 <= j < i ==> r@[j]@ == v@[j]@,
        decreases n - i,
    {
        r.push(v[i].clone());
        i += 1;
    }
    r
}

/// Copy an environment list.
pub fn clone_envs(v: &Vec<(String, String)>) -> (r: Vec<(String, String)>)
    ensures
        spec_envs_eq(r@, v@),
{
    let mut r: Vec<(String, String)> = Vec::new();
    let n = v.len();
    let mut i: usize = 0;
    while i < n
        invariant
            n == v@.len(),
            i <= n,
            r@.len() == i,
            forall|j: int| 0 <= j < i ==> #[trigger] r@[j].0@ == v@[j].0@ && r@[j].1@ == v@[j].1@,
        decreases n - i,
    {
        let key = v[i].0.clone();
        let value = v[i].1.clone();
        r.push((key, value));
        i += 1;
    }
    r
}

impl StdioMode {
    /// Copy of this mode.
    pub fn snapshot(&self) -> (r: StdioMode)
        ensures
            spec_mode_eq(r, *self),
    {
        match self {
            StdioMode::Terminal => StdioMode::Terminal,
            StdioMode::Files { stdout, stderr } => StdioMode::Files {
                stdout: clone_opt_string(stdout),
                stderr: clone_opt_string(stderr),
            },
            StdioMode::Inherit => StdioMode::Inherit,
            StdioMode::Forward { stdin, stdout, stderr } => StdioMode::Forward {
                stdin: *stdin,
                stdout: *stdout,
                stderr: *stderr,
            },
        }
    }
}

impl ExecSpec {
    /// Copy of this specification.
    pub fn snapshot(&self) -> (r: ExecSpec)
        ensures
            spec_exec_eq(r, *self),
    {
        ExecSpec {
            arg0: self.arg0.clone(),
            args: clone_strings(&self.args),
            envs: clone_envs(&self.envs),
            work_dir: clone_opt_string(&self.work_dir),
            output_mode: self.output_mode.snapshot(),
            notify: self.notify,
        }
    }
}

/// Copy a list of exec specifications.
pub fn clone_specs(v: &Vec<ExecSpec>) -> (r: Vec<ExecSpec>)
    ensures
        spec_execs_eq(r@, v@),
{
    let mut r: Vec<ExecSpec> = Vec::new();
    let n = v.len();
    let mut i: usize = 0;
    while i < n
        invariant
            n == v@.len(),
            i <= n,
            r@.len() == i,
            forall|j: int| 0 <= j < i ==> spec_exec_eq(#[trigger] r@[j], v@[j]),
        decreases n - i,
    {
        r.push(v[i].snapshot());
        i += 1;
    }
    r
}

/// The observable result of a successful spawn.
#[derive(Clone, Debug)]
pub struct SpawnInfo {
    /// Kernel process id of the direct child.
    pub pid: u32,
    /// Path of the pseudo-terminal socket, when the stdio mode was `Terminal`.
    pub terminal_socket: Option<String>,
    /// Log file paths chosen for the child, if any.
    pub stdout_log: Option<String>,
    pub stderr_log: Option<String>,
}

/// Two spawn results report the same pid and paths.
pub open spec fn spec_spawn_eq(a: SpawnInfo, b: SpawnInfo) -> bool {
    &&& a.pid == b.pid
    &&& spec_str_opt_eq(a.terminal_socket, b.terminal_socket)
    &&& spec_str_opt_eq(a.stdout_log, b.stdout_log)
    &&& spec_str_opt_eq(a.stderr_log, b.stderr_log)
}

/// Two spawn result options agree.
pub open spec fn spec_spawn_opt_eq(a: Option<SpawnInfo>, b: Option<SpawnInfo>) -> bool {
    match (a, b) {
        (Some(x), Some(y)) => spec_spawn_eq(x, y),
        (None, None) => true,
        _ => false,
    }
}

impl SpawnInfo {
    /// Copy of this spawn result.
    pub fn snapshot(&self) -> (r: SpawnInfo)
        ensures
            spec_spawn_eq(r, *self),
    {
        SpawnInfo {
            pid: self.pid,
            terminal_socket: clone_opt_string(&self.terminal_socket),
            stdout_log: clone_opt_string(&self.stdout_log),
            stderr_log: clone_opt_string(&self.stderr_log),
        }
    }
}

/// Errors visible at the spawn boundary.
#[derive(Clone, Copy, Debug, PartialEq, Eq, Structural)]
pub enum ExecError {
    /// Path resolution found no executable for `arg0`.
    ExecutableNotFound,
    /// The container needs the Linux ABI but no Linux kernel module is loaded.
    MissingLinuxKmod,
    /// Branding the executable for the Linux ABI failed; carries the errno.
    BrandElfFailed(i32),
    /// The launch itself failed; carries the errno.
    SpawnIoError(i32),
}

/// Two status records agree on every observable field.
pub open spec fn spec_stat_eq(a: ProcessStat, b: ProcessStat) -> bool {
    &&& spec_exec_eq(a.exec_spec, b.exec_spec)
    &&& spec_spawn_opt_eq(a.spawn_info, b.spawn_info)
    &&& a.exited == b.exited
    &&& a.tree_exited == b.tree_exited
}

/// The default search list used when the exec specification binds no
/// `PATH`.
pub open spec fn spec_default_path() -> Seq<char> {
    "/bin:/usr/bin:/sbin:/usr/sbin"@
}

/// The search path an exec specification resolves under: its `PATH`
/// binding, or the fixed default list.
pub fn search_path(exec_spec: &ExecSpec) -> (r: String)
    ensures
        match spec_env_value(exec_spec.envs@, "PATH"@) {
            Some(v) => r@ == v@,
            None => r@ == spec_default_path(),
        },
{
    proof {
        reveal_strlit("PATH");
        reveal_strlit("/bin:/usr/bin:/sbin:/usr/sbin");
    }
    let key = String::from_str("PATH");
    match exec_spec.env_value(&key) {
        Some(v) => v,
        None => String::from_str("/bin:/usr/bin:/sbin:/usr/sbin"),
    }
}

/// The socket and log paths published for a spawned process, by stdio
/// mode.
pub struct SpawnPaths {
    /// Path of the listening socket exposing the pseudo-terminal master.
    pub terminal_socket: Option<String>,
    /// Log file of the pseudo-terminal output.
    pub terminal_log: Option<String>,
    /// Stdout file.
    pub stdout_log: Option<String>,
    /// Stderr file.
    pub stderr_log: Option<String>,
}

/// `"/var/run/xc.<container>.<id>"`.
pub open spec fn spec_terminal_socket_path(name: Seq<char>, id: ProcessId) -> Seq<char> {
    "/var/run/xc."@ + name + "."@ + spec_id_text(id)
}

/// `"/var/log/xc.<container>.<id><suffix>"`.
pub open spec fn spec_log_path(name: Seq<char>, id: ProcessId, suffix: Seq<char>) -> Seq<char> {
    "/var/log/xc."@ + name + "."@ + spec_id_text(id) + suffix
}

/// Compute the paths the spawn publishes for a process, by stdio mode:
/// Terminal gets a pseudo-terminal socket and one log file, Inherit gets
/// default stdout and stderr files, Files keeps the caller's paths, and
/// Forward touches no file.
pub fn spawn_paths(name: &str, id: ProcessId, mode: &StdioMode) -> (r: SpawnPaths)
    ensures
        match *mode {
            StdioMode::Terminal => {
                &&& r.terminal_socket matches Some(s) && s@ == spec_terminal_socket_path(name@, id)
                &&& r.terminal_log matches Some(s) && s@ == spec_log_path(name@, id, ".log"@)
                &&& r.stdout_log is None
                &&& r.stderr_log is None
            },
            StdioMode::Inherit => {
                &&& r.terminal_socket is None
                &&& r.terminal_log is None
                &&& r.stdout_log matches Some(s) && s@ == spec_log_path(name@, id, ".out.log"@)
                &&& r.stderr_log matches Some(s) && s@ == spec_log_path(name@, id, ".err.log"@)
            },
            StdioMode::Files { stdout, stderr } => {
                &&& r.terminal_socket is None
                &&& r.terminal_log is None
                &&& spec_str_opt_eq(r.stdout_log, stdout)
                &&& spec_str_opt_eq(r.stderr_log, stderr)
            },
            StdioMode::Forward { .. } => {
                &&& r.terminal_socket is None
                &&& r.terminal_log is None
                &&& r.stdout_log is None
                &&& r.stderr_log is None
            },
        },
{
    proof {
        reveal_strlit("/var/run/xc.");
        reveal_strlit("/var/log/xc.");
        reveal_strlit(".");
        reveal_strlit(".log");
        reveal_strlit(".out.log");
        reveal_strlit(".err.log");
    }
    match mode {
        StdioMode::Terminal => {
            let mut sock = String::from_str("/var/run/xc.");
            sock.append(name);
            sock.append(".");
            sock.append(id.text().as_str());
            let mut log = String::from_str("/var/log/xc.");
            log.append(name);
            log.append(".");
            log.append(id.text().as_str());
            log.append(".log");
            SpawnPaths {
                terminal_socket: Some(sock),
                terminal_log: Some(log),
                stdout_log: None,
                stderr_log: None,
            }
        },
        StdioMode::Inherit => {
            let mut out = String::from_str("/var/log/xc.");
            out.append(name);
            out.append(".");
            out.append(id.text().as_str());
            out.append(".out.log");
            let mut err = String::from_str("/var/log/xc.");
            err.append(name);
            err.append(".");
            err.append(id.text().as_str());
            err.append(".err.log");
            SpawnPaths {
                terminal_socket: None,
                terminal_log: None,
                stdout_log: Some(out),
                stderr_log: Some(err),
            }
        },
        StdioMode::Files { stdout, stderr } => SpawnPaths {
            terminal_socket: None,
            terminal_log: None,
            stdout_log: clone_opt_string(stdout),
            stderr_log: clone_opt_string(stderr),
        },
        StdioMode::Forward { .. } => SpawnPaths {
            terminal_socket: None,
            terminal_log: None,
            stdout_log: None,
            stderr_log: None,
        },
    }
}

/// The decision at the head of every spawn: without a resolved executable
/// the spawn fails as not found; a container needing the Linux ABI without
/// a loaded Linux kernel module (either variant) fails; otherwise the
/// resolved path is launched.
pub fn spawn_precheck(
    resolved: Option<String>,
    linux: bool,
    kld_loaded: bool,
) -> (r: Result<String, ExecError>)
    ensures
        resolved is None ==> r == Result::<String, ExecError>::Err(ExecError::ExecutableNotFound),
        resolved is Some && linux && !kld_loaded ==> r == Result::<String, ExecError>::Err(
            ExecError::MissingLinuxKmod,
        ),
        resolved is Some && (!linux || kld_loaded) ==> r == Result::<String, ExecError>::Ok(
            resolved->0,
        ),
{
    match resolved {
        None => Err(ExecError::ExecutableNotFound),
        Some(path) => {
            if linux && !kld_loaded {
                Err(ExecError::MissingLinuxKmod)
            } else {
                Ok(path)
            }
        },
    }
}

/// Status record of one named process. All fields are monotonic: once
/// `spawn_info`, `exited` or `tree_exited` is set, it is never cleared or
/// changed again.
#[derive(Clone, Debug)]
pub struct ProcessStat {
    /// The specification this process was started from.
    pub exec_spec: ExecSpec,
    /// Set once the process has been spawned.
    pub spawn_info: Option<SpawnInfo>,
    /// Exit code of the direct child, set once it exits.
    pub exited: Option<i32>,
    /// Set once the direct child and all its descendants have exited.
    pub tree_exited: bool,
}

impl ProcessStat {
    pub fn new(exec_spec: ExecSpec) -> (r: ProcessStat)
        ensures
            r.exec_spec == exec_spec,
            r.spawn_info is None,
            r.exited is None,
            !r.tree_exited,
    {
        ProcessStat { exec_spec, spawn_info: None, exited: None, tree_exited: false }
    }

    /// Record the spawn result. A value already present is kept.
    pub fn set_started(&mut self, info: SpawnInfo)
        ensures
            old(self).spawn_info is None ==> final(self).spawn_info == Some(info),
            old(self).spawn_info is Some ==> final(self).spawn_info == old(self).spawn_info,
            final(self).exec_spec == old(self).exec_spec,
            final(self).exited == old(self).exited,
            final(self).tree_exited == old(self).tree_exited,
    {
        if self.spawn_info.is_none() {
            self.spawn_info = Some(info);
        }
    }

    /// Record the direct child's exit code. A value already present is kept,
    /// so the flag never clears once set.
    pub fn set_exited(&mut self, exit_code: i32)
        ensures
            old(self).exited is None ==> final(self).exited == Some(exit_code),
            old(self).exited is Some ==> final(self).exited == old(self).exited,
            final(self).exec_spec == old(self).exec_spec,
            final(self).spawn_info == old(self).spawn_info,
            final(self).tree_exited == old(self).tree_exited,
    {
        if self.exited.is_none() {
            self.exited = Some(exit_code);
        }
    }

    /// Copy of this status record.
    pub fn snapshot(&self) -> (r: ProcessStat)
        ensures
            spec_stat_eq(r, *self),
    {
        ProcessStat {
            exec_spec: self.exec_spec.snapshot(),
            spawn_info: match &self.spawn_info {
                Some(info) => Some(info.snapshot()),
                None => None,
            },
            exited: self.exited,
            tree_exited: self.tree_exited,
        }
    }

    /// Record that the whole tree has exited. The flag never clears once set.
    pub fn set_tree_exited(&mut self)
        ensures
            final(self).tree_exited,
            final(self).exec_spec == old(self).exec_spec,
            final(self).spawn_info == old(self).spawn_info,
            final(self).exited == old(self).exited,
    {
        self.tree_exited = true;
    }
}

} // verus!
