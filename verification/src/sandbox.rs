//! A sandbox: its configuration made consistent, the plan of a run and the
//! verdict on it.

use crate::command::CommandSpec;
use crate::config::SandboxConfig;
use crate::linux::child_setup::ChildPlan;
use crate::linux::launch::{
    classified, classify, denied_calls_are_reported, describes_denial, effective_user,
    fits_or_faults, plan_fits, HostFacts,
};
use crate::linux::launch;
use crate::linux::mount::{MountError, MountErrorView};
use crate::linux::namespaces::{exit_code, exit_code_of, exit_codes_read_back};
use crate::linux::seccomp::{run, seccomp_data, Arch, SECCOMP_RET_USER_NOTIF};
use crate::outcome::{CommandOutput, DenyMechanism, ExitReason, ReasonView};
use crate::text;
use vstd::prelude::*;

verus! {

/// The system that the sandbox runs on.
#[derive(Debug, Clone, Copy, PartialEq, Eq, Structural)]
pub enum Platform {
    /// Linux on the given architecture.
    Linux(Arch),
    /// Anything else.
    Other,
}

/// There is no sandbox on this system.
#[derive(Debug, Clone, Copy, PartialEq, Eq, Structural)]
pub struct UnsupportedPlatform;

impl UnsupportedPlatform {
    /// The error as a sentence.
    pub fn message(&self) -> (r: &'static str)
        ensures
            r == "sandbox-runtime requires Linux; the current platform is not supported",
    {
        "sandbox-runtime requires Linux; the current platform is not supported"
    }
}

/// A sandbox that commands can be run in.
#[derive(Debug)]
pub struct Sandbox {
    /// What is asked of it.
    pub config: SandboxConfig,
    /// The architecture that it runs on.
    pub arch: Arch,
}

/// Whether `made` is `config` with the user namespace that it implies.
pub open spec fn made_consistent(config: SandboxConfig, euid: u32, made: SandboxConfig) -> bool {
    made.namespaces == (crate::config::NamespacesConfig {
        user: effective_user(config, euid),
        ..config.namespaces
    }) && made == (SandboxConfig { namespaces: made.namespaces, ..config })
}

/// How a run went, as far as the system can tell.
#[derive(Debug, Clone, Copy, PartialEq, Eq)]
pub enum RunOutcome {
    /// The child could not be forked.
    ForkFailed,
    /// Waiting for the child failed.
    WaitFailed,
    /// The child ended with this wait status; the listener's last report.
    Ended { status: i32, blocked: Option<(u32, u32)> },
    /// The child was killed because its time was up.
    TimedOut { status: i32, blocked: Option<(u32, u32)> },
}

impl RunOutcome {
    /// How a run went whose child was reaped: its time was up where it had to
    /// be killed first, else it ended by itself.
    pub fn reaped(killed: bool, status: i32, blocked: Option<(u32, u32)>) -> (r: RunOutcome)
        ensures
            killed ==> r == (RunOutcome::TimedOut { status, blocked }),
            !killed ==> r == (RunOutcome::Ended { status, blocked }),
    {
        if killed {
            RunOutcome::TimedOut { status, blocked }
        } else {
            RunOutcome::Ended { status, blocked }
        }
    }
}

/// Why a command could not be run.
#[derive(Debug, Clone, PartialEq, Eq)]
pub enum ExecError {
    /// The child could not be forked.
    ForkFailed { program: String },
    /// Waiting for the child failed.
    WaitFailed { program: String },
    /// A mount could not be prepared.
    MountFailed { error: MountError },
    /// The system refused something else that the run needs; what it said.
    SetupFailed { reason: String },
}

/// An [`ExecError`] with its texts as sequences of characters.
pub enum ExecErrorView {
    ForkFailed { program: Seq<char> },
    WaitFailed { program: Seq<char> },
    MountFailed { error: MountErrorView },
    SetupFailed { reason: Seq<char> },
}

impl View for ExecError {
    type V = ExecErrorView;

    open spec fn view(&self) -> ExecErrorView {
        match self {
            ExecError::ForkFailed { program } => ExecErrorView::ForkFailed { program: program@ },
            ExecError::WaitFailed { program } => ExecErrorView::WaitFailed { program: program@ },
            ExecError::MountFailed { error } => ExecErrorView::MountFailed { error: error@ },
            ExecError::SetupFailed { reason } => ExecErrorView::SetupFailed { reason: reason@ },
        }
    }
}

impl ExecErrorView {
    /// What the error says to a reader.
    pub open spec fn message(self) -> Seq<char> {
        match self {
            ExecErrorView::ForkFailed { program } => "fork() failed for '"@ + program
                + "'. Note: seabox does NOT interpret shell metacharacters (>, >>, |, *, &&, etc.) — it runs the program directly via execve. To use shell syntax, invoke 'sh -c' explicitly, e.g. `-- sh -c \"your shell command here\"`. Or split the command into separate args without shell metacharacters."@,
            ExecErrorView::WaitFailed { program } => "waitpid() failed for sandboxed process '"@
                + program + "'"@,
            ExecErrorView::MountFailed { error } => "failed to prepare mount ops: "@
                + error.message(),
            ExecErrorView::SetupFailed { reason } => reason,
        }
    }
}

impl ExecError {
    /// The error as a sentence.
    pub fn message(&self) -> (r: String)
        ensures
            r@ == self@.message(),
    {
        match self {
            ExecError::ForkFailed { program } => {
                let mut out = "fork() failed for '".to_owned();
                out.append(program.as_str());
                out.append(
                    "'. Note: seabox does NOT interpret shell metacharacters (>, >>, |, *, &&, etc.) — it runs the program directly via execve. To use shell syntax, invoke 'sh -c' explicitly, e.g. `-- sh -c \"your shell command here\"`. Or split the command into separate args without shell metacharacters.",
                );
                out
            },
            ExecError::WaitFailed { program } => {
                let mut out = "waitpid() failed for sandboxed process '".to_owned();
                out.append(program.as_str());
                out.append("'");
                out
            },
            ExecError::MountFailed { error } => {
                let mut out = "failed to prepare mount ops: ".to_owned();
                out.append(error.message().as_str());
                out
            },
            ExecError::SetupFailed { reason } => reason.clone(),
        }
    }
}

/// The words for a command whose time was up.
pub open spec fn timeout_text(timeout_millis: u64) -> Seq<char> {
    "command timed out after "@ + text::decimal(timeout_millis as nat) + " ms"@
}

/// What a wait status and the listener's last report amount to.
pub open spec fn output_of(status: i32, blocked: Option<(u32, u32)>) -> CommandOutput {
    CommandOutput { exit_code: exit_code_of(status, (-1) as i32), blocked_syscall: blocked }
}

/// Whether `r` is what comes of a run of `spec` that went like `run`.
pub open spec fn concluded(
    arch: Arch,
    spec: CommandSpec,
    run: RunOutcome,
    r: Result<(CommandOutput, ExitReason), ExecError>,
) -> bool {
    match run {
        RunOutcome::ForkFailed => r matches Err(e) && e@ == (ExecErrorView::ForkFailed {
            program: spec.program@,
        }),
        RunOutcome::WaitFailed => r matches Err(e) && e@ == (ExecErrorView::WaitFailed {
            program: spec.program@,
        }),
        RunOutcome::Ended { status, blocked } => {
            &&& r is Ok
            &&& r->Ok_0.0 == output_of(status, blocked)
            &&& classified(
                arch,
                output_of(status, blocked).exit_code,
                blocked,
                Seq::empty(),
                r->Ok_0.1@,
            )
        },
        RunOutcome::TimedOut { status, blocked } => {
            &&& r is Ok
            &&& r->Ok_0.0 == output_of(status, blocked)
            &&& r->Ok_0.1@ == ReasonView::InternalError(timeout_text(spec.timeout_millis))
        },
    }
}

impl Sandbox {
    /// Makes a sandbox of a configuration, with the user namespace that it
    /// implies.
    pub fn from_config(config: SandboxConfig, platform: Platform, euid: u32) -> (r: Result<
        Sandbox,
        UnsupportedPlatform,
    >)
        ensures
            match platform {
                Platform::Linux(arch) => r matches Ok(sandbox) && sandbox.arch == arch
                    && made_consistent(config, euid, sandbox.config),
                Platform::Other => r == Err::<Sandbox, UnsupportedPlatform>(UnsupportedPlatform),
            },
    {
        let adds = config.capabilities.has_add();
        let ns_pid = config.namespaces.pid;
        let mut made = config;
        if (ns_pid && euid != 0) || adds {
            made.namespaces.user = true;
        }
        match platform {
            Platform::Linux(arch) => Ok(Sandbox { config: made, arch }),
            Platform::Other => Err(UnsupportedPlatform),
        }
    }

    /// Makes the plan of a child that runs a command on the architecture of the
    /// sandbox, or says which path of a mount is missing first.
    pub fn prepare(&self, spec: &CommandSpec, facts: &HostFacts) -> (r: Result<
        ChildPlan,
        MountError,
    >)
        requires
            facts.mount_probes@.len() == self.config.mount.specs@.len(),
            launch::filters_whole(self.config.seccomp_filter_bytes@),
        ensures
            fits_or_faults(self.arch, self.config, *spec, *facts, r),
    {
        launch::prepare(self.arch, &self.config, spec, facts)
    }

    /// Concludes the run of a command: what it left behind and why it ended.
    pub fn execute(&self, spec: &CommandSpec, run: RunOutcome) -> (r: Result<
        (CommandOutput, ExitReason),
        ExecError,
    >)
        ensures
            concluded(self.arch, *spec, run, r),
    {
        match run {
            RunOutcome::ForkFailed => Err(
                ExecError::ForkFailed { program: spec.program.clone() },
            ),
            RunOutcome::WaitFailed => Err(
                ExecError::WaitFailed { program: spec.program.clone() },
            ),
            RunOutcome::Ended { status, blocked } => {
                let output = CommandOutput {
                    exit_code: exit_code(status, -1),
                    blocked_syscall: blocked,
                };
                let reason = self.classify_exit(output.exit_code, output.blocked_syscall);
                Ok((output, reason))
            },
            RunOutcome::TimedOut { status, blocked } => {
                let output = CommandOutput {
                    exit_code: exit_code(status, -1),
                    blocked_syscall: blocked,
                };
                let mut message = "command timed out after ".to_owned();
                text::push_decimal(&mut message, spec.timeout_millis);
                message.append(" ms");
                Ok((output, ExitReason::InternalError(message)))
            },
        }
    }

    /// Classifies the end of a command by its exit code and the system call
    /// that was reported last.
    pub fn classify_exit(&self, exit_code: i32, blocked: Option<(u32, u32)>) -> (r: ExitReason)
        ensures
            classified(self.arch, exit_code, blocked, Seq::empty(), r@),
    {
        proof {
            reveal_strlit("");
            assert(""@ =~= Seq::<char>::empty());
        }
        classify(self.arch, exit_code, blocked, "")
    }
}

impl SandboxConfig {
    /// Makes a sandbox of the configuration.
    pub fn into_sandbox(self, platform: Platform, euid: u32) -> (r: Result<
        Sandbox,
        UnsupportedPlatform,
    >)
        ensures
            match platform {
                Platform::Linux(arch) => r matches Ok(sandbox) && sandbox.arch == arch
                    && made_consistent(self, euid, sandbox.config),
                Platform::Other => r == Err::<Sandbox, UnsupportedPlatform>(UnsupportedPlatform),
            },
    {
        Sandbox::from_config(self, platform, euid)
    }
}

/// Making a consistent configuration consistent changes nothing.
pub proof fn consistency_is_stable(
    config: SandboxConfig,
    euid: u32,
    once: SandboxConfig,
    twice: SandboxConfig,
)
    requires
        made_consistent(config, euid, once),
        made_consistent(once, euid, twice),
    ensures
        twice == once,
{
}

/// Making a configuration consistent changes nothing but the user namespace: it
/// is there where it was asked for, where the PID namespace of a caller who is
/// not root needs it, and where a capability is added.
pub proof fn consistency_adds_the_user_namespace(
    config: SandboxConfig,
    euid: u32,
    made: SandboxConfig,
)
    requires
        made_consistent(config, euid, made),
    ensures
        made.namespaces.user <==> (config.namespaces.user || (config.namespaces.pid && euid != 0)
            || config.capabilities.adds()),
        made.namespaces.ipc == config.namespaces.ipc,
        made.namespaces.mnt == config.namespaces.mnt,
        made.namespaces.pid == config.namespaces.pid,
        made.namespaces.net == config.namespaces.net,
        made.namespaces.uts == config.namespaces.uts,
        made.namespaces.cgroup == config.namespaces.cgroup,
        made.namespaces.user_try == config.namespaces.user_try,
        made.namespaces.cgroup_try == config.namespaces.cgroup_try,
        made.namespaces.uid == config.namespaces.uid,
        made.namespaces.gid == config.namespaces.gid,
        made.namespaces.hostname == config.namespaces.hostname,
        made.landlock == config.landlock,
        made.network == config.network,
        made.mount == config.mount,
        made.timeout_default_secs == config.timeout_default_secs,
        made.timeout_max_secs == config.timeout_max_secs,
        made.seccomp_deny_nrs == config.seccomp_deny_nrs,
        made.seccomp_filter_bytes == config.seccomp_filter_bytes,
        made.capabilities == config.capabilities,
{
}

/// A run that ends by itself with an exit code and without a report is concluded
/// with that code: zero is success, and any code that stands for no denial is
/// the command's own. One that was killed by a signal is concluded with 128 and
/// the signal.
pub proof fn exit_codes_are_handed_on(
    arch: Arch,
    spec: CommandSpec,
    code: i32,
    signal: i32,
    ended: Result<(CommandOutput, ExitReason), ExecError>,
    killed: Result<(CommandOutput, ExitReason), ExecError>,
)
    requires
        0 <= code <= 255,
        0 < signal < 127,
        concluded(arch, spec, RunOutcome::Ended { status: code << 8, blocked: None }, ended),
        concluded(arch, spec, RunOutcome::Ended { status: signal, blocked: None }, killed),
    ensures
        ended matches Ok(result) && result.0.exit_code == code && result.0.blocked_syscall is None
            && (result.1@ is Success <==> code == 0) && (code != 0 && code != 126 && code != 31
            && code != 159 ==> result.1@ == ReasonView::Program(code)),
        killed matches Ok(result) && result.0.exit_code == 128 + signal && !(result.1@ is Success),
{
    exit_codes_read_back(code, signal, (-1) as i32);
    let reason = ended->Ok_0.1@;
    if code != 0 && code != 126 && code != 31 && code != 159 {
        exit_code_alone_decides(arch, code, reason);
    }
}

/// A run whose time was up is a failure of the sandbox that tells the time,
/// whatever the exit code and whatever was reported.
pub proof fn timeouts_are_failures(
    arch: Arch,
    spec: CommandSpec,
    status: i32,
    blocked: Option<(u32, u32)>,
    r: Result<(CommandOutput, ExitReason), ExecError>,
)
    requires
        concluded(arch, spec, RunOutcome::TimedOut { status, blocked }, r),
    ensures
        r matches Ok(result) && result.0.blocked_syscall == blocked
            && result.1@ == ReasonView::InternalError(
            "command timed out after "@ + text::decimal(spec.timeout_millis as nat) + " ms"@,
        ),
{
}

/// A child that could not be forked or waited for is an error that names the
/// program, and nothing else is.
pub proof fn failed_calls_are_errors(
    arch: Arch,
    spec: CommandSpec,
    went: RunOutcome,
    r: Result<(CommandOutput, ExitReason), ExecError>,
)
    requires
        concluded(arch, spec, went, r),
    ensures
        r is Err <==> went is ForkFailed || went is WaitFailed,
        went is ForkFailed ==> r->Err_0@ == (ExecErrorView::ForkFailed { program: spec.program@ }),
        went is WaitFailed ==> r->Err_0@ == (ExecErrorView::WaitFailed { program: spec.program@ }),
{
}

/// The last report goes along with the outcome of a run.
pub proof fn reports_go_along(
    arch: Arch,
    spec: CommandSpec,
    status: i32,
    blocked: Option<(u32, u32)>,
    r: Result<(CommandOutput, ExitReason), ExecError>,
)
    requires
        concluded(arch, spec, RunOutcome::Ended { status, blocked }, r),
    ensures
        r matches Ok(result) && result.0.blocked_syscall == blocked && (blocked is Some ==> (
        result.1@ matches ReasonView::Denied { mechanism, .. } && mechanism
            == DenyMechanism::Seccomp)),
{
}

/// The filter and the verdict of a sandbox speak of one architecture: a system
/// call that the configuration denies is reported by the filter, and a run that
/// ends after that report is a denial described by the table of the very
/// architecture that the filter was built for.
pub proof fn denied_call_is_named(
    sandbox: Sandbox,
    spec: CommandSpec,
    facts: HostFacts,
    plan: ChildPlan,
    data: seccomp_data,
    status: i32,
    r: Result<(CommandOutput, ExitReason), ExecError>,
)
    requires
        plan_fits(sandbox.arch, sandbox.config, spec, facts, plan),
        data.arch == sandbox.arch.audit_spec(),
        sandbox.config.seccomp_deny_nrs@.contains(data.nr as u32),
        concluded(
            sandbox.arch,
            spec,
            RunOutcome::Ended { status, blocked: Some((data.nr as u32, data.arch)) },
            r,
        ),
    ensures
        run(plan.bpf_filter@, data) == Some(SECCOMP_RET_USER_NOTIF),
        r matches Ok(result) && result.1@ matches ReasonView::Denied { mechanism, message }
            && mechanism == DenyMechanism::Seccomp && describes_denial(
            sandbox.arch,
            data.nr as u32,
            sandbox.arch.audit_spec(),
            message,
        ),
{
    denied_calls_are_reported(sandbox.arch, sandbox.config, spec, facts, plan, data);
}

/// Without a system call that was reported, the exit code alone decides: an
/// empty error output tells of nothing.
pub proof fn exit_code_alone_decides(arch: Arch, exit_code: i32, reason: ReasonView)
    requires
        classified(arch, exit_code, None, Seq::empty(), reason),
        exit_code != 0,
        exit_code != 31,
        exit_code != 126,
        exit_code != 159,
    ensures
        reason == ReasonView::Program(exit_code),
{
    reveal_strlit("Operation not permitted");
    reveal_strlit("Permission denied");
    reveal_strlit("Bad system call");
    reveal_strlit("SIGSYS");
    reveal_strlit("seccomp");
    assert forall|needle: Seq<char>| needle.len() > 0 implies !#[trigger] text::occurs(
        Seq::empty(),
        needle,
    ) by {}
    assert("Operation not permitted"@.len() > 0);
    assert("Permission denied"@.len() > 0);
    assert("Bad system call"@.len() > 0);
    assert("SIGSYS"@.len() > 0);
    assert("seccomp"@.len() > 0);
}

} // verus!
