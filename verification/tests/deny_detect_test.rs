//! Why a command ended.

use seabox::cli::{report_exit, report_failure};
use seabox::config::SandboxConfig;
use seabox::linux::launch::{classify, wait_action, WaitAction};
use seabox::linux::mount::MountError;
use seabox::linux::seccomp::Arch;
use seabox::linux::LinuxSandbox;
use seabox::{
    CommandOutput, CommandSpec, DenyMechanism, ExecError, ExitReason, Platform, RunOutcome, Sandbox,
};

fn make_sandbox() -> LinuxSandbox {
    LinuxSandbox {
        config: SandboxConfig::default(),
    }
}

#[test]
fn exit_zero_ok() {
    let sandbox = make_sandbox();
    let result = sandbox.classify_exit(0, "some error text");
    assert_eq!(result, ExitReason::Success);
}

#[test]
fn exit_31_seccomp_direct() {
    let sandbox = make_sandbox();
    let result = sandbox.classify_exit(31, "");
    assert_eq!(
        result,
        ExitReason::Denied {
            mechanism: DenyMechanism::Seccomp,
            message: "Blocked by seccomp filter (SIGSYS)".into(),
        }
    );
}

#[test]
fn exit_159_seccomp_shell() {
    let sandbox = make_sandbox();
    let result = sandbox.classify_exit(159, "");
    assert_eq!(
        result,
        ExitReason::Denied {
            mechanism: DenyMechanism::Seccomp,
            message: "Blocked by seccomp filter (SIGSYS)".into(),
        }
    );
}

#[test]
fn stderr_operation_not_permitted() {
    let sandbox = make_sandbox();
    let result = sandbox.classify_exit(1, "Operation not permitted");
    assert!(result.is_denied());
    assert_eq!(
        result,
        ExitReason::Denied {
            mechanism: DenyMechanism::Landlock,
            message: "Landlock blocked access: Operation not permitted".into(),
        }
    );
}

#[test]
fn stderr_permission_denied() {
    let sandbox = make_sandbox();
    let result = sandbox.classify_exit(1, "Permission denied");
    assert!(result.is_denied());
    assert_eq!(
        result,
        ExitReason::Denied {
            mechanism: DenyMechanism::Landlock,
            message: "Landlock blocked access: Permission denied".into(),
        }
    );
}

#[test]
fn stderr_bad_system_call() {
    let sandbox = make_sandbox();
    let result = sandbox.classify_exit(1, "Bad system call (core dumped)");
    assert_eq!(
        result,
        ExitReason::Denied {
            mechanism: DenyMechanism::Seccomp,
            message: "Seccomp blocked syscall: Bad system call (core dumped)".into(),
        }
    );
}

#[test]
fn stderr_sigsys() {
    let sandbox = make_sandbox();
    let result = sandbox.classify_exit(1, "SIGSYS from seccomp");
    assert_eq!(
        result,
        ExitReason::Denied {
            mechanism: DenyMechanism::Seccomp,
            message: "Seccomp blocked syscall: SIGSYS from seccomp".into(),
        }
    );
}

#[test]
fn stderr_seccomp() {
    let sandbox = make_sandbox();
    let result = sandbox.classify_exit(1, "seccomp filter killed process");
    assert_eq!(
        result,
        ExitReason::Denied {
            mechanism: DenyMechanism::Seccomp,
            message: "Seccomp blocked syscall: seccomp filter killed process".into(),
        }
    );
}

#[test]
fn exit_1_no_match_program() {
    let sandbox = make_sandbox();
    let result = sandbox.classify_exit(1, "some unrelated error message");
    assert_eq!(result, ExitReason::Program(1));
}

#[test]
fn exit_139_sigsegv() {
    let sandbox = make_sandbox();
    let result = sandbox.classify_exit(139, "");
    assert_eq!(result, ExitReason::Program(139));
}

#[test]
fn exit_126_is_landlock() {
    let result = make_sandbox().classify_exit(126, "");
    assert_eq!(
        result,
        ExitReason::Denied {
            mechanism: DenyMechanism::Landlock,
            message: "Sandbox denial (Landlock): blocked by Landlock ruleset".into(),
        }
    );
}

fn sandbox() -> Sandbox {
    Sandbox::from_config(SandboxConfig::default(), Platform::Linux(Arch::X86_64), 0).unwrap()
}

#[test]
fn reported_call_is_denied_whatever_the_exit_code() {
    for code in [0, 1, 126, 159] {
        let reason = sandbox().classify_exit(code, Some((165, 0xc000_003e)));
        assert_eq!(
            reason,
            ExitReason::Denied {
                mechanism: DenyMechanism::Seccomp,
                message: "Blocked by seccomp filter (SIGSYS): syscall='mount' category='mount' nr=165 arch=0xc000003e reason=blacklist signal=SIGSYS".into(),
            }
        );
    }
}

#[test]
fn unlisted_call_is_unknown() {
    let reason = classify(Arch::Aarch64, 0, Some((165, 0xc000_00b7)), "");
    assert_eq!(
        reason,
        ExitReason::Denied {
            mechanism: DenyMechanism::Seccomp,
            message: "Blocked by seccomp filter (SIGSYS): syscall='unknown' category='unknown' nr=165 arch=0xc00000b7 reason=blacklist signal=SIGSYS".into(),
        }
    );
    let reason = classify(Arch::Aarch64, 0, Some((40, 0xc000_00b7)), "");
    match reason {
        ExitReason::Denied { message, .. } => assert!(message.contains("syscall='mount'")),
        other => panic!("unexpected reason {other:?}"),
    }
}

#[test]
fn without_a_report_the_exit_code_decides() {
    assert_eq!(sandbox().classify_exit(0, None), ExitReason::Success);
    assert_eq!(sandbox().classify_exit(1, None), ExitReason::Program(1));
    assert_eq!(sandbox().classify_exit(-1, None), ExitReason::Program(-1));
    assert!(sandbox().classify_exit(31, None).is_denied());
    assert!(sandbox().classify_exit(0, None).is_ok());
    assert!(!sandbox().classify_exit(1, None).is_ok());
}

#[test]
fn ended_runs_are_concluded() {
    let spec = CommandSpec::default().with_program("ls");
    let run = RunOutcome::Ended { status: 3 << 8, blocked: None };
    let (output, reason) = sandbox().execute(&spec, run).unwrap();
    assert_eq!(output, CommandOutput { exit_code: 3, blocked_syscall: None });
    assert_eq!(reason, ExitReason::Program(3));

    let run = RunOutcome::Ended { status: 31, blocked: None };
    let (output, reason) = sandbox().execute(&spec, run).unwrap();
    assert_eq!(output.exit_code, 159);
    assert!(reason.is_denied());

    let run = RunOutcome::Ended { status: 0, blocked: Some((97, 1)) };
    let (output, reason) = sandbox().execute(&spec, run).unwrap();
    assert_eq!(output.blocked_syscall, Some((97, 1)));
    assert!(reason.is_denied());
}

#[test]
fn timed_out_runs_are_internal_errors() {
    let spec = CommandSpec::default().with_program("sleep").with_timeout(1500);
    let run = RunOutcome::TimedOut { status: 9, blocked: None };
    let (output, reason) = sandbox().execute(&spec, run).unwrap();
    assert_eq!(output.exit_code, 137);
    assert_eq!(
        reason,
        ExitReason::InternalError("command timed out after 1500 ms".to_string())
    );
    assert_eq!(
        report_exit(&reason),
        (125, Some("Internal error: command timed out after 1500 ms".to_string()))
    );
}

#[test]
fn failed_runs_name_the_program() {
    let spec = CommandSpec::default().with_program("ls > x");
    let error = sandbox().execute(&spec, RunOutcome::ForkFailed).unwrap_err();
    assert_eq!(error, ExecError::ForkFailed { program: "ls > x".to_string() });
    assert!(error.message().starts_with("fork() failed for 'ls > x'. Note: seabox does NOT"));
    let error = sandbox().execute(&spec, RunOutcome::WaitFailed).unwrap_err();
    assert_eq!(error.message(), "waitpid() failed for sandboxed process 'ls > x'");
}

#[test]
fn failed_runs_are_internal_errors() {
    let spec = CommandSpec::default().with_program("ls");
    let forked = sandbox().execute(&spec, RunOutcome::ForkFailed).unwrap_err();
    let (status, message) = report_failure(&forked);
    assert_eq!(status, 125);
    assert_eq!(message, forked.message());
    let waited = sandbox().execute(&spec, RunOutcome::WaitFailed).unwrap_err();
    assert_eq!(
        report_failure(&waited),
        (125, "waitpid() failed for sandboxed process 'ls'".to_string())
    );
    let missing = MountError::SourceMissing { number: 2, path: "/nowhere".to_string() };
    assert_eq!(
        report_failure(&ExecError::MountFailed { error: missing }),
        (
            125,
            "failed to prepare mount ops: mount #2: source path '/nowhere' does not exist"
                .to_string()
        )
    );
    assert_eq!(
        report_failure(&ExecError::SetupFailed { reason: "too many open files".to_string() }),
        (125, "too many open files".to_string())
    );
}

#[test]
fn reaped_children() {
    let blocked = Some((165, 0xc000_003e));
    assert_eq!(
        RunOutcome::reaped(true, 9, blocked),
        RunOutcome::TimedOut { status: 9, blocked }
    );
    assert_eq!(
        RunOutcome::reaped(false, 256, None),
        RunOutcome::Ended { status: 256, blocked: None }
    );
}

#[test]
fn denied_calls_are_named_by_the_table_of_the_sandbox() {
    let spec = CommandSpec::default().with_program("ls");
    for (arch, nr, audit) in
        [(Arch::X86_64, 165, 0xc000_003e), (Arch::Aarch64, 40, 0xc000_00b7)]
    {
        let sandbox =
            Sandbox::from_config(SandboxConfig::default(), Platform::Linux(arch), 1000).unwrap();
        let run = RunOutcome::reaped(false, 0, Some((nr, audit)));
        let (_, reason) = sandbox.execute(&spec, run).unwrap();
        match reason {
            ExitReason::Denied { mechanism, message } => {
                assert_eq!(mechanism, DenyMechanism::Seccomp);
                assert!(message.contains("syscall='mount' "), "{message}");
            }
            other => panic!("{other:?}"),
        }
    }
}

#[test]
fn waiting_for_a_child() {
    assert_eq!(wait_action(-1, 0, 100, false), WaitAction::Failed);
    assert_eq!(wait_action(7, 500, 100, false), WaitAction::Reaped);
    assert_eq!(wait_action(0, 100, 100, false), WaitAction::Kill);
    assert_eq!(wait_action(0, 95, 100, false), WaitAction::Sleep { millis: 5 });
    assert_eq!(wait_action(0, 10, 100, false), WaitAction::Sleep { millis: 10 });
    assert_eq!(wait_action(0, 500, 100, true), WaitAction::Sleep { millis: 10 });
}

#[test]
fn exit_statuses_of_the_sandbox() {
    assert_eq!(report_exit(&ExitReason::Success), (0, None));
    assert_eq!(report_exit(&ExitReason::Program(0)), (0, None));
    assert_eq!(
        report_exit(&ExitReason::Program(7)),
        (7, Some("[seabox] command failed (exit code 7)".to_string()))
    );
    assert_eq!(
        report_exit(&ExitReason::Program(-1)),
        (-1, Some("[seabox] command failed (exit code -1)".to_string()))
    );
    let denied = ExitReason::Denied {
        mechanism: DenyMechanism::Landlock,
        message: "no".to_string(),
    };
    assert_eq!(
        report_exit(&denied),
        (126, Some("Sandbox denial (Landlock): no".to_string()))
    );
    assert_eq!(DenyMechanism::Seccomp.name(), "Seccomp");
    assert_eq!(DenyMechanism::Unknown.name(), "Unknown");
}

#[test]
fn user_namespace_is_implied() {
    let linux = Platform::Linux(Arch::X86_64);
    let pid = || SandboxConfig::default().with_unshare_pid();
    assert!(Sandbox::from_config(pid(), linux, 1000).unwrap().config.namespaces.user);
    assert!(!Sandbox::from_config(pid(), linux, 0).unwrap().config.namespaces.user);
    let adds = SandboxConfig::default().with_cap_add("chown").unwrap();
    assert!(adds.into_sandbox(linux, 0).unwrap().config.namespaces.user);
    let drops = SandboxConfig::default().with_cap_drop("chown").unwrap();
    assert!(!drops.into_sandbox(linux, 1000).unwrap().config.namespaces.user);
    assert!(!sandbox().config.namespaces.user);
}

#[test]
fn other_platforms_are_refused() {
    let error = SandboxConfig::default().into_sandbox(Platform::Other, 0).unwrap_err();
    assert_eq!(
        error.message(),
        "sandbox-runtime requires Linux; the current platform is not supported"
    );
}
