//! Plans of children, the order of their steps, and what they hand over.

use seabox::capability::CapOp;
use seabox::config::{MountSpec, SandboxConfig};
use seabox::linux::caps::{CapStep, CAP_F_NEED_CAPSET};
use seabox::linux::child_setup::{
    enter_child, list_steps, recv_fd, send_fd, step_exit_code, ChildAction, ChildPlan, ChildRun,
    ChildStep, ControlMessage, NsOp, Reaper, RecvFdError, SCM_RIGHTS, SOL_SOCKET,
};
use seabox::linux::launch::{
    exec_candidates, filters_are_whole, id_map_line, list_ns_ops, resolve_exec_path, HostFacts,
};
use seabox::linux::mount::{MountError, MountProbe};
use seabox::linux::seccomp::{build_deny_filter, sock_filter, Arch};
use seabox::linux::LinuxSandbox;
use seabox::{CommandSpec, Platform, Sandbox};

fn facts(euid: u32) -> HostFacts {
    HostFacts {
        euid,
        uid: 1000,
        gid: 100,
        home: Some("/home/ann".to_string()),
        effective_caps: 0,
        bounding: Some(0),
        has_ruleset: false,
        mount_probes: vec![],
        exec_path: "/bin/ls".to_string(),
    }
}

fn plan_of(config: SandboxConfig, spec: &CommandSpec, facts: &HostFacts) -> ChildPlan {
    let sandbox = Sandbox::from_config(config, Platform::Linux(Arch::X86_64), facts.euid).unwrap();
    sandbox.prepare(spec, facts).unwrap()
}

#[test]
fn plan_of_a_plain_command() {
    let spec = CommandSpec::default()
        .with_program("ls")
        .with_args(vec!["-l".to_string(), "a\0b".to_string()])
        .with_cwd("~/work")
        .with_env("A", "1")
        .with_env("B", "x=y");
    let plan = plan_of(SandboxConfig::default(), &spec, &facts(1000));
    assert_eq!(plan.exec_path, "/bin/ls");
    assert_eq!(plan.argv, vec!["ls".to_string(), "-l".to_string(), String::new()]);
    assert_eq!(plan.envp, vec!["A=1".to_string(), "B=x=y".to_string()]);
    assert_eq!(plan.cwd, "/home/ann/work");
    assert!(plan.bpf_filter.is_empty());
    assert!(plan.ns_ops.is_empty());
    assert!(!plan.user_ns_active);
    assert_eq!(plan.uid_map, "1000 1000 1\n");
    assert_eq!(plan.gid_map, "100 100 1\n");
    assert_eq!(plan.caps.requested, 0);
    assert_eq!(plan.caps.flags, 0);
    let steps = list_steps(&plan);
    assert_eq!(
        steps,
        vec![ChildStep::Chdir, ChildStep::NoNewPrivs, ChildStep::IdMaps, ChildStep::Exec]
    );
}

#[test]
fn plan_of_a_full_sandbox() {
    let mut facts = facts(1000);
    facts.has_ruleset = true;
    facts.mount_probes =
        vec![MountProbe { target_exists: true, source_exists: true, source_flags: 0 }; 2];
    let filter = vec![6, 0, 0, 0, 0, 0, 0xff, 0x7f];
    let config = SandboxConfig::default()
        .with_unshare_all()
        .with_uid(0)
        .with_gid(0)
        .with_hostname("box")
        .with_network(true)
        .with_ro_bind("/usr", "/mnt")
        .with_tmpfs("/tmp")
        .with_seccomp_deny_nr(165)
        .with_seccomp_filter(vec![])
        .with_seccomp_filter(filter);
    let spec = CommandSpec::default().with_program("ls");
    let plan = plan_of(config, &spec, &facts);
    assert_eq!(plan.bpf_filter, build_deny_filter(Arch::X86_64, &vec![165]));
    assert_eq!(plan.ext_filters.len(), 2);
    assert_eq!(
        plan.ext_filters[1].data,
        vec![sock_filter { code: 6, jt: 0, jf: 0, k: 0x7fff_0000 }]
    );
    assert_eq!(plan.uid_map, "0 1000 1\n");
    assert_eq!(plan.gid_map, "0 100 1\n");
    assert_eq!(plan.hostname, "box");
    assert!(plan.configure_lo);
    assert!(plan.do_private);
    assert_eq!(plan.caps.flags, CAP_F_NEED_CAPSET);
    let strict = |flag: i32| ChildStep::Unshare(NsOp { flag, try_mode: 0 });
    assert_eq!(
        list_steps(&plan),
        vec![
            strict(libc::CLONE_NEWUSER),
            strict(libc::CLONE_NEWNS),
            strict(libc::CLONE_NEWIPC),
            strict(libc::CLONE_NEWNET),
            strict(libc::CLONE_NEWUTS),
            strict(libc::CLONE_NEWCGROUP),
            ChildStep::MakePrivate,
            ChildStep::Mount { index: 0 },
            ChildStep::Mount { index: 1 },
            ChildStep::Mount { index: 2 },
            ChildStep::PidNamespace,
            ChildStep::Chdir,
            ChildStep::NoNewPrivs,
            ChildStep::IdMaps,
            ChildStep::Loopback,
            ChildStep::Hostname,
            ChildStep::Landlock,
            ChildStep::Cap(CapStep::Capset { mask: 0 }),
            ChildStep::NotifFilter,
            ChildStep::SendListener,
            ChildStep::PlainFilter { index: 1 },
            ChildStep::Exec,
        ]
    );
}

#[test]
fn missing_mount_path_stops_the_plan() {
    let mut facts = facts(0);
    facts.mount_probes =
        vec![MountProbe { target_exists: true, source_exists: false, source_flags: 0 }];
    let sandbox = LinuxSandbox { config: SandboxConfig::default().with_bind("/s", "/d") };
    let error = sandbox.prepare(Arch::X86_64, &CommandSpec::default(), &facts).unwrap_err();
    assert_eq!(error, MountError::SourceMissing { number: 1, path: "/s".to_string() });
}

#[test]
fn filter_of_the_back_end() {
    let none = LinuxSandbox { config: SandboxConfig::default() };
    assert!(none.build_bpf_filter(Arch::X86_64).is_none());
    let some = LinuxSandbox { config: SandboxConfig::default().with_seccomp_deny_nr(97) };
    assert_eq!(
        some.build_bpf_filter(Arch::Aarch64),
        Some(build_deny_filter(Arch::Aarch64, &vec![97]))
    );
}

#[test]
fn soft_namespaces() {
    let mut ns = SandboxConfig::default().namespaces;
    ns.user_try = true;
    ns.cgroup_try = true;
    assert_eq!(
        list_ns_ops(&ns, false, false),
        vec![
            NsOp { flag: libc::CLONE_NEWUSER, try_mode: 1 },
            NsOp { flag: libc::CLONE_NEWCGROUP, try_mode: 1 },
        ]
    );
    ns.user_try = false;
    ns.cgroup_try = false;
    ns.cgroup = true;
    assert_eq!(
        list_ns_ops(&ns, true, false),
        vec![
            NsOp { flag: libc::CLONE_NEWUSER, try_mode: 0 },
            NsOp { flag: libc::CLONE_NEWCGROUP, try_mode: 0 },
        ]
    );
}

#[test]
fn host_name_stays_without_its_namespace() {
    let spec = CommandSpec::default().with_program("ls");
    let named = SandboxConfig::default().with_hostname("box");
    let plan = plan_of(named, &spec, &facts(0));
    assert_eq!(plan.hostname, "");
    assert!(plan.ns_ops.is_empty());
    assert!(!list_steps(&plan).contains(&ChildStep::Hostname));

    let mut apart = SandboxConfig::default().with_hostname("box");
    apart.namespaces.uts = true;
    let plan = plan_of(apart, &spec, &facts(0));
    assert_eq!(plan.hostname, "box");
    let steps = list_steps(&plan);
    let own = ChildStep::Unshare(NsOp { flag: libc::CLONE_NEWUTS, try_mode: 0 });
    let unshared = steps.iter().position(|step| *step == own).unwrap();
    let set = steps.iter().position(|step| *step == ChildStep::Hostname).unwrap();
    assert!(unshared < set);
}

#[test]
fn mounts_bring_their_namespace() {
    let spec = CommandSpec::default().with_program("ls");
    let own = NsOp { flag: libc::CLONE_NEWNS, try_mode: 0 };
    let mut config = SandboxConfig::default();
    config.mount.specs.push(MountSpec::tmpfs("/tmp"));
    assert!(!config.namespaces.mnt);
    let mut seen = facts(0);
    seen.mount_probes =
        vec![MountProbe { target_exists: true, source_exists: false, source_flags: 0 }];
    let plan = plan_of(config, &spec, &seen);
    assert_eq!(plan.ns_ops, vec![own]);
    assert_eq!(
        list_steps(&plan)[..3],
        [ChildStep::Unshare(own), ChildStep::MakePrivate, ChildStep::Mount { index: 0 }]
    );

    let mut enabled = SandboxConfig::default();
    enabled.mount.enabled = true;
    let plan = plan_of(enabled, &spec, &facts(0));
    assert_eq!(plan.ns_ops, vec![own]);
    assert!(plan.mount_ops.is_empty());
}

#[test]
fn added_capabilities_bring_a_user_namespace() {
    let spec = CommandSpec::default().with_program("ls");
    let op = CapOp::from_cli("CAP_NET_RAW", true).unwrap();
    let mut config = SandboxConfig::default();
    config.capabilities.ops.push(op);
    let plan = LinuxSandbox { config }.prepare(Arch::X86_64, &spec, &facts(1000)).unwrap();
    assert!(plan.user_ns_active);
    assert_eq!(plan.ns_ops, vec![NsOp { flag: libc::CLONE_NEWUSER, try_mode: 0 }]);
}

#[test]
fn filters_are_built_for_the_architecture_of_the_sandbox() {
    let spec = CommandSpec::default().with_program("ls");
    for arch in [Arch::X86_64, Arch::Aarch64] {
        let config = SandboxConfig::default().with_seccomp_deny_nr(97);
        let sandbox = Sandbox::from_config(config, Platform::Linux(arch), 1000).unwrap();
        let plan = sandbox.prepare(&spec, &facts(1000)).unwrap();
        assert_eq!(plan.bpf_filter, build_deny_filter(arch, &vec![97]));
        let config = SandboxConfig::default().with_seccomp_deny_nr(97);
        let plan = LinuxSandbox { config }.prepare(arch, &spec, &facts(1000)).unwrap();
        assert_eq!(plan.bpf_filter, build_deny_filter(arch, &vec![97]));
    }
    assert_ne!(
        build_deny_filter(Arch::X86_64, &vec![97]),
        build_deny_filter(Arch::Aarch64, &vec![97])
    );
}

#[test]
fn filters_of_whole_instructions() {
    assert!(filters_are_whole(&vec![vec![], vec![0; 16]]));
    assert!(!filters_are_whole(&vec![vec![0; 8], vec![0; 9]]));
}

#[test]
fn map_lines() {
    assert_eq!(id_map_line(0, 4_294_967_295), "0 4294967295 1\n");
}

#[test]
fn programs_are_looked_up() {
    let spec = CommandSpec::default().with_program("ls").with_env("PATH", "/a:/b/::");
    assert_eq!(
        exec_candidates(&spec, &Some("/c".to_string())),
        vec!["/a/ls".to_string(), "/b/ls".to_string(), "ls".to_string(), "ls".to_string()]
    );
    let spec = CommandSpec::default().with_program("ls");
    assert_eq!(exec_candidates(&spec, &Some("/c".to_string())), vec!["/c/ls".to_string()]);
    assert_eq!(
        exec_candidates(&spec, &None),
        vec!["/usr/bin/ls".to_string(), "/bin/ls".to_string()]
    );
    let spec = CommandSpec::default().with_program("./ls");
    assert!(exec_candidates(&spec, &None).is_empty());
}

#[test]
fn first_file_is_run() {
    let candidates = vec!["/a/ls".to_string(), "/b/ls".to_string()];
    assert_eq!(resolve_exec_path("ls", &candidates, &vec![false, true]), "/b/ls");
    assert_eq!(resolve_exec_path("ls", &candidates, &vec![true, true]), "/a/ls");
    assert_eq!(resolve_exec_path("ls", &candidates, &vec![false, false]), "ls");
    assert_eq!(resolve_exec_path("l\0s", &vec![], &vec![]), "");
}

#[test]
fn child_carries_the_steps_out() {
    let config = SandboxConfig::default().with_unshare_ipc();
    let plan = plan_of(config, &CommandSpec::default().with_program("ls"), &facts(0));
    let steps = list_steps(&plan);
    let mut run = ChildRun::new(&plan);
    let mut done = vec![];
    let mut action = enter_child(&mut run, &steps, 0);
    while let ChildAction::Do { step, .. } = action {
        done.push(step);
        if step == ChildStep::Exec {
            action = enter_child(&mut run, &steps, libc::ENOENT);
        } else {
            action = enter_child(&mut run, &steps, 0);
        }
    }
    assert_eq!(action, ChildAction::Exit { code: 127 });
    // Outside a user namespace the maps are not written.
    assert!(!done.contains(&ChildStep::IdMaps));
    assert_eq!(done.len(), steps.len() - 1);
}

#[test]
fn failed_soft_namespace_leaves_the_maps_alone() {
    let mut config = SandboxConfig::default();
    config.namespaces.user_try = true;
    let plan = plan_of(config, &CommandSpec::default().with_program("ls"), &facts(1000));
    let steps = list_steps(&plan);
    for (errno, written) in [(0, true), (libc::EPERM, false)] {
        let mut run = ChildRun::new(&plan);
        let mut done = vec![];
        let mut action = enter_child(&mut run, &steps, 0);
        while let ChildAction::Do { step, .. } = action {
            done.push(step);
            let soft = matches!(step, ChildStep::Unshare(_));
            action = enter_child(&mut run, &steps, if soft { errno } else { 0 });
        }
        assert_eq!(done.contains(&ChildStep::IdMaps), written);
        assert_eq!(run.user_ns_active, written);
    }
}

#[test]
fn strict_steps_end_the_child() {
    let config = SandboxConfig::default().with_unshare_uts();
    let plan = plan_of(config, &CommandSpec::default().with_program("ls"), &facts(0));
    let steps = list_steps(&plan);
    let mut run = ChildRun::new(&plan);
    let first = enter_child(&mut run, &steps, 0);
    assert_eq!(first, ChildAction::Do { index: 0, step: steps[0] });
    assert_eq!(enter_child(&mut run, &steps, libc::EPERM), ChildAction::Exit { code: 1 });
}

#[test]
fn exit_codes_of_steps() {
    let eperm = libc::EPERM;
    let strict = [
        ChildStep::Mount { index: 0 },
        ChildStep::PidNamespace,
        ChildStep::Chdir,
        ChildStep::NoNewPrivs,
        ChildStep::Landlock,
        ChildStep::NotifFilter,
        ChildStep::SendListener,
        ChildStep::PlainFilter { index: 0 },
    ];
    for step in strict {
        assert_eq!(step_exit_code(step, eperm), Some(1), "{step:?}");
        assert_eq!(step_exit_code(step, 0), None, "{step:?}");
    }
    let lenient =
        [ChildStep::MakePrivate, ChildStep::IdMaps, ChildStep::Loopback, ChildStep::Hostname];
    for step in lenient {
        assert_eq!(step_exit_code(step, eperm), None, "{step:?}");
    }
    let cap = ChildStep::Cap(CapStep::Capset { mask: 0 });
    assert_eq!(step_exit_code(cap, eperm), None);
    assert_eq!(step_exit_code(cap, libc::EINVAL), Some(1));
    assert_eq!(step_exit_code(ChildStep::Exec, libc::ENOENT), Some(127));
}

#[test]
fn reaper_passes_the_exit_code_on() {
    let mut reaper = Reaper::new(5);
    assert_eq!(reaper.do_reaper(9, 7 << 8), None);
    assert_eq!(reaper.do_reaper(5, 3 << 8), None);
    assert_eq!(reaper.do_reaper(8, 9), None);
    assert_eq!(reaper.do_reaper(-1, 0), Some(3));
    let mut silent = Reaper::new(5);
    assert_eq!(silent.do_reaper(-1, 0), Some(1));
    let mut killed = Reaper::new(5);
    assert_eq!(killed.do_reaper(5, 31), None);
    assert_eq!(killed.do_reaper(-1, 0), Some(159));
}

#[test]
fn listener_is_handed_over() {
    assert_eq!(SOL_SOCKET, libc::SOL_SOCKET);
    assert_eq!(SCM_RIGHTS, libc::SCM_RIGHTS);
    assert!(send_fd(24, true, 1));
    assert!(!send_fd(65, true, 1));
    assert!(!send_fd(24, false, 1));
    assert!(!send_fd(24, true, -1));
    let rights = ControlMessage { level: SOL_SOCKET, kind: SCM_RIGHTS, fd: 6 };
    assert_eq!(recv_fd(1, Some(rights)), Ok(6));
    assert_eq!(recv_fd(-1, Some(rights)), Err(RecvFdError::Os));
    assert_eq!(recv_fd(0, Some(rights)), Err(RecvFdError::Closed));
    assert_eq!(recv_fd(1, None), Err(RecvFdError::NoHeader));
    let other = ControlMessage { level: SOL_SOCKET, kind: 2, fd: 6 };
    assert_eq!(recv_fd(1, Some(other)), Err(RecvFdError::NotRights));
    assert_eq!(RecvFdError::Os.text(), "recvmsg failed");
    assert_eq!(
        RecvFdError::Closed.text(),
        "recvmsg returned 0: peer closed without sending fd"
    );
    assert_eq!(RecvFdError::NoHeader.text(), "recvmsg: no cmsg header");
    assert_eq!(RecvFdError::NotRights.text(), "recvmsg: cmsg is not SCM_RIGHTS");
}

#[test]
fn capabilities_are_given_up_by_default() {
    let spec = CommandSpec::default().with_program("ls");
    let drop_all = ChildStep::Cap(CapStep::Capset { mask: 0 });
    let root = plan_of(SandboxConfig::default(), &spec, &facts(0));
    assert!(list_steps(&root).contains(&drop_all));
    let user = plan_of(SandboxConfig::default().with_unshare_user(), &spec, &facts(1000));
    assert!(list_steps(&user).contains(&drop_all));
    let mut open = facts(0);
    open.bounding = Some(0b11);
    let config = SandboxConfig::default().with_cap_drop_all();
    let steps = list_steps(&plan_of(config, &spec, &open));
    assert!(steps.contains(&ChildStep::Cap(CapStep::DropBounding { cap: 0 })));
    assert!(steps.contains(&ChildStep::Cap(CapStep::DropBounding { cap: 40 })));
}

#[test]
fn added_capabilities_outlive_the_start() {
    let spec = CommandSpec::default().with_program("ls");
    let config = SandboxConfig::default().with_cap_add("chown").unwrap();
    let plan = plan_of(config, &spec, &facts(0));
    // Adding one brings a user namespace along, for root too.
    assert_eq!(plan.ns_ops[0], NsOp { flag: libc::CLONE_NEWUSER, try_mode: 0 });
    let steps = list_steps(&plan);
    assert!(steps.contains(&ChildStep::Cap(CapStep::Capset { mask: 1 })));
    assert!(steps.contains(&ChildStep::Cap(CapStep::RaiseAmbient { cap: 0 })));
    assert!(!steps.contains(&ChildStep::Cap(CapStep::RaiseAmbient { cap: 1 })));
}
