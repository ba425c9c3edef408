//! Filters, the built-in list, and the listener.

use seabox::linux::seccomp::{
    build_blacklist_filter, build_deny_filter, decode_filter, install_user_notif_filter,
    seccomp_data, seccomp_notif, sock_filter, sock_fprog, syscall_by_name, syscall_by_nr,
    syscall_name, syscalls, target_arch_config, Arch, InstallError, NotifAction, NotifEvent,
    SyscallCategory, UserNotifWorker, AUDIT_ARCH_AARCH64, AUDIT_ARCH_X86_64, BLACKLIST,
    BLACKLIST_LEN, BPF_ABS, BPF_JEQ, BPF_JMP, BPF_K, BPF_LD, BPF_RET, BPF_W,
    SECCOMP_IOCTL_NOTIF_RECV, SECCOMP_IOCTL_NOTIF_SEND, SECCOMP_RET_ALLOW,
    SECCOMP_RET_KILL_PROCESS, SECCOMP_RET_USER_NOTIF,
};

const ARCHES: [Arch; 2] = [Arch::X86_64, Arch::Aarch64];

/// Runs a filter as the kernel does, for the instructions that occur.
fn evaluate(filter: &[sock_filter], nr: u32, arch: u32) -> u32 {
    let mut at: usize = 0;
    let mut acc: u32 = 0;
    loop {
        let insn = filter[at];
        at += 1;
        if insn.code == BPF_LD | BPF_W | BPF_ABS {
            acc = if insn.k == 0 { nr } else { arch };
        } else if insn.code == BPF_JMP | BPF_JEQ | BPF_K {
            at += if acc == insn.k { insn.jt as usize } else { insn.jf as usize };
        } else {
            assert_eq!(insn.code, BPF_RET | BPF_K);
            return insn.k;
        }
    }
}

#[test]
fn filter_length() {
    for arch in ARCHES {
        let filter = build_blacklist_filter(arch);
        assert_eq!(filter.len(), BLACKLIST.len() + 6);
    }
}

#[test]
fn first_insn_loads_arch() {
    let filter = build_blacklist_filter(Arch::X86_64);
    let insn = &filter[0];
    assert_eq!(insn.code, BPF_LD | BPF_W | BPF_ABS, "insn 0: must load word from absolute offset");
    assert_eq!(insn.k, 4, "insn 0: must load from seccomp_data.arch (offset 4)");
}

#[test]
fn third_insn_is_arch_kill() {
    let filter = build_blacklist_filter(Arch::X86_64);
    let insn = &filter[2];
    assert_eq!(insn.code, BPF_RET | BPF_K, "insn 2: must be RET");
    assert_eq!(insn.k, SECCOMP_RET_KILL_PROCESS, "insn 2: must return KILL_PROCESS");
}

#[test]
fn arch_check_jump_target() {
    let filter = build_blacklist_filter(Arch::X86_64);
    let insn = &filter[1];
    assert_eq!(insn.code, BPF_JMP | BPF_JEQ | BPF_K);
    assert_eq!(insn.jt, 1, "arch match should skip the RET KILL");
    assert_eq!(insn.jf, 0, "arch mismatch should fall into RET KILL");
}

#[test]
fn last_insn_is_user_notif() {
    let filter = build_blacklist_filter(Arch::X86_64);
    let insn = filter.last().unwrap();
    assert_eq!(insn.code, BPF_RET | BPF_K);
    assert_eq!(insn.k, SECCOMP_RET_USER_NOTIF);
}

#[test]
fn second_last_insn_is_allow() {
    let filter = build_blacklist_filter(Arch::X86_64);
    let insn = &filter[filter.len() - 2];
    assert_eq!(insn.code, BPF_RET | BPF_K);
    assert_eq!(insn.k, SECCOMP_RET_ALLOW);
}

#[test]
fn blacklist_jumps_target_die() {
    for arch in ARCHES {
        let filter = build_blacklist_filter(arch);
        let die_index = filter.len() - 1;
        let end = BLACKLIST.len() + 4;
        for (i, insn) in filter[4..end].iter().enumerate() {
            let insn_idx = 4 + i;
            let expected_jt = (die_index - insn_idx - 1) as u8;
            assert_eq!(insn.code, BPF_JMP | BPF_JEQ | BPF_K, "insn {}: expected JEQ opcode", insn_idx);
            assert_eq!(insn.jt, expected_jt, "insn {}: jt should skip to die", insn_idx);
            assert_eq!(insn.jf, 0, "insn {}: jf should fall through to next check", insn_idx);
        }
    }
}

#[test]
fn arch_constant_is_valid() {
    let (arch, _nrs) = target_arch_config(Arch::X86_64);
    assert_eq!(arch, AUDIT_ARCH_X86_64);
    let (arch, _nrs) = target_arch_config(Arch::Aarch64);
    assert_eq!(arch, AUDIT_ARCH_AARCH64);
}

#[test]
fn syscall_nrs_count() {
    assert_eq!(BLACKLIST.len(), BLACKLIST_LEN);
}

#[test]
fn unshare_is_97() {
    let unshare = syscalls()
        .into_iter()
        .find(|s| s.name == "unshare")
        .expect("the list must contain unshare");
    assert_eq!(unshare.nr_x86_64, 97, "unshare must be syscall 97 on x86_64");
    assert_eq!(unshare.nr_aarch64, 97, "unshare must be syscall 97 on aarch64");
}

#[test]
fn no_duplicate_syscall_nrs() {
    let all = syscalls();
    let mut x86_nrs: Vec<u32> = all.iter().map(|s| s.nr_x86_64).collect();
    x86_nrs.sort();
    x86_nrs.dedup();
    assert_eq!(x86_nrs.len(), all.len(), "x86_64 syscall numbers must be unique");

    let mut arm_nrs: Vec<u32> = all.iter().map(|s| s.nr_aarch64).collect();
    arm_nrs.sort();
    arm_nrs.dedup();
    assert_eq!(arm_nrs.len(), all.len(), "aarch64 syscall numbers must be unique");
}

#[test]
fn syscall_name_resolves() {
    assert_eq!(syscall_name(Arch::X86_64, 165), Some("mount"));
    assert_eq!(syscall_name(Arch::X86_64, 97), Some("unshare"));
    assert_eq!(syscall_name(Arch::X86_64, 357), Some("bpf"));
    assert_eq!(syscall_name(Arch::Aarch64, 40), Some("mount"));
    assert_eq!(syscall_name(Arch::Aarch64, 97), Some("unshare"));
    assert_eq!(syscall_name(Arch::Aarch64, 280), Some("bpf"));
    assert_eq!(syscall_name(Arch::X86_64, 0), None);
}

#[test]
fn syscall_by_name_resolves() {
    let mount = syscall_by_name("mount").expect("mount must be present");
    assert_eq!(mount.category, SyscallCategory::MountFilesystem);
    assert_eq!(mount.category.tag(), "mount");

    let ptrace = syscall_by_name("ptrace").expect("ptrace must be present");
    assert_eq!(ptrace.category, SyscallCategory::DebugTrace);
    assert_eq!(ptrace.category.tag(), "debug");

    let bpf = syscall_by_name("bpf").expect("bpf must be present");
    assert_eq!(bpf.category, SyscallCategory::BpfLoader);
    assert_eq!(bpf.category.tag(), "bpf");

    assert!(syscall_by_name("open").is_none());
}

#[test]
fn the_whole_list() {
    let expected: [(&str, &str, u32, u32); 13] = [
        ("mount", "mount", 165, 40),
        ("umount2", "mount", 166, 39),
        ("pivot_root", "mount", 155, 41),
        ("chroot", "mount", 161, 51),
        ("ptrace", "debug", 101, 117),
        ("kexec_load", "boot", 246, 104),
        ("kexec_file_load", "boot", 320, 294),
        ("reboot", "boot", 169, 142),
        ("init_module", "module", 175, 105),
        ("finit_module", "module", 313, 106),
        ("delete_module", "module", 176, 107),
        ("unshare", "namespace", 97, 97),
        ("bpf", "bpf", 357, 280),
    ];
    for (entry, (name, tag, x86, arm)) in syscalls().iter().zip(expected) {
        assert_eq!(entry.name, name);
        assert_eq!(entry.category.tag(), tag);
        assert_eq!(entry.nr(Arch::X86_64), x86);
        assert_eq!(entry.nr(Arch::Aarch64), arm);
        assert_eq!(syscall_by_nr(Arch::X86_64, x86).unwrap().name, name);
    }
}

#[test]
fn blacklist_indices_valid() {
    let count = syscalls().len();
    assert!(
        BLACKLIST.iter().all(|&i| i < count),
        "every index must be on the list"
    );
}

#[test]
fn category_tags_are_kebab_case() {
    let categories = [
        SyscallCategory::MountFilesystem,
        SyscallCategory::DebugTrace,
        SyscallCategory::Boot,
        SyscallCategory::KernelModule,
        SyscallCategory::Namespace,
        SyscallCategory::BpfLoader,
    ];
    for c in &categories {
        let tag = c.tag();
        assert!(!tag.is_empty(), "tag must not be empty");
        assert!(!tag.contains(' '), "tag must not contain spaces: {tag:?}");
        assert!(!tag.contains('_'), "tag must not contain underscores: {tag:?}");
        assert!(
            tag.chars().all(|ch| ch.is_ascii_lowercase()),
            "tag must be all lowercase: {tag:?}"
        );
    }
}

#[test]
fn ioctl_numbers_have_expected_direction() {
    assert_eq!(SECCOMP_IOCTL_NOTIF_RECV, 0xC050_2100);
    assert_eq!(SECCOMP_IOCTL_NOTIF_SEND, 0xC018_2101);
    assert_eq!(
        SECCOMP_IOCTL_NOTIF_RECV & 0xC000_0000,
        0xC000_0000,
        "SECCOMP_IOCTL_NOTIF_RECV must be an IOWR (read+write) ioctl"
    );
    assert_eq!(
        SECCOMP_IOCTL_NOTIF_SEND & 0xC000_0000,
        0xC000_0000,
        "SECCOMP_IOCTL_NOTIF_SEND must be an IOWR (read+write) ioctl"
    );
    assert_eq!((SECCOMP_IOCTL_NOTIF_RECV >> 8) & 0xff, b'!' as libc::c_ulong);
    assert_eq!((SECCOMP_IOCTL_NOTIF_SEND >> 8) & 0xff, b'!' as libc::c_ulong);
    assert_eq!(SECCOMP_IOCTL_NOTIF_RECV & 0xff, 0);
    assert_eq!(SECCOMP_IOCTL_NOTIF_SEND & 0xff, 1);
    assert_eq!((SECCOMP_IOCTL_NOTIF_RECV >> 16) & 0x3FFF, 80);
    assert_eq!((SECCOMP_IOCTL_NOTIF_SEND >> 16) & 0x3FFF, 24);
}

#[test]
fn constants_agree_with_the_system() {
    assert_eq!(SECCOMP_RET_KILL_PROCESS, libc::SECCOMP_RET_KILL_PROCESS);
    assert_eq!(SECCOMP_RET_USER_NOTIF, libc::SECCOMP_RET_USER_NOTIF);
    assert_eq!(SECCOMP_RET_ALLOW, libc::SECCOMP_RET_ALLOW);
}

#[test]
fn deny_filter_decides() {
    for arch in ARCHES {
        let filter = build_deny_filter(arch, &vec![165, 97]);
        let audit = arch.audit();
        assert_eq!(evaluate(&filter, 165, audit), SECCOMP_RET_USER_NOTIF);
        assert_eq!(evaluate(&filter, 97, audit), SECCOMP_RET_USER_NOTIF);
        assert_eq!(evaluate(&filter, 0, audit), SECCOMP_RET_ALLOW);
        assert_eq!(evaluate(&filter, 165, audit + 1), SECCOMP_RET_KILL_PROCESS);
    }
}

#[test]
fn long_deny_lists_decide_too() {
    for count in [0u32, 1, 254, 255, 256, 257, 600] {
        let nrs: Vec<u32> = (0..count).map(|i| i * 2).collect();
        let filter = build_deny_filter(Arch::X86_64, &nrs);
        for nr in [0u32, 1, 2, 507, 508, 509, 510, 511, 512, 1198, 1199, 1200] {
            let expected = if nrs.contains(&nr) {
                SECCOMP_RET_USER_NOTIF
            } else {
                SECCOMP_RET_ALLOW
            };
            assert_eq!(evaluate(&filter, nr, AUDIT_ARCH_X86_64), expected, "{count} {nr}");
        }
    }
}

#[test]
fn filters_are_decoded() {
    let bytes = vec![0x15, 0x00, 0x01, 0x02, 0xa5, 0x01, 0x02, 0x03, 0x06, 0x01, 0, 0, 0, 0, 0xff, 0x7f];
    let filter = decode_filter(&bytes);
    assert_eq!(
        filter,
        vec![
            sock_filter { code: 0x15, jt: 1, jf: 2, k: 0x0302_01a5 },
            sock_filter { code: 0x106, jt: 0, jf: 0, k: 0x7fff_0000 },
        ]
    );
    assert!(decode_filter(&vec![]).is_empty());
    let program = sock_fprog::new(filter);
    assert_eq!(program.len, 2);
}

fn report(id: u64, nr: i32, arch: u32) -> seccomp_notif {
    seccomp_notif {
        id,
        pid: 7,
        flags: 0,
        data: seccomp_data { nr, arch, instruction_pointer: 0, args: [0; 6] },
    }
}

#[test]
fn listener_refuses_and_remembers() {
    let mut worker = UserNotifWorker::new();
    assert_eq!(worker.step(NotifEvent::Listener { arrived: true }), NotifAction::Poll);
    assert_eq!(worker.step(NotifEvent::Polled { result: 1, revents: 0 }), NotifAction::Poll);
    assert_eq!(worker.step(NotifEvent::Polled { result: 1, revents: 1 }), NotifAction::Receive);
    assert_eq!(worker.blocked, None);
    let action = worker.step(NotifEvent::Received { result: 0, notif: report(9, 165, AUDIT_ARCH_X86_64) });
    match action {
        NotifAction::Answer(resp) => {
            assert_eq!(resp.id, 9);
            assert_eq!(resp.val, 0);
            assert_eq!(resp.error, libc::EPERM);
            assert_eq!(resp.flags, 0);
        }
        other => panic!("unexpected action {other:?}"),
    }
    assert_eq!(worker.blocked, Some((165, AUDIT_ARCH_X86_64)));
    assert_eq!(worker.step(NotifEvent::Answered { result: 0 }), NotifAction::Poll);
    worker.step(NotifEvent::Received { result: 0, notif: report(10, -1, 5) });
    assert_eq!(worker.blocked, Some((u32::MAX, 5)));
    assert_eq!(
        worker.step(NotifEvent::Received { result: -1, notif: report(11, 1, 1) }),
        NotifAction::Stop
    );
    assert_eq!(worker.blocked, Some((u32::MAX, 5)));
}

#[test]
fn listener_stops() {
    let mut worker = UserNotifWorker::new();
    assert_eq!(worker.step(NotifEvent::Listener { arrived: false }), NotifAction::Stop);
    assert_eq!(worker.step(NotifEvent::Polled { result: -1, revents: 1 }), NotifAction::Stop);
    assert_eq!(worker.step(NotifEvent::Answered { result: -1 }), NotifAction::Stop);
    assert_eq!(worker.blocked, None);
}

#[test]
fn installing_a_filter() {
    assert_eq!(install_user_notif_filter(0, 5), Ok(5));
    assert_eq!(install_user_notif_filter(-1, 5), Err(InstallError::NoNewPrivs));
    assert_eq!(install_user_notif_filter(0, -1), Err(InstallError::Seccomp));
    assert_eq!(InstallError::NoNewPrivs.text(), "prctl(PR_SET_NO_NEW_PRIVS) failed");
    assert_eq!(
        InstallError::Seccomp.text(),
        "seccomp(SECCOMP_SET_MODE_FILTER, NEW_LISTENER) failed"
    );
}
