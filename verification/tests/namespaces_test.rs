//! Namespace flags, probes, wait statuses and the loopback interface.

use seabox::linux::errno::{EPERM, ENOENT};
use seabox::linux::namespaces::{
    exit_code, fork_and_try_net, fork_and_try_unshare, probe_exit_code, setup_user_ns,
    unshare_flags, write_ns_file, NetProbe, UserNsFile, UserNsSetup, WriteProgress, CLONE_NEWCGROUP,
    CLONE_NEWIPC, CLONE_NEWNET, CLONE_NEWNS, CLONE_NEWPID, CLONE_NEWUSER, CLONE_NEWUTS,
};
use seabox::linux::net::{
    configure_loopback, netlink_send_recv, newaddr_message, newlink_message, nlmsg_align,
    LoopbackAction, LoopbackEvent, LoopbackFailure,
};

#[test]
fn test_unshare_flags_all() {
    let flags = unshare_flags(true, true, true, true, true, true);
    assert!(
        flags & libc::CLONE_NEWUSER != 0,
        "CLONE_NEWUSER must be set"
    );
    assert!(flags & libc::CLONE_NEWIPC != 0, "CLONE_NEWIPC must be set");
    assert!(flags & libc::CLONE_NEWPID != 0, "CLONE_NEWPID must be set");
    assert!(flags & libc::CLONE_NEWNET != 0, "CLONE_NEWNET must be set");
    assert!(flags & libc::CLONE_NEWUTS != 0, "CLONE_NEWUTS must be set");
    assert!(
        flags & libc::CLONE_NEWCGROUP != 0,
        "CLONE_NEWCGROUP must be set"
    );
    let all_known = libc::CLONE_NEWUSER
        | libc::CLONE_NEWIPC
        | libc::CLONE_NEWPID
        | libc::CLONE_NEWNET
        | libc::CLONE_NEWUTS
        | libc::CLONE_NEWCGROUP;
    assert_eq!(flags & !all_known, 0, "no unknown bits should be set");
}

#[test]
fn test_unshare_flags_none() {
    let flags = unshare_flags(false, false, false, false, false, false);
    assert_eq!(flags, 0, "all flags false => 0");
}

#[test]
fn test_unshare_flags_partial() {
    let flags = unshare_flags(true, false, false, true, false, false);
    assert!(
        flags & libc::CLONE_NEWUSER != 0,
        "CLONE_NEWUSER must be set"
    );
    assert!(flags & libc::CLONE_NEWNET != 0, "CLONE_NEWNET must be set");
    assert_eq!(flags & libc::CLONE_NEWIPC, 0, "CLONE_NEWIPC must NOT be set");
    assert_eq!(flags & libc::CLONE_NEWPID, 0, "CLONE_NEWPID must NOT be set");
    assert_eq!(flags & libc::CLONE_NEWUTS, 0, "CLONE_NEWUTS must NOT be set");
    assert_eq!(
        flags & libc::CLONE_NEWCGROUP,
        0,
        "CLONE_NEWCGROUP must NOT be set"
    );
}

#[test]
fn namespace_numbers_agree_with_libc() {
    assert_eq!(CLONE_NEWNS, libc::CLONE_NEWNS);
    assert_eq!(CLONE_NEWCGROUP, libc::CLONE_NEWCGROUP);
    assert_eq!(CLONE_NEWUTS, libc::CLONE_NEWUTS);
    assert_eq!(CLONE_NEWIPC, libc::CLONE_NEWIPC);
    assert_eq!(CLONE_NEWUSER, libc::CLONE_NEWUSER);
    assert_eq!(CLONE_NEWPID, libc::CLONE_NEWPID);
    assert_eq!(CLONE_NEWNET, libc::CLONE_NEWNET);
    assert_eq!(EPERM, libc::EPERM);
    assert_eq!(ENOENT, libc::ENOENT);
}

#[test]
fn files_are_written_to_the_end() {
    assert_eq!(write_ns_file(10, 0, 4), WriteProgress::Write { from: 4 });
    assert_eq!(write_ns_file(10, 4, 0), WriteProgress::Write { from: 4 });
    assert_eq!(write_ns_file(10, 4, 6), WriteProgress::Done);
    assert_eq!(write_ns_file(10, 4, -1), WriteProgress::Failed);
    assert_eq!(write_ns_file(0, 0, 0), WriteProgress::Done);
}

#[test]
fn user_namespace_files_in_order() {
    assert_eq!(setup_user_ns(None), UserNsSetup::Write(UserNsFile::UidMap));
    assert_eq!(
        setup_user_ns(Some((UserNsFile::UidMap, 0))),
        UserNsSetup::Write(UserNsFile::Setgroups)
    );
    assert_eq!(
        setup_user_ns(Some((UserNsFile::Setgroups, libc::ENOENT))),
        UserNsSetup::Write(UserNsFile::GidMap)
    );
    assert_eq!(setup_user_ns(Some((UserNsFile::GidMap, 0))), UserNsSetup::Done);
    assert_eq!(
        setup_user_ns(Some((UserNsFile::UidMap, libc::ENOENT))),
        UserNsSetup::Failed { errno: libc::ENOENT }
    );
    assert_eq!(
        setup_user_ns(Some((UserNsFile::Setgroups, libc::EPERM))),
        UserNsSetup::Failed { errno: libc::EPERM }
    );
}

#[test]
fn probes_tell_what_the_child_found() {
    assert_eq!(probe_exit_code(0), 0);
    assert_eq!(probe_exit_code(-1), 1);
    assert!(fork_and_try_unshare(5, 5, 0));
    assert!(!fork_and_try_unshare(5, 5, 1 << 8));
    assert!(!fork_and_try_unshare(5, 5, 9));
    assert!(!fork_and_try_unshare(-1, 5, 0));
    assert!(!fork_and_try_unshare(5, -1, 0));
}

#[test]
fn network_probe_falls_back_to_a_user_namespace() {
    let net = NetProbe::Unshare { flag: libc::CLONE_NEWNET };
    let user = NetProbe::Unshare { flag: libc::CLONE_NEWUSER };
    assert_eq!(fork_and_try_net(&[]), net);
    assert_eq!(fork_and_try_net(&[0]), NetProbe::Exit { code: 0 });
    assert_eq!(fork_and_try_net(&[-1]), user);
    assert_eq!(fork_and_try_net(&[-1, -1]), NetProbe::Exit { code: 1 });
    assert_eq!(fork_and_try_net(&[-1, 0]), net);
    assert_eq!(fork_and_try_net(&[-1, 0, 0]), NetProbe::Exit { code: 0 });
    assert_eq!(fork_and_try_net(&[-1, 0, -1]), NetProbe::Exit { code: 1 });
}

#[test]
fn exit_codes_of_wait_statuses() {
    assert_eq!(exit_code(0, -1), 0);
    assert_eq!(exit_code(42 << 8, -1), 42);
    assert_eq!(exit_code(255 << 8, -1), 255);
    assert_eq!(exit_code(9, -1), 137);
    assert_eq!(exit_code(31 | 0x80, -1), 159);
    assert_eq!(exit_code(0x137f, -1), -1);
    assert_eq!(exit_code(0x137f, 1), 1);
}

#[test]
fn wait_status_macros_agree() {
    for status in [0, 1, 9, 0x7f, 0x80, 0x89, 0x100, 0xff00, 0x137f, 0xffff, -1] {
        assert_eq!(libc::WIFEXITED(status), status & 0x7f == 0, "{status}");
        assert_eq!(libc::WEXITSTATUS(status), (status >> 8) & 0xff, "{status}");
        let low = status & 0x7f;
        assert_eq!(libc::WIFSIGNALED(status), 0 < low && low < 0x7f, "{status}");
        assert_eq!(libc::WTERMSIG(status), low, "{status}");
    }
}

#[test]
fn address_request() {
    let message = newaddr_message(0x0102_0304);
    let expected: [u8; 40] = [
        40, 0, 0, 0, 20, 0, 0x05, 0x06, 1, 0, 0, 0, 0, 0, 0, 0, // header
        2, 8, 0, 0, 4, 3, 2, 1, // family, prefix, flags, scope, index
        8, 0, 2, 0, 127, 0, 0, 1, // local address
        8, 0, 1, 0, 127, 0, 0, 1, // address
    ];
    assert_eq!(message, expected);
}

#[test]
fn link_request() {
    let message = newlink_message(1);
    let expected: [u8; 32] = [
        32, 0, 0, 0, 16, 0, 0x05, 0, 2, 0, 0, 0, 0, 0, 0, 0, // header
        0, 0, 0, 0, 1, 0, 0, 0, // family, type, index
        1, 0, 0, 0, 1, 0, 0, 0, // flags, mask
    ];
    assert_eq!(message, expected);
}

#[test]
fn lengths_are_rounded_up() {
    assert_eq!(nlmsg_align(0), 0);
    assert_eq!(nlmsg_align(1), 4);
    assert_eq!(nlmsg_align(4), 4);
    assert_eq!(nlmsg_align(8), 8);
    assert_eq!(nlmsg_align(9), 12);
}

#[test]
fn acknowledgement_is_an_error_of_zero() {
    let mut reply = [0xffu8; 36];
    assert!(!netlink_send_recv(40, 36, &reply));
    for byte in &mut reply[16..20] {
        *byte = 0;
    }
    assert!(netlink_send_recv(40, 36, &reply));
    assert!(netlink_send_recv(40, 20, &reply));
    assert!(!netlink_send_recv(40, 19, &reply));
    assert!(!netlink_send_recv(-1, 36, &reply));
    assert!(!netlink_send_recv(40, -1, &reply));
}

#[test]
fn loopback_comes_up_step_by_step() {
    assert_eq!(configure_loopback(LoopbackEvent::Start), LoopbackAction::OpenSocket);
    assert_eq!(configure_loopback(LoopbackEvent::Socket { fd: 3 }), LoopbackAction::LookUp);
    assert_eq!(
        configure_loopback(LoopbackEvent::Index { lo_index: 1 }),
        LoopbackAction::SendAddress { lo_index: 1 }
    );
    assert_eq!(
        configure_loopback(LoopbackEvent::Address { done: true, lo_index: 1 }),
        LoopbackAction::SendLink { lo_index: 1 }
    );
    assert_eq!(
        configure_loopback(LoopbackEvent::Link { done: true }),
        LoopbackAction::Done
    );
}

#[test]
fn loopback_failures() {
    let failures = [
        (LoopbackEvent::Socket { fd: -1 }, LoopbackFailure::Socket),
        (LoopbackEvent::Index { lo_index: 0 }, LoopbackFailure::Index),
        (LoopbackEvent::Address { done: false, lo_index: 1 }, LoopbackFailure::Address),
        (LoopbackEvent::Link { done: false }, LoopbackFailure::Link),
    ];
    for (event, failure) in failures {
        assert_eq!(configure_loopback(event), LoopbackAction::Fail(failure));
    }
    assert_eq!(LoopbackFailure::Socket.text(), "socket(AF_NETLINK) failed\0");
    assert_eq!(LoopbackFailure::Index.text(), "if_nametoindex('lo') failed\0");
    assert_eq!(LoopbackFailure::Address.text(), "RTM_NEWADDR failed\0");
    assert_eq!(LoopbackFailure::Link.text(), "RTM_NEWLINK failed\0");
}
