//! Capability sets and the steps towards them.

use seabox::config::{CapOp, Capability, CapabilityConfig};
use seabox::linux::caps::{
    apply_caps, bounding_needs_drop, cap_step_survives, capset_args, current_effective,
    read_bounding_set, resolve_caps, CapData, CapStep, CAP_F_NEED_AMBIENT, CAP_F_NEED_BOUNDING,
    CAP_F_NEED_CAPSET, FULL_SET, LINUX_CAPABILITY_VERSION_3,
};

fn full_mask() -> u64 {
    (1u64 << 41) - 1
}

#[test]
fn full_set_is_all_capabilities() {
    assert_eq!(FULL_SET, full_mask());
}

#[test]
fn non_root_userns_no_ops() {
    let cfg = CapabilityConfig::default();
    let r = resolve_caps(&cfg, false, true, false, 0, None);
    assert_eq!(r.requested, 0);
    assert_ne!(r.flags & CAP_F_NEED_CAPSET, 0, "requested(0) != natural(full)");
    assert_eq!(r.flags & CAP_F_NEED_AMBIENT, 0);
    assert_eq!(r.flags & CAP_F_NEED_BOUNDING, 0);
}

#[test]
fn non_root_userns_cap_add_chown() {
    let cfg = CapabilityConfig {
        ops: vec![CapOp::Add(Capability::CHOWN)],
        inherit_base: false,
    };
    let r = resolve_caps(&cfg, false, true, false, 0, None);
    assert_eq!(r.requested, 1u64 << Capability::CHOWN.as_u16());
    assert_ne!(r.flags & CAP_F_NEED_CAPSET, 0);
    assert_ne!(r.flags & CAP_F_NEED_AMBIENT, 0);
    assert_eq!(r.flags & CAP_F_NEED_BOUNDING, 0);
}

#[test]
fn host_root_no_userns_default() {
    let cfg = CapabilityConfig::default();
    for bounding in [None, Some(0), Some(1), Some(full_mask())] {
        let r = resolve_caps(&cfg, true, false, false, full_mask(), bounding);
        assert_eq!(r.requested, 0);
        assert_ne!(r.flags & CAP_F_NEED_CAPSET, 0);
        assert_eq!(r.flags & CAP_F_NEED_AMBIENT, 0);
        match bounding {
            None => assert_ne!(r.flags & CAP_F_NEED_BOUNDING, 0),
            Some(bnd) if bnd != 0 => assert_ne!(r.flags & CAP_F_NEED_BOUNDING, 0),
            Some(_) => assert_eq!(r.flags & CAP_F_NEED_BOUNDING, 0),
        }
    }
}

#[test]
fn host_root_userns_non_root_uid_needs_ambient() {
    let cfg = CapabilityConfig {
        ops: vec![CapOp::Add(Capability::CHOWN)],
        inherit_base: false,
    };
    let r = resolve_caps(&cfg, true, true, false, 0, None);
    assert_ne!(r.flags & CAP_F_NEED_AMBIENT, 0);
}

#[test]
fn bounding_fail_closed_when_read_fails() {
    assert!(bounding_needs_drop(0, None));
    assert!(bounding_needs_drop(1u64 << Capability::CHOWN.as_u16(), None));
    assert!(!bounding_needs_drop(0, Some(0)));
    assert!(!bounding_needs_drop(full_mask(), Some(0)));
    assert!(bounding_needs_drop(0, Some(1)));
}

#[test]
fn ns_root_cap_add_all_no_flags() {
    let cfg = CapabilityConfig {
        ops: vec![CapOp::AddAll],
        inherit_base: false,
    };
    let r = resolve_caps(&cfg, false, true, true, 0, None);
    assert_eq!(r.requested, full_mask());
    assert_eq!(r.flags & CAP_F_NEED_CAPSET, 0, "requested == natural");
    assert_eq!(r.flags & CAP_F_NEED_AMBIENT, 0, "no ambient set for ns root");
    assert_eq!(r.flags & CAP_F_NEED_BOUNDING, 0);
}

#[test]
fn non_root_userns_cap_add_all_forces_capset() {
    let cfg = CapabilityConfig {
        ops: vec![CapOp::AddAll],
        inherit_base: false,
    };
    let r = resolve_caps(&cfg, false, true, false, 0, None);
    assert_eq!(r.requested, full_mask());
    assert_ne!(r.flags & CAP_F_NEED_AMBIENT, 0);
    assert_ne!(
        r.flags & CAP_F_NEED_CAPSET,
        0,
        "the ambient set takes only what is inheritable"
    );
    assert_eq!(r.flags & CAP_F_NEED_BOUNDING, 0);
}

#[test]
fn inherit_base_uses_current_effective() {
    let cfg = CapabilityConfig {
        ops: vec![],
        inherit_base: true,
    };
    let word = CapData { effective: 0x2100, permitted: 0, inheritable: 0 };
    let high = CapData { effective: 0x1, permitted: 0, inheritable: 0 };
    let effective = current_effective(0, &[word, high]);
    assert_eq!(effective, 0x1_0000_2100);
    let r = resolve_caps(&cfg, false, true, false, effective, None);
    assert_eq!(r.requested, effective);
}

#[test]
fn read_bounding_set_does_not_panic() {
    let _ = read_bounding_set(None);
    let _ = read_bounding_set(Some(""));
    let _ = read_bounding_set(Some("CapBnd:"));
}

#[test]
fn current_effective_does_not_panic() {
    let word = CapData { effective: u32::MAX, permitted: 0, inheritable: 0 };
    assert_eq!(current_effective(-1, &[word, word]), 0);
    assert_eq!(current_effective(0, &[word, word]), u64::MAX);
}

#[test]
fn bounding_set_is_read_from_status() {
    let status = "Name:\tcat\nCapEff:\t0000000000000000\nCapBnd:\t000001ffffffffff\nCapAmb:\t0\n";
    assert_eq!(read_bounding_set(Some(status)), Some(full_mask()));
    assert_eq!(read_bounding_set(Some("CapBnd: +Ff \r\nCapBnd: 1\n")), Some(255));
    assert_eq!(read_bounding_set(Some(" CapBnd: 1\n")), None);
    assert_eq!(read_bounding_set(Some("CapBnd: xyz\nCapBnd: 1\n")), None);
    assert_eq!(read_bounding_set(Some("CapBnd: 10000000000000000\n")), None);
    assert_eq!(read_bounding_set(Some("CapBnd: -1\n")), None);
}

#[test]
fn last_operation_on_a_capability_decides() {
    let cfg = CapabilityConfig {
        ops: vec![
            CapOp::AddAll,
            CapOp::Drop(Capability::CHOWN),
            CapOp::DropAll,
            CapOp::Add(Capability::KILL),
            CapOp::Add(Capability::CHOWN),
            CapOp::Drop(Capability::KILL),
        ],
        inherit_base: true,
    };
    let r = resolve_caps(&cfg, true, true, true, 0xff, None);
    assert_eq!(r.requested, 1);
}

#[test]
fn steps_in_order() {
    let steps = apply_caps(0b101, CAP_F_NEED_BOUNDING | CAP_F_NEED_CAPSET | CAP_F_NEED_AMBIENT);
    assert_eq!(steps[0], CapStep::TryCapset { mask: 0b101 | (1 << 8) });
    assert_eq!(steps[1], CapStep::DropBounding { cap: 1 });
    assert_eq!(steps[2], CapStep::DropBounding { cap: 3 });
    assert_eq!(steps[39], CapStep::DropBounding { cap: 40 });
    assert_eq!(steps[40], CapStep::Capset { mask: 0b101 });
    assert_eq!(steps[41], CapStep::RaiseAmbient { cap: 0 });
    assert_eq!(steps[42], CapStep::RaiseAmbient { cap: 2 });
    assert_eq!(steps.len(), 43);
    assert!(apply_caps(0b101, 0).is_empty());
    assert_eq!(apply_caps(0, CAP_F_NEED_CAPSET), vec![CapStep::Capset { mask: 0 }]);
}

#[test]
fn only_a_refused_capset_is_fatal() {
    assert!(cap_step_survives(CapStep::Capset { mask: 0 }, libc::EPERM));
    assert!(!cap_step_survives(CapStep::Capset { mask: 0 }, libc::EINVAL));
    assert!(cap_step_survives(CapStep::TryCapset { mask: 0 }, libc::EINVAL));
    assert!(cap_step_survives(CapStep::DropBounding { cap: 1 }, libc::EINVAL));
    assert!(cap_step_survives(CapStep::RaiseAmbient { cap: 1 }, libc::EPERM));
}

#[test]
fn set_in_two_words() {
    let (header, data) = capset_args(0x0000_0123_4567_89ab);
    assert_eq!(header.version, LINUX_CAPABILITY_VERSION_3);
    assert_eq!(header.pid, 0);
    assert_eq!(data[0].effective, 0x4567_89ab);
    assert_eq!(data[1].inheritable, 0x123);
    assert_eq!(current_effective(0, &data), 0x0000_0123_4567_89ab);
}
