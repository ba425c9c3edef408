//! Mount options, the mount table and the calls for mounts.

use seabox::config::{MountConfig, MountSpec};
use seabox::linux::mount::{
    do_mounts, make_private, mount_failure_note, parse_mount_opts_flags, prepare_mount_ops,
    source_mount_flags, MountError, MountProbe, MountProgress, Propagation, MS_BIND, MS_NOATIME,
    MS_NODEV, MS_NODIRATIME, MS_NOEXEC, MS_NOSUID, MS_PRIVATE, MS_RDONLY, MS_REC, MS_RELATIME,
    MS_REMOUNT, MS_SLAVE, MS_STRICTATIME,
};

#[test]
fn parse_opts_flags_common() {
    let f = parse_mount_opts_flags("rw,nosuid,nodev,relatime");
    assert_ne!(f & MS_NOSUID, 0, "nosuid mapped");
    assert_ne!(f & MS_NODEV, 0, "nodev mapped");
    assert_ne!(f & MS_RELATIME, 0, "relatime mapped");
    assert_eq!(f & MS_RDONLY, 0, "rw not ro");
}

#[test]
fn parse_opts_flags_ro_and_atime() {
    let f = parse_mount_opts_flags("ro,noexec,noatime,nodiratime");
    assert_ne!(f & MS_RDONLY, 0);
    assert_ne!(f & MS_NOEXEC, 0);
    assert_ne!(f & MS_NOATIME, 0);
    assert_ne!(f & MS_NODIRATIME, 0);
}

#[test]
fn parse_opts_flags_unknown_ignored() {
    let f = parse_mount_opts_flags("rw,usrquota,grpquota");
    assert_eq!(f, 0);
}

#[test]
fn flags_agree_with_libc() {
    assert_eq!(MS_RDONLY, libc::MS_RDONLY);
    assert_eq!(MS_NOSUID, libc::MS_NOSUID);
    assert_eq!(MS_NODEV, libc::MS_NODEV);
    assert_eq!(MS_NOEXEC, libc::MS_NOEXEC);
    assert_eq!(MS_REMOUNT, libc::MS_REMOUNT);
    assert_eq!(MS_NOATIME, libc::MS_NOATIME);
    assert_eq!(MS_NODIRATIME, libc::MS_NODIRATIME);
    assert_eq!(MS_BIND, libc::MS_BIND);
    assert_eq!(MS_REC, libc::MS_REC);
    assert_eq!(MS_PRIVATE, libc::MS_PRIVATE);
    assert_eq!(MS_SLAVE, libc::MS_SLAVE);
    assert_eq!(MS_RELATIME, libc::MS_RELATIME);
    assert_eq!(MS_STRICTATIME, libc::MS_STRICTATIME);
}

#[test]
fn empty_and_repeated_options() {
    assert_eq!(parse_mount_opts_flags(""), 0);
    assert_eq!(parse_mount_opts_flags(",,ro,,ro"), MS_RDONLY);
    assert_eq!(parse_mount_opts_flags(" ro"), 0);
    assert_eq!(parse_mount_opts_flags("strictatime"), MS_STRICTATIME);
}

const TABLE: &str = "\
22 1 8:1 / / rw,relatime shared:1 - ext4 /dev/sda1 rw
23 22 0:21 / /home rw,nosuid shared:2 - ext4 /dev/sda2 rw
24 23 0:22 / /home/ann ro,nodev shared:3 - ext4 /dev/sda3 rw
25 22 0:23 / /home/an rw,noexec - tmpfs tmpfs rw
short line
";

#[test]
fn deepest_mount_counts() {
    assert_eq!(source_mount_flags(Some(TABLE), "/etc/passwd"), MS_RELATIME);
    assert_eq!(source_mount_flags(Some(TABLE), "/home/bob"), MS_NOSUID);
    assert_eq!(source_mount_flags(Some(TABLE), "/home/ann/x"), MS_RDONLY | MS_NODEV);
    assert_eq!(source_mount_flags(Some(TABLE), "/home/anna"), MS_NOSUID);
    assert_eq!(source_mount_flags(Some(TABLE), "/homestead"), MS_RELATIME);
}

#[test]
fn mount_point_itself_is_covered() {
    assert_eq!(source_mount_flags(Some(TABLE), "/home/ann"), MS_RDONLY | MS_NODEV);
    assert_eq!(source_mount_flags(Some(TABLE), "/home"), MS_NOSUID);
    assert_eq!(source_mount_flags(Some(TABLE), "/"), MS_RELATIME);
}

#[test]
fn missing_table_gives_no_flags() {
    assert_eq!(source_mount_flags(None, "/"), 0);
    assert_eq!(source_mount_flags(Some(""), "/"), 0);
}

#[test]
fn first_of_two_mounts_at_one_point() {
    let table = "1 1 0:1 / /a ro\n2 1 0:2 / /a nosuid\n";
    assert_eq!(source_mount_flags(Some(table), "/a/b"), MS_RDONLY);
}

fn there() -> MountProbe {
    MountProbe { target_exists: true, source_exists: true, source_flags: MS_NOSUID }
}

fn mounts(specs: Vec<MountSpec>) -> MountConfig {
    MountConfig { enabled: false, specs }
}

#[test]
fn calls_for_mounts() {
    let mut sized = MountSpec::tmpfs("/tmp");
    sized.data = Some("size=1G".to_string());
    let config = mounts(vec![
        MountSpec::bind("/src", "/dst"),
        MountSpec::ro_bind("/ro", "/mnt"),
        sized,
    ]);
    let ops = prepare_mount_ops(&config, &vec![there(), there(), there()]).unwrap();
    assert_eq!(ops.len(), 4);
    assert_eq!(ops[0].source, Some("/src".to_string()));
    assert_eq!(ops[0].target, "/dst");
    assert_eq!(ops[0].fstype, None);
    assert_eq!(ops[0].flags, MS_BIND | MS_REC);
    assert_eq!(ops[1].source, Some("/ro".to_string()));
    assert_eq!(ops[1].flags, MS_BIND | MS_REC);
    assert_eq!(ops[2].source, None);
    assert_eq!(ops[2].target, "/mnt");
    assert_eq!(ops[2].flags, MS_NOSUID | MS_BIND | MS_REMOUNT | MS_RDONLY | MS_REC);
    assert_eq!(ops[3].source, None);
    assert_eq!(ops[3].fstype, Some("tmpfs".to_string()));
    assert_eq!(ops[3].flags, MS_NOSUID | MS_NODEV);
    assert_eq!(ops[3].data, Some("size=1G".to_string()));
}

#[test]
fn other_types_take_no_call() {
    let mut odd = MountSpec::tmpfs("/proc");
    odd.fstype = "proc".to_string();
    let mut bare = MountSpec::bind("", "/dst");
    bare.source = None;
    let ops = prepare_mount_ops(&mounts(vec![odd, bare]), &vec![there(), there()]).unwrap();
    assert_eq!(ops.len(), 1);
    assert_eq!(ops[0].source, Some(String::new()));
}

#[test]
fn missing_paths_are_named() {
    let gone = MountProbe { target_exists: false, source_exists: false, source_flags: 0 };
    let half = MountProbe { target_exists: true, source_exists: false, source_flags: 0 };
    let config = mounts(vec![MountSpec::tmpfs("/t"), MountSpec::bind("/s", "/d")]);
    let error = prepare_mount_ops(&config, &vec![half, gone]).unwrap_err();
    assert_eq!(error, MountError::TargetMissing { number: 2, path: "/d".to_string() });
    assert_eq!(error.message(), "mount #2: target path '/d' does not exist");
    let error = prepare_mount_ops(&config, &vec![half, half]).unwrap_err();
    assert_eq!(error, MountError::SourceMissing { number: 2, path: "/s".to_string() });
    assert_eq!(error.message(), "mount #2: source path '/s' does not exist");
}

#[test]
fn tree_is_cut_off_in_two_attempts() {
    assert_eq!(make_private(None, None), Propagation::Try { flags: MS_PRIVATE | MS_REC });
    assert_eq!(make_private(Some(0), None), Propagation::Done { separated: true });
    assert_eq!(make_private(Some(-1), None), Propagation::Try { flags: MS_SLAVE | MS_REC });
    assert_eq!(make_private(Some(-1), Some(0)), Propagation::Done { separated: true });
    assert_eq!(make_private(Some(-1), Some(-1)), Propagation::Done { separated: false });
}

#[test]
fn list_of_mounts_ends_at_the_first_failure() {
    assert_eq!(do_mounts(2, 0, 0), MountProgress::Mount { index: 0 });
    assert_eq!(do_mounts(2, 1, 0), MountProgress::Mount { index: 1 });
    assert_eq!(do_mounts(2, 1, -1), MountProgress::Done { code: 1 });
    assert_eq!(do_mounts(2, 2, -1), MountProgress::Done { code: 2 });
    assert_eq!(do_mounts(2, 2, 0), MountProgress::Done { code: 0 });
    assert_eq!(do_mounts(0, 0, -1), MountProgress::Done { code: 0 });
    assert_eq!(mount_failure_note(12), "[sandbox-runtime] mount #12\n");
}
