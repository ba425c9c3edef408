//! Configuration: builders, permissions, rules, capabilities, the home
//! directory.

use seabox::config::{
    expand_perm, expand_tilde, expand_tilde_with, is_known_perm, landlock_spec_is_known,
    parse_landlock_spec, CapOp, Capability, CapabilityConfig, MountSpec, NamespacesConfig,
    NetworkConfig, SandboxConfig,
};
use seabox::linux::mount::{MS_BIND, MS_NODEV, MS_NOSUID, MS_REC};
use seabox::LandlockPerm;

#[test]
fn config_test_expand_tilde() {
    let result = expand_tilde("~/test");
    assert!(!result.starts_with("~/"), "tilde should be expanded");
    assert!(result.ends_with("/test"), "suffix should be preserved");

    let just_tilde = expand_tilde("~");
    assert!(!just_tilde.starts_with('~'), "bare tilde should expand");

    assert_eq!(expand_tilde("/tmp/foo"), "/tmp/foo");
    assert_eq!(expand_tilde("relative/path"), "relative/path");
}

#[test]
fn config_test_test_expand_tilde() {
    let expanded = expand_tilde("~/projects");
    assert!(!expanded.starts_with("~/"));
    assert!(expanded.ends_with("/projects"));

    let bare = expand_tilde("~");
    assert!(!bare.starts_with('~'), "bare tilde should expand");

    assert_eq!(expand_tilde("~otheruser"), "~otheruser");
    assert_eq!(expand_tilde("/absolute/path"), "/absolute/path");
    assert_eq!(expand_tilde("relative/path"), "relative/path");
}

#[test]
fn expand_tilde_with_given_home() {
    let home = Some("/home/ann".to_string());
    assert_eq!(expand_tilde_with("~", &home), "/home/ann");
    assert_eq!(expand_tilde_with("~/x~y", &home), "/home/ann/x~y");
    assert_eq!(expand_tilde_with("~bob/x", &home), "~bob/x");
    assert_eq!(expand_tilde_with("a/~/b", &home), "a/~/b");
    assert_eq!(expand_tilde_with("", &home), "");
    assert_eq!(expand_tilde_with("~/x", &None), "~/x");
}

#[test]
fn test_expand_perm_ro() {
    let perms = expand_perm("ro");
    assert_eq!(perms.len(), 3);
    assert!(perms.contains(&LandlockPerm::Execute));
    assert!(perms.contains(&LandlockPerm::ReadFile));
    assert!(perms.contains(&LandlockPerm::ReadDir));
}

#[test]
fn test_expand_perm_all() {
    let perms = expand_perm("all");
    assert!(perms.contains(&LandlockPerm::Refer));
    assert!(perms.contains(&LandlockPerm::IoctlDev));
    assert!(perms.contains(&LandlockPerm::MakeSock));
    assert!(perms.contains(&LandlockPerm::WriteFile));
}

#[test]
fn presets_have_their_sizes() {
    assert_eq!(expand_perm("rx"), expand_perm("ro"));
    assert_eq!(expand_perm("rw").len(), 10);
    assert_eq!(expand_perm("rwx").len(), 14);
    assert_eq!(expand_perm("all").len(), 16);
    let smaller = [("ro", "rw"), ("rw", "rwx"), ("rwx", "all")];
    for (less, more) in smaller {
        let all = expand_perm(more);
        assert!(expand_perm(less).iter().all(|perm| all.contains(perm)));
    }
}

#[test]
fn single_permissions_by_name() {
    let names = [
        ("execute", LandlockPerm::Execute),
        ("read-file", LandlockPerm::ReadFile),
        ("read-dir", LandlockPerm::ReadDir),
        ("write-file", LandlockPerm::WriteFile),
        ("remove-dir", LandlockPerm::RemoveDir),
        ("remove-file", LandlockPerm::RemoveFile),
        ("make-char", LandlockPerm::MakeChar),
        ("make-dir", LandlockPerm::MakeDir),
        ("make-reg", LandlockPerm::MakeReg),
        ("make-sock", LandlockPerm::MakeSock),
        ("make-fifo", LandlockPerm::MakeFifo),
        ("make-block", LandlockPerm::MakeBlock),
        ("make-sym", LandlockPerm::MakeSym),
        ("refer", LandlockPerm::Refer),
        ("truncate", LandlockPerm::Truncate),
        ("ioctl-dev", LandlockPerm::IoctlDev),
    ];
    for (name, perm) in names {
        assert_eq!(name.parse::<LandlockPerm>(), Ok(perm));
        assert_eq!(expand_perm(name), vec![perm]);
        assert!(is_known_perm(name));
    }
    let error = "write".parse::<LandlockPerm>().unwrap_err();
    assert_eq!(error.message(), "unknown landlock perm 'write'");
    assert!(!is_known_perm("write"));
    assert!(!is_known_perm(""));
}

#[test]
fn landlock_specs_are_read() {
    let rule = parse_landlock_spec("/data:read-file,truncate").unwrap();
    assert_eq!(rule.path, "/data");
    assert_eq!(rule.perms, vec![LandlockPerm::ReadFile, LandlockPerm::Truncate]);

    let rule = parse_landlock_spec(":ro").unwrap();
    assert_eq!(rule.path, "");
    assert_eq!(rule.perms.len(), 3);

    let error = parse_landlock_spec("/data").unwrap_err();
    assert_eq!(
        error.message(),
        "invalid landlock spec '/data'; expected format: path:perm1[,perm2...]"
    );

    assert!(landlock_spec_is_known("/data"));
    assert!(landlock_spec_is_known("/data:ro,refer"));
    assert!(!landlock_spec_is_known("/data:ro,"));
    assert!(!landlock_spec_is_known("/data:x:ro"));
}

#[test]
fn test_namespaces_default() {
    let ns = NamespacesConfig::default();
    assert!(!ns.user);
    assert!(!ns.ipc);
    assert!(!ns.mnt);
    assert!(!ns.pid);
    assert!(!ns.net);
    assert!(!ns.uts);
    assert!(!ns.cgroup);
    assert!(!ns.user_try);
    assert!(!ns.cgroup_try);
    assert!(ns.uid.is_none());
    assert!(ns.gid.is_none());
    assert!(ns.hostname.is_none());
}

#[test]
fn test_with_landlock() {
    let config = SandboxConfig::default()
        .with_landlock("/:ro")
        .expect("valid spec");
    assert_eq!(config.landlock.len(), 1);
    assert_eq!(config.landlock[0].path, "/");
}

#[test]
fn test_with_unshare_all() {
    let config = SandboxConfig::default().with_unshare_all();
    assert!(config.namespaces.user);
    assert!(config.namespaces.ipc);
    assert!(config.namespaces.mnt);
    assert!(config.namespaces.pid);
    assert!(config.namespaces.net);
    assert!(config.namespaces.uts);
    assert!(config.namespaces.cgroup);
}

#[test]
fn single_namespaces() {
    assert!(SandboxConfig::default().with_unshare_user().namespaces.user);
    assert!(SandboxConfig::default().with_unshare_ipc().namespaces.ipc);
    assert!(SandboxConfig::default().with_unshare_mnt().namespaces.mnt);
    assert!(SandboxConfig::default().with_unshare_pid().namespaces.pid);
    assert!(SandboxConfig::default().with_unshare_net().namespaces.net);
    assert!(SandboxConfig::default().with_unshare_uts().namespaces.uts);
    assert!(SandboxConfig::default().with_unshare_cgroup().namespaces.cgroup);
    assert!(!SandboxConfig::default().with_unshare_user().namespaces.net);
    let named = SandboxConfig::default().with_hostname("box");
    assert_eq!(named.namespaces.hostname, Some("box".to_string()));
}

#[test]
fn test_with_uid_gid() {
    let config = SandboxConfig::default().with_uid(1000).with_gid(100);
    assert_eq!(config.namespaces.uid, Some(1000));
    assert_eq!(config.namespaces.gid, Some(100));
}

#[test]
fn test_sandbox_config_default() {
    let config = SandboxConfig::default();
    assert!(config.landlock.is_empty());
    assert!(!config.network.loopback);
    assert_eq!(config.timeout_default_secs, 30);
    assert_eq!(config.timeout_max_secs, 300);
}

#[test]
fn timeouts_and_filters() {
    let config = SandboxConfig::default()
        .with_timeout(10, 60)
        .with_seccomp_deny_nr(165)
        .with_seccomp_deny_nr(97)
        .with_seccomp_filter(vec![6, 0, 0, 0, 0, 0, 255, 127]);
    assert_eq!(config.timeout_default_secs, 10);
    assert_eq!(config.timeout_max_secs, 60);
    assert_eq!(config.seccomp_deny_nrs, vec![165, 97]);
    assert_eq!(config.seccomp_filter_bytes.len(), 1);
}

#[test]
fn test_network_config() {
    let config = SandboxConfig::default().with_network(true);
    assert!(config.network.loopback);

    let config = SandboxConfig::default().with_network(false);
    assert!(!config.network.loopback);
}

#[test]
fn test_network_config_loopback() {
    let config = SandboxConfig::default().with_network(true);
    assert!(config.network.loopback);

    let config = SandboxConfig::default().with_network(false);
    assert!(!config.network.loopback);
    assert!(NetworkConfig::default().with_loopback(true).loopback);
}

#[test]
fn test_mount_config() {
    let config = SandboxConfig::default()
        .with_bind("/src", "/dst")
        .with_tmpfs("/tmp");
    assert!(config.namespaces.mnt);
    assert_eq!(config.mount.specs.len(), 2);
}

#[test]
fn ro_bind_through_the_configuration() {
    let config = SandboxConfig::default().with_ro_bind("/src", "/dst");
    assert!(config.namespaces.mnt);
    assert!(config.mount.specs[0].readonly);
    assert!(!config.namespaces.user);
}

#[test]
fn test_mount_spec_bind() {
    let spec = MountSpec::bind("/host/src", "/container/dst");
    assert_eq!(spec.source, Some("/host/src".into()));
    assert_eq!(spec.target, "/container/dst");
    assert_eq!(spec.fstype, "none");
    assert_eq!(spec.flags, MS_BIND | MS_REC);
    assert!(!spec.readonly);
}

#[test]
fn test_mount_spec_ro_bind() {
    let spec = MountSpec::ro_bind("/host/src", "/container/dst");
    assert_eq!(spec.source, Some("/host/src".into()));
    assert_eq!(spec.target, "/container/dst");
    assert!(spec.readonly);
}

#[test]
fn test_mount_spec_tmpfs() {
    let spec = MountSpec::tmpfs("/mnt/tmp");
    assert!(spec.source.is_none());
    assert_eq!(spec.target, "/mnt/tmp");
    assert_eq!(spec.fstype, "tmpfs");
    assert_eq!(spec.flags, MS_NOSUID | MS_NODEV);
}

#[test]
fn test_capability_from_name() {
    assert_eq!(Capability::from_name("CHOWN"), Some(Capability::CHOWN));
    assert_eq!(Capability::from_name("cap_chown"), Some(Capability::CHOWN));
    assert_eq!(Capability::from_name("cap.CHOWN"), Some(Capability::CHOWN));
    assert_eq!(Capability::from_name("chown"), Some(Capability::CHOWN));
    assert_eq!(Capability::from_name("NET_RAW"), Some(Capability::NET_RAW));
    assert_eq!(Capability::from_name("net_raw"), Some(Capability::NET_RAW));
    assert_eq!(
        Capability::from_name("SYS_ADMIN"),
        Some(Capability::SYS_ADMIN)
    );
    assert_eq!(Capability::from_name("not_a_cap"), None);
    assert_eq!(Capability::from_name(""), None);
}

#[test]
fn capability_names_beyond_ascii() {
    // The long s becomes a plain S in upper case.
    assert_eq!(Capability::from_name("\u{17f}ys_admin"), Some(Capability::SYS_ADMIN));
    assert_eq!(Capability::from_name("CAP_CAP_CHOWN"), None);
    assert_eq!(Capability::from_name("cAp_Bpf"), Some(Capability::BPF));
}

#[test]
fn test_capability_as_u16() {
    assert_eq!(Capability::CHOWN.as_u16(), 0);
    assert_eq!(Capability::NET_RAW.as_u16(), 13);
    assert_eq!(Capability::CHECKPOINT_RESTORE.as_u16(), 40);
}

#[test]
fn all_capabilities_by_name_and_number() {
    let names = [
        "CHOWN", "DAC_OVERRIDE", "DAC_READ_SEARCH", "FOWNER", "FSETID", "KILL", "SETGID", "SETUID",
        "SETPCAP", "LINUX_IMMUTABLE", "NET_BIND_SERVICE", "NET_BROADCAST", "NET_ADMIN", "NET_RAW",
        "IPC_LOCK", "IPC_OWNER", "SYS_MODULE", "SYS_RAWIO", "SYS_CHROOT", "SYS_PTRACE", "SYS_PACCT",
        "SYS_ADMIN", "SYS_BOOT", "SYS_NICE", "SYS_RESOURCE", "SYS_TIME", "SYS_TTY_CONFIG", "MKNOD",
        "LEASE", "AUDIT_WRITE", "AUDIT_CONTROL", "SETFCAP", "MAC_OVERRIDE", "MAC_ADMIN", "SYSLOG",
        "WAKE_ALARM", "BLOCK_SUSPEND", "AUDIT_READ", "PERFMON", "BPF", "CHECKPOINT_RESTORE",
    ];
    for (number, name) in names.iter().enumerate() {
        let cap = Capability::from_name(name).expect("known name");
        assert_eq!(cap.as_u16() as usize, number);
        assert_eq!(Capability::from_name(&format!("cap_{}", name.to_lowercase())), Some(cap));
    }
}

#[test]
fn test_cap_op_from_cli() {
    assert_eq!(CapOp::from_cli("ALL", true).unwrap(), CapOp::AddAll);
    assert_eq!(CapOp::from_cli("all", false).unwrap(), CapOp::DropAll);
    assert_eq!(
        CapOp::from_cli("chown", true).unwrap(),
        CapOp::Add(Capability::CHOWN)
    );
    assert_eq!(
        CapOp::from_cli("NET_RAW", false).unwrap(),
        CapOp::Drop(Capability::NET_RAW)
    );
    assert!(CapOp::from_cli("unknown_cap", true).is_err());
}

#[test]
fn unknown_capability_is_named() {
    let error = CapOp::from_cli("bogus", false).unwrap_err();
    assert_eq!(error.message(), "unknown capability name: 'bogus'");
}

#[test]
fn test_capability_config_default() {
    let cfg = CapabilityConfig::default();
    assert!(cfg.ops.is_empty());
    assert!(!cfg.inherit_base);
}

#[test]
fn test_capability_config_has_add() {
    assert!(!SandboxConfig::default().capabilities.has_add());
    assert!(!SandboxConfig::default()
        .with_cap_drop("chown")
        .expect("valid cap")
        .capabilities
        .has_add());
    assert!(!SandboxConfig::default()
        .with_cap_drop_all()
        .capabilities
        .has_add());
    assert!(SandboxConfig::default()
        .with_cap_add("chown")
        .expect("valid cap")
        .capabilities
        .has_add());
    assert!(SandboxConfig::default()
        .with_cap_add_all()
        .capabilities
        .has_add());
}

#[test]
fn test_with_cap_add_drop() {
    let config = SandboxConfig::default()
        .with_cap_add("chown")
        .expect("valid cap")
        .with_cap_drop("net_raw")
        .expect("valid cap")
        .with_cap_add_all()
        .with_cap_drop_all()
        .with_cap_inherit(true);

    assert_eq!(config.capabilities.ops.len(), 4);
    assert_eq!(config.capabilities.ops[0], CapOp::Add(Capability::CHOWN));
    assert_eq!(config.capabilities.ops[1], CapOp::Drop(Capability::NET_RAW));
    assert_eq!(config.capabilities.ops[2], CapOp::AddAll);
    assert_eq!(config.capabilities.ops[3], CapOp::DropAll);
    assert!(config.capabilities.inherit_base);
}

#[test]
fn test_with_cap_add_drop_error() {
    assert!(SandboxConfig::default().with_cap_add("not_a_cap").is_err());
    assert!(SandboxConfig::default().with_cap_drop("not_a_cap").is_err());
}

#[test]
fn test_sandbox_config_default_capabilities() {
    let config = SandboxConfig::default();
    assert!(config.capabilities.ops.is_empty());
    assert!(!config.capabilities.inherit_base);
}
