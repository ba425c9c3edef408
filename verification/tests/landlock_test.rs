//! Rulesets: rights, versions and grants.

use std::io::Write;

use landlock::{Access, AccessFs, ABI};
use seabox::linux::landlock::{
    available_in, build_ruleset, build_ruleset_with, get_abi_version, get_effective_abi, is_available,
    perm_right, perms_rights, plan_grants, version_in, version_of, NEWEST_VERSION,
};
use seabox::{LandlockPerm, LandlockRule};

fn ro_perms() -> Vec<LandlockPerm> {
    vec![
        LandlockPerm::Execute,
        LandlockPerm::ReadFile,
        LandlockPerm::ReadDir,
    ]
}

fn rw_perms() -> Vec<LandlockPerm> {
    vec![
        LandlockPerm::Execute,
        LandlockPerm::ReadFile,
        LandlockPerm::ReadDir,
        LandlockPerm::WriteFile,
        LandlockPerm::RemoveDir,
        LandlockPerm::RemoveFile,
        LandlockPerm::MakeDir,
        LandlockPerm::MakeReg,
        LandlockPerm::MakeSym,
        LandlockPerm::Truncate,
    ]
}

fn rule(path: &str, perms: Vec<LandlockPerm>) -> LandlockRule {
    LandlockRule { path: path.into(), perms }
}

#[test]
fn test_is_available_returns_bool() {
    let _available = is_available();
}

#[test]
fn test_abi_version_consistent_with_available() {
    let available = is_available();
    let version = get_abi_version();
    if available {
        assert!(
            version.is_some(),
            "Landlock available => version must be Some"
        );
        let v = version.unwrap();
        assert!(v >= 1, "ABI version must be >= 1, got {v}");
    } else {
        assert!(
            version.is_none(),
            "Landlock unavailable => version must be None"
        );
    }
}

#[test]
fn test_build_ruleset_empty_rules_returns_none() {
    let result = build_ruleset(&vec![], "/");
    assert!(result.is_ok());
    assert!(result.unwrap().is_none());
}

#[test]
fn test_build_ruleset_read_only_returns_ruleset() {
    let rules = vec![rule("/", ro_perms())];
    let result = build_ruleset(&rules, "/");
    assert!(
        result.is_ok(),
        "build should succeed even without Landlock: {:?}",
        result.err()
    );
    let ruleset = result.unwrap();
    assert!(
        ruleset.is_some(),
        "ReadOnly should produce a ruleset (not None)"
    );
}

#[test]
fn test_build_ruleset_with_rules_returns_ruleset() {
    let rules = vec![rule("/tmp", rw_perms())];
    let result = build_ruleset(&rules, "/tmp");
    assert!(
        result.is_ok(),
        "build should succeed even without Landlock: {:?}",
        result.err()
    );
    let ruleset = result.unwrap();
    assert!(
        ruleset.is_some(),
        "rules should produce a ruleset (not None)"
    );
}

#[test]
fn test_build_ruleset_multiple_rules() {
    let rules = vec![
        rule("/tmp", rw_perms()),
        rule("/usr", ro_perms()),
        rule("/etc", ro_perms()),
    ];
    let result = build_ruleset(&rules, "/tmp");
    assert!(result.is_ok());
    assert!(result.unwrap().is_some());
}

#[test]
fn test_build_ruleset_non_existent_paths_skipped() {
    let rules = vec![
        rule("/this/path/should/not/exist/abc123xyz", ro_perms()),
        rule("/tmp", rw_perms()),
    ];
    let result = build_ruleset(&rules, "/tmp");
    assert!(result.is_ok());
    assert!(result.unwrap().is_some());
}

#[test]
fn test_dedup_paths() {
    let rules = vec![rule("/tmp", rw_perms()), rule("/tmp", rw_perms())];
    let result = build_ruleset(&rules, "/tmp");
    assert!(result.is_ok());
    assert!(result.unwrap().is_some());
}

#[test]
fn test_build_ruleset_for_missing_cwd() {
    let rules = vec![rule("/tmp", rw_perms())];
    let result = build_ruleset(&rules, "/nonexistent_cwd_xyz");
    assert!(result.is_ok());
    assert!(result.unwrap().is_some());
}

#[test]
fn test_get_effective_abi_never_unsupported() {
    let abi = get_effective_abi();
    assert_ne!(ABI::from(abi), ABI::Unsupported);
}

#[test]
fn zzz_flush_stdout_marker() {
    println!("FLUSH_MARKER");
    std::io::stdout().flush().unwrap();
    std::io::stderr().flush().unwrap();
}

#[test]
fn rights_agree_with_the_crate() {
    let pairs = [
        (LandlockPerm::Execute, AccessFs::Execute),
        (LandlockPerm::ReadFile, AccessFs::ReadFile),
        (LandlockPerm::ReadDir, AccessFs::ReadDir),
        (LandlockPerm::WriteFile, AccessFs::WriteFile),
        (LandlockPerm::RemoveDir, AccessFs::RemoveDir),
        (LandlockPerm::RemoveFile, AccessFs::RemoveFile),
        (LandlockPerm::MakeChar, AccessFs::MakeChar),
        (LandlockPerm::MakeDir, AccessFs::MakeDir),
        (LandlockPerm::MakeReg, AccessFs::MakeReg),
        (LandlockPerm::MakeSock, AccessFs::MakeSock),
        (LandlockPerm::MakeFifo, AccessFs::MakeFifo),
        (LandlockPerm::MakeBlock, AccessFs::MakeBlock),
        (LandlockPerm::MakeSym, AccessFs::MakeSym),
        (LandlockPerm::Refer, AccessFs::Refer),
        (LandlockPerm::Truncate, AccessFs::Truncate),
        (LandlockPerm::IoctlDev, AccessFs::IoctlDev),
    ];
    for (perm, access) in pairs {
        assert_eq!(perm_right(perm), access as u64);
    }
    assert_eq!(perms_rights(&ro_perms()), AccessFs::from_read(ABI::V1).bits());
    assert_eq!(perms_rights(&vec![]), 0);
}

#[test]
fn rights_of_all_versions() {
    let expected: [u64; 7] = [0x1fff, 0x3fff, 0x7fff, 0x7fff, 0xffff, 0xffff, 0xffff];
    for version in 1..=NEWEST_VERSION {
        assert_eq!(
            AccessFs::from_all(ABI::from(version)).bits(),
            expected[version as usize - 1]
        );
    }
}

#[test]
fn newest_handled_version_is_picked() {
    assert_eq!(version_of(false, &vec![true; 7]), None);
    assert_eq!(version_of(true, &vec![true; 7]), Some(7));
    assert_eq!(version_of(true, &vec![true, true, true, false, false, false, false]), Some(3));
    assert_eq!(version_of(true, &vec![false; 7]), Some(1));
    assert_eq!(version_of(true, &vec![]), Some(1));
}

#[test]
fn grants_are_planned() {
    let home = Some("/home/ann".to_string());
    let rules = vec![
        rule("~/work", vec![LandlockPerm::ReadFile, LandlockPerm::Truncate]),
        rule("/dev", vec![LandlockPerm::IoctlDev]),
        rule("~bob", ro_perms()),
    ];
    let first = plan_grants(&rules, 0x1fff, &home);
    assert_eq!(
        first,
        vec![("/home/ann/work".to_string(), 0x4), ("~bob".to_string(), 0xd)]
    );
    let newest = plan_grants(&rules, 0xffff, &home);
    assert_eq!(
        newest,
        vec![
            ("/home/ann/work".to_string(), 0x4004),
            ("/dev".to_string(), 0x8000),
            ("~bob".to_string(), 0xd),
        ]
    );
}

#[test]
fn rulesets_of_every_version() {
    for version in 1..=NEWEST_VERSION {
        let rules = vec![rule("~", rw_perms()), rule("/", ro_perms())];
        let made = build_ruleset_with(&rules, version, &Some("/".to_string()));
        assert!(made.unwrap().is_some());
    }
}

#[test]
fn rule_without_permissions_is_refused() {
    let rules = vec![rule("/", vec![])];
    assert!(build_ruleset(&rules, "/").is_err());
}

#[test]
fn versions_without_new_rights_are_not_told() {
    let told = get_abi_version();
    assert!([None, Some(1), Some(2), Some(4), Some(7)].contains(&told), "{told:?}");
    assert_eq!(get_effective_abi(), told.unwrap_or(1));
}

#[test]
fn one_ruleset_answers_all_questions() {
    let mut ruleset = landlock::Ruleset::default();
    let told = version_in(&mut ruleset);
    assert_eq!(available_in(&mut ruleset), told.is_some());
    assert_eq!(version_in(&mut ruleset), told);
    assert_eq!(is_available(), told.is_some());
    assert_eq!(get_abi_version(), told);
}
