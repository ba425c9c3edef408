//! From the command line to a configuration and a command.

use seabox::cli::{
    build_command, build_config, check_options, cmd_serve, compose_env, parse_env_var,
    resolve_network_config, rules_are_known, run_timeout, CliError, EnvVarError, RunOptions,
};
use seabox::config::{CapOp, Capability, SandboxConfig};

fn options(words: &[&str]) -> RunOptions {
    RunOptions {
        landlock: vec![],
        allow_network: false,
        share_net: false,
        unshare_all: false,
        unshare_user: false,
        unshare_ipc: false,
        unshare_mnt: false,
        unshare_pid: false,
        unshare_net: false,
        unshare_uts: false,
        unshare_cgroup: false,
        unshare_user_try: false,
        unshare_cgroup_try: false,
        uid: None,
        gid: None,
        hostname: None,
        bind: vec![],
        ro_bind: vec![],
        tmpfs: vec![],
        seccomp_deny_nr: vec![],
        cap_ops: vec![],
        cap_inherit: false,
        timeout: None,
        timeout_max: None,
        clearenv: false,
        unsetenv: vec![],
        env: vec![],
        chdir: None,
        command: words.iter().map(|word| word.to_string()).collect(),
    }
}

fn pair(key: &str, value: &str) -> (String, String) {
    (key.to_string(), value.to_string())
}

#[test]
fn default_no_network_flags() {
    assert_eq!(
        resolve_network_config(false, false, false, false),
        (false, false)
    );
}

#[test]
fn main_unshare_net_isolates() {
    assert_eq!(
        resolve_network_config(true, false, false, false),
        (true, false)
    );
}

#[test]
fn allow_network_is_orthogonal_to_unshare_net() {
    assert_eq!(
        resolve_network_config(true, false, true, false),
        (true, true)
    );
}

#[test]
fn allow_network_alone_does_not_isolate() {
    assert_eq!(
        resolve_network_config(false, false, true, false),
        (false, true)
    );
}

#[test]
fn share_net_suppresses_unshare_net() {
    assert_eq!(
        resolve_network_config(true, true, false, false),
        (false, false)
    );
}

#[test]
fn share_net_beats_allow_network_for_isolation() {
    assert_eq!(
        resolve_network_config(true, true, true, false),
        (false, true)
    );
}

#[test]
fn unshare_all_isolates_net() {
    assert_eq!(
        resolve_network_config(false, false, false, true),
        (true, false)
    );
}

#[test]
fn unshare_all_with_allow_network_loopback() {
    assert_eq!(
        resolve_network_config(false, false, true, true),
        (true, true)
    );
}

#[test]
fn settings_of_variables() {
    assert_eq!(parse_env_var("A=1"), Ok(pair("A", "1")));
    assert_eq!(parse_env_var("A=b=c"), Ok(pair("A", "b=c")));
    assert_eq!(parse_env_var("A="), Ok(pair("A", "")));
    let error = parse_env_var("A").unwrap_err();
    assert_eq!(error, EnvVarError::MissingEquals { value: "A".to_string() });
    assert_eq!(
        error.message(),
        "invalid --env value 'A': expected KEY=VALUE format (missing '=')"
    );
    let error = parse_env_var("=1").unwrap_err();
    assert_eq!(error.message(), "invalid --env value: KEY must not be empty");
}

#[test]
fn options_that_lack_something() {
    assert_eq!(check_options(&options(&["ls"])), Ok(()));
    let error = check_options(&options(&[])).unwrap_err();
    assert_eq!(
        error.message(),
        "error: no command specified.\nUsage: seabox run [OPTIONS] <COMMAND>...\nFor example: seabox run ls -la"
    );

    let mut asked = options(&["id"]);
    asked.uid = Some(0);
    let error = check_options(&asked).unwrap_err();
    assert_eq!(error, CliError::UidWithoutUser);
    assert_eq!(error.message(), "--uid requires --unshare-user or --unshare-all");
    asked.unshare_user = true;
    assert_eq!(check_options(&asked), Ok(()));

    let mut asked = options(&["id"]);
    asked.gid = Some(0);
    let error = check_options(&asked).unwrap_err();
    assert_eq!(error.message(), "--gid requires --unshare-user or --unshare-all");
    asked.unshare_all = true;
    assert_eq!(check_options(&asked), Ok(()));

    let mut asked = options(&["id"]);
    asked.hostname = Some("box".to_string());
    let error = check_options(&asked).unwrap_err();
    assert_eq!(error.message(), "--hostname requires --unshare-uts or --unshare-all");
    asked.unshare_uts = true;
    assert_eq!(check_options(&asked), Ok(()));
}

#[test]
fn rules_with_known_permissions() {
    assert!(rules_are_known(&vec!["/:ro".to_string(), "/tmp".to_string()]));
    assert!(!rules_are_known(&vec!["/:ro".to_string(), "/tmp:no".to_string()]));
}

#[test]
fn default_configuration() {
    let config = build_config(&options(&["ls"]), 1000).unwrap();
    assert!(config.landlock.is_empty());
    assert!(!config.namespaces.user);
    assert!(!config.namespaces.mnt);
    assert_eq!(config.timeout_default_secs, 30);
    assert_eq!(config.timeout_max_secs, 300);
    assert!(config.capabilities.ops.is_empty());
}

#[test]
fn pid_and_net_imply_user_for_others_than_root() {
    let mut asked = options(&["ls"]);
    asked.unshare_pid = true;
    assert!(build_config(&asked, 1000).unwrap().namespaces.user);
    assert!(!build_config(&asked, 0).unwrap().namespaces.user);
    let mut asked = options(&["ls"]);
    asked.unshare_net = true;
    assert!(build_config(&asked, 1000).unwrap().namespaces.user);
    asked.share_net = true;
    let config = build_config(&asked, 1000).unwrap();
    assert!(!config.namespaces.user);
    assert!(!config.namespaces.net);
}

#[test]
fn everything_is_isolated_except_a_shared_network() {
    let mut asked = options(&["ls"]);
    asked.unshare_all = true;
    asked.allow_network = true;
    let config = build_config(&asked, 0).unwrap();
    let ns = &config.namespaces;
    assert!(ns.user && ns.ipc && ns.mnt && ns.pid && ns.net && ns.uts && ns.cgroup);
    assert!(config.network.loopback);
    asked.share_net = true;
    assert!(!build_config(&asked, 0).unwrap().namespaces.net);
}

#[test]
fn mounts_filters_and_capabilities() {
    let mut asked = options(&["ls"]);
    asked.bind = vec!["/a".to_string(), "/b".to_string(), "/odd".to_string()];
    asked.ro_bind = vec!["/c".to_string(), "/d".to_string()];
    asked.tmpfs = vec!["/t".to_string()];
    asked.seccomp_deny_nr = vec![165, 97];
    asked.cap_ops = vec![("ALL".to_string(), false), ("chown".to_string(), true)];
    asked.cap_inherit = true;
    asked.landlock = vec!["/:ro".to_string()];
    asked.timeout_max = Some(5);
    let config = build_config(&asked, 0).unwrap();
    assert!(config.namespaces.mnt);
    assert_eq!(config.mount.specs.len(), 3);
    assert_eq!(config.mount.specs[0].source, Some("/a".to_string()));
    assert_eq!(config.mount.specs[0].target, "/b");
    assert!(config.mount.specs[1].readonly);
    assert_eq!(config.mount.specs[2].fstype, "tmpfs");
    assert_eq!(config.seccomp_deny_nrs, vec![165, 97]);
    assert_eq!(
        config.capabilities.ops,
        vec![CapOp::DropAll, CapOp::Add(Capability::CHOWN)]
    );
    assert!(config.capabilities.inherit_base);
    assert_eq!(config.landlock.len(), 1);
    assert_eq!(config.timeout_max_secs, 5);
}

#[test]
fn refused_rules_and_capabilities() {
    let mut asked = options(&["ls"]);
    asked.landlock = vec!["/:ro".to_string(), "/tmp".to_string()];
    asked.cap_ops = vec![("bogus".to_string(), false)];
    let error = build_config(&asked, 0).unwrap_err();
    assert_eq!(
        error.message(),
        "invalid landlock spec '/tmp'; expected format: path:perm1[,perm2...]"
    );
    asked.landlock = vec![];
    let error = build_config(&asked, 0).unwrap_err();
    assert_eq!(error.message(), "unknown capability name: 'bogus'");
}

#[test]
fn timeouts_are_capped() {
    let config = SandboxConfig::default().with_timeout(30, 60);
    assert_eq!(run_timeout(None, &config), 30_000);
    assert_eq!(run_timeout(Some(45), &config), 45_000);
    assert_eq!(run_timeout(Some(61), &config), 60_000);
    assert_eq!(run_timeout(None, &SandboxConfig::default().with_timeout(30, 5)), 5_000);
    let endless = SandboxConfig::default().with_timeout(30, u64::MAX);
    assert_eq!(run_timeout(Some(u64::MAX), &endless), u64::MAX);
}

#[test]
fn environment_of_the_command() {
    let parent = vec![pair("HOME", "/h"), pair("A", "old"), pair("GONE", "x")];
    let mut asked = options(&["ls"]);
    asked.unsetenv = vec!["GONE".to_string(), "BACK".to_string()];
    asked.env = vec![pair("A", "1"), pair("BACK", "b"), pair("A", "2")];
    let env = compose_env(&asked, &parent);
    assert_eq!(env.get("HOME"), Some("/h".to_string()));
    assert_eq!(env.get("A"), Some("2".to_string()));
    assert_eq!(env.get("GONE"), None);
    assert_eq!(env.get("BACK"), Some("b".to_string()));
    assert_eq!(env.len(), 3);
    asked.clearenv = true;
    let env = compose_env(&asked, &parent);
    assert_eq!(env.get("HOME"), None);
    assert_eq!(env.len(), 2);
}

#[test]
fn command_of_the_command_line() {
    let mut asked = options(&["ls", "-l", "/"]);
    asked.timeout = Some(7);
    let config = build_config(&asked, 0).unwrap();
    let spec = build_command(&asked, &config, "/work", &vec![]);
    assert_eq!(spec.program, "ls");
    assert_eq!(spec.args, vec!["-l".to_string(), "/".to_string()]);
    assert_eq!(spec.cwd, "/work");
    assert_eq!(spec.timeout_millis, 7_000);
    asked.chdir = Some("/elsewhere".to_string());
    assert_eq!(build_command(&asked, &config, "/work", &vec![]).cwd, "/elsewhere");
}

#[test]
fn server_is_missing() {
    assert_eq!(cmd_serve(7878), "HTTP API server not yet implemented (port 7878)");
}
