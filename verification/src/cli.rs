//! The command line: from options to a configuration and a command, and from
//! the end of a run to an exit status.

use crate::capability::{CapOp, CapabilityConfig, UnknownCapability};
use crate::command::{CommandSpec, EnvVars};
use crate::config::{
    bind_view, landlock_spec_is_known, parse_landlock_spec, reads_as_rule, spec_perms_known, tmpfs_view,
    InvalidLandlockSpec, MountConfig, MountSpec, MountSpecView, NamespacesConfig, NetworkConfig,
    SandboxConfig,
};
use crate::linux::launch::classified;
use crate::linux::seccomp::Arch;
use crate::outcome::{DenyMechanism, ExitReason, ReasonView};
use crate::perm::LandlockRule;
use crate::sandbox::ExecError;
use crate::text;
use vstd::prelude::*;

verus! {

/// The options of the `run` command.
#[derive(Debug, Clone)]
pub struct RunOptions {
    /// File system rules.
    pub landlock: Vec<String>,
    /// Bring up loopback in an isolated network namespace.
    pub allow_network: bool,
    /// Share the network of the host whatever else is said.
    pub share_net: bool,
    /// Isolate all namespaces.
    pub unshare_all: bool,
    pub unshare_user: bool,
    pub unshare_ipc: bool,
    pub unshare_mnt: bool,
    pub unshare_pid: bool,
    pub unshare_net: bool,
    pub unshare_uts: bool,
    pub unshare_cgroup: bool,
    /// Isolate the user namespace where the kernel can.
    pub unshare_user_try: bool,
    /// Isolate the cgroup namespace where the kernel can.
    pub unshare_cgroup_try: bool,
    /// User number inside the user namespace.
    pub uid: Option<u32>,
    /// Group number inside the user namespace.
    pub gid: Option<u32>,
    /// Host name inside the UTS namespace.
    pub hostname: Option<String>,
    /// Sources and targets of bind mounts, in turn.
    pub bind: Vec<String>,
    /// Sources and targets of read-only bind mounts, in turn.
    pub ro_bind: Vec<String>,
    /// Targets of tmpfs mounts.
    pub tmpfs: Vec<String>,
    /// Numbers of denied system calls.
    pub seccomp_deny_nr: Vec<u32>,
    /// Capability names in the order of the command line; whether each is
    /// added or dropped.
    pub cap_ops: Vec<(String, bool)>,
    /// Start from the capabilities of the caller.
    pub cap_inherit: bool,
    /// Seconds that the command may run.
    pub timeout: Option<u64>,
    /// Seconds that a command may run at most.
    pub timeout_max: Option<u64>,
    /// Start from an empty environment.
    pub clearenv: bool,
    /// Variables to take out.
    pub unsetenv: Vec<String>,
    /// Variables to set.
    pub env: Vec<(String, String)>,
    /// Working directory.
    pub chdir: Option<String>,
    /// The program and its arguments.
    pub command: Vec<String>,
}

/// Why options are refused.
#[derive(Debug, Clone, PartialEq, Eq)]
pub enum CliError {
    /// There is no command.
    NoCommand,
    /// A user number without a user namespace.
    UidWithoutUser,
    /// A group number without a user namespace.
    GidWithoutUser,
    /// A host name without a UTS namespace.
    HostnameWithoutUts,
    /// A file system rule without a colon.
    Landlock(InvalidLandlockSpec),
    /// A name that no capability has.
    Capability(UnknownCapability),
}

impl CliError {
    /// What the error says to a reader.
    pub open spec fn message_spec(self) -> Seq<char> {
        match self {
            CliError::NoCommand => "error: no command specified.\nUsage: seabox run [OPTIONS] <COMMAND>...\nFor example: seabox run ls -la"@,
            CliError::UidWithoutUser => "--uid requires --unshare-user or --unshare-all"@,
            CliError::GidWithoutUser => "--gid requires --unshare-user or --unshare-all"@,
            CliError::HostnameWithoutUts => "--hostname requires --unshare-uts or --unshare-all"@,
            CliError::Landlock(e) => InvalidLandlockSpec::message_spec(e.spec@),
            CliError::Capability(e) => UnknownCapability::message_spec(e.name@),
        }
    }

    /// The error as a sentence.
    pub fn message(&self) -> (r: String)
        ensures
            r@ == self.message_spec(),
    {
        match self {
            CliError::NoCommand => "error: no command specified.\nUsage: seabox run [OPTIONS] <COMMAND>...\nFor example: seabox run ls -la".to_owned(),
            CliError::UidWithoutUser => "--uid requires --unshare-user or --unshare-all".to_owned(),
            CliError::GidWithoutUser => "--gid requires --unshare-user or --unshare-all".to_owned(),
            CliError::HostnameWithoutUts => "--hostname requires --unshare-uts or --unshare-all".to_owned(),
            CliError::Landlock(e) => e.message(),
            CliError::Capability(e) => e.message(),
        }
    }
}

/// Why a setting of an environment variable is refused.
#[derive(Debug, Clone, PartialEq, Eq)]
pub enum EnvVarError {
    /// There is no equals sign.
    MissingEquals { value: String },
    /// There is nothing before the equals sign.
    EmptyKey,
}

impl EnvVarError {
    /// What the error says to a reader.
    pub open spec fn message_spec(self) -> Seq<char> {
        match self {
            EnvVarError::MissingEquals { value } => "invalid --env value '"@ + value@
                + "': expected KEY=VALUE format (missing '=')"@,
            EnvVarError::EmptyKey => "invalid --env value: KEY must not be empty"@,
        }
    }

    /// The error as a sentence.
    pub fn message(&self) -> (r: String)
        ensures
            r@ == self.message_spec(),
    {
        match self {
            EnvVarError::MissingEquals { value } => {
                let mut out = "invalid --env value '".to_owned();
                out.append(value.as_str());
                out.append("': expected KEY=VALUE format (missing '=')");
                out
            },
            EnvVarError::EmptyKey => "invalid --env value: KEY must not be empty".to_owned(),
        }
    }
}

/// Whether `r` is what a setting of an environment variable reads as.
pub open spec fn reads_as_setting(s: Seq<char>, r: Result<(String, String), EnvVarError>) -> bool {
    match text::cut(s, '=') {
        None => r matches Err(EnvVarError::MissingEquals { value }) && value@ == s,
        Some(parts) => if parts.0.len() == 0 {
            r matches Err(EnvVarError::EmptyKey)
        } else {
            r matches Ok(pair) && pair.0@ == parts.0 && pair.1@ == parts.1
        },
    }
}

/// A name, an equals sign and a value read back as that name and that value,
/// whatever the value holds. A text without an equals sign is refused, and so is
/// one without a name.
pub proof fn settings_read_back(
    key: Seq<char>,
    value: Seq<char>,
    r: Result<(String, String), EnvVarError>,
    other: Seq<char>,
    refused: Result<(String, String), EnvVarError>,
)
    requires
        !key.contains('='),
        reads_as_setting(key + seq!['='] + value, r),
        !other.contains('='),
        reads_as_setting(other, refused),
    ensures
        key.len() > 0 ==> (r matches Ok(pair) && pair.0@ == key && pair.1@ == value),
        key.len() == 0 ==> r == Err::<(String, String), EnvVarError>(EnvVarError::EmptyKey),
        refused matches Err(EnvVarError::MissingEquals { value }) && value@ == other,
{
    assert(key + seq!['='] + value =~= key.push('=') + value);
    text::cut_undoes_joining(key, value, '=');
    text::lemma_first_at(other, '=');
}

/// Reads `KEY=VALUE`: the first equals sign ends the key, which is not empty.
pub fn parse_env_var(s: &str) -> (r: Result<(String, String), EnvVarError>)
    ensures
        reads_as_setting(s@, r),
        match text::cut(s@, '=') {
            None => r matches Err(EnvVarError::MissingEquals { value }) && value@ == s@,
            Some(parts) => if parts.0.len() == 0 {
                r matches Err(EnvVarError::EmptyKey)
            } else {
                r matches Ok(pair) && pair.0@ == parts.0 && pair.1@ == parts.1
            },
        },
{
    match text::split_once(s, '=') {
        None => Err(EnvVarError::MissingEquals { value: s.to_owned() }),
        Some(pair) => if pair.0.as_str().is_empty() {
            Err(EnvVarError::EmptyKey)
        } else {
            Ok(pair)
        },
    }
}

/// Whether the network namespace is isolated, and whether loopback comes up in
/// it. Sharing the network of the host goes before any isolation.
pub fn resolve_network_config(
    unshare_net: bool,
    share_net: bool,
    allow_network: bool,
    unshare_all: bool,
) -> (r: (bool, bool))
    ensures
        r.0 == isolates_net(unshare_net, share_net, unshare_all),
        r.1 == allow_network,
        r.0 ==> !share_net,
        r.0 ==> unshare_net || unshare_all,
        (unshare_net || unshare_all) && !share_net ==> r.0,
{
    (!share_net && (unshare_net || unshare_all), allow_network)
}

/// Whether the network namespace is isolated.
pub open spec fn isolates_net(unshare_net: bool, share_net: bool, unshare_all: bool) -> bool {
    !share_net && (unshare_net || unshare_all)
}

/// What the options lack.
pub open spec fn lack(options: RunOptions) -> Option<CliError> {
    if options.command@.len() == 0 {
        Some(CliError::NoCommand)
    } else if options.uid is Some && !options.unshare_user && !options.unshare_all {
        Some(CliError::UidWithoutUser)
    } else if options.gid is Some && !options.unshare_user && !options.unshare_all {
        Some(CliError::GidWithoutUser)
    } else if options.hostname is Some && !options.unshare_uts && !options.unshare_all {
        Some(CliError::HostnameWithoutUts)
    } else {
        None
    }
}

/// Refuses options that lack something.
pub fn check_options(options: &RunOptions) -> (r: Result<(), CliError>)
    ensures
        r == match lack(*options) {
            Some(e) => Err(e),
            None => Ok(()),
        },
{
    if options.command.is_empty() {
        return Err(CliError::NoCommand);
    }
    if options.uid.is_some() && !options.unshare_user && !options.unshare_all {
        return Err(CliError::UidWithoutUser);
    }
    if options.gid.is_some() && !options.unshare_user && !options.unshare_all {
        return Err(CliError::GidWithoutUser);
    }
    if options.hostname.is_some() && !options.unshare_uts && !options.unshare_all {
        return Err(CliError::HostnameWithoutUts);
    }
    Ok(())
}

/// Whether all file system rules use known permissions only.
pub open spec fn rules_known(rules: Seq<String>) -> bool {
    forall|i: int| 0 <= i < rules.len() ==> spec_perms_known((#[trigger] rules[i])@)
}

/// Whether all file system rules use known permissions only.
pub fn rules_are_known(rules: &Vec<String>) -> (r: bool)
    ensures
        r == rules_known(rules@),
{
    let mut i: usize = 0;
    while i < rules.len()
        invariant
            i <= rules@.len(),
            forall|j: int| 0 <= j < i ==> spec_perms_known((#[trigger] rules@[j])@),
        decreases rules.len() - i,
    {
        if !landlock_spec_is_known(rules[i].as_str()) {
            assert(!spec_perms_known(rules@[i as int]@));
            return false;
        }
        i += 1;
    }
    true
}

/// Whether the user namespace is isolated: where it is asked for, and where
/// the PID or network namespace needs one because the caller is not root.
pub open spec fn isolates_user(options: RunOptions, euid: u32) -> bool {
    options.unshare_user || options.unshare_all || (euid != 0 && (options.unshare_pid
        || isolates_net(options.unshare_net, options.share_net, options.unshare_all)))
}

/// The mounts that the options ask for. A source without a target asks for
/// nothing.
pub open spec fn mount_specs(options: RunOptions) -> Seq<MountSpecView> {
    pair_specs(options.bind@, false) + pair_specs(options.ro_bind@, true) + tmpfs_specs(
        options.tmpfs@,
    )
}

/// The bind mounts of a list of sources and targets in turn.
pub open spec fn pair_specs(list: Seq<String>, readonly: bool) -> Seq<MountSpecView> {
    Seq::new(
        (list.len() / 2) as nat,
        |i: int| bind_view(list[2 * i]@, list[2 * i + 1]@, readonly),
    )
}

/// Sources and targets are taken in turn: each two words of the list make one
/// mount, of the first on the second, and a word left over makes none.
pub proof fn pairs_are_taken_in_turn(list: Seq<String>, readonly: bool)
    ensures
        list.len() == 2 * pair_specs(list, readonly).len() || list.len() == 2 * pair_specs(
            list,
            readonly,
        ).len() + 1,
        forall|k: int|
            #![trigger pair_specs(list, readonly)[k]]
            0 <= k < pair_specs(list, readonly).len() ==> {
                &&& pair_specs(list, readonly)[k] == bind_view(
                    list[k + k]@,
                    list[k + k + 1]@,
                    readonly,
                )
                &&& pair_specs(list, readonly)[k].source == Some(list[k + k]@)
                &&& pair_specs(list, readonly)[k].target == list[k + k + 1]@
                &&& pair_specs(list, readonly)[k].fstype == "none"@
                &&& pair_specs(list, readonly)[k].readonly == readonly
                &&& pair_specs(list, readonly)[k].data is None
            },
{
}

/// The mounts of whole pairs stay what they are where more words follow, and the
/// words that follow make the mounts that they make alone.
pub proof fn pairs_stand_alone(first: Seq<String>, more: Seq<String>, readonly: bool)
    requires
        first.len() % 2 == 0,
    ensures
        pair_specs(first + more, readonly) == pair_specs(first, readonly) + pair_specs(
            more,
            readonly,
        ),
{
    let n = first.len() / 2;
    let whole = pair_specs(first + more, readonly);
    let parts = pair_specs(first, readonly) + pair_specs(more, readonly);
    assert(whole.len() == parts.len());
    assert forall|k: int| 0 <= k < whole.len() implies whole[k] == parts[k] by {
        if k < n {
            assert((first + more)[2 * k] == first[2 * k]);
            assert((first + more)[2 * k + 1] == first[2 * k + 1]);
        } else {
            assert((first + more)[2 * k] == more[2 * (k - n)]);
            assert((first + more)[2 * k + 1] == more[2 * (k - n) + 1]);
        }
    }
    assert(whole =~= parts);
}

/// The tmpfs mounts of a list of targets.
pub open spec fn tmpfs_specs(list: Seq<String>) -> Seq<MountSpecView> {
    list.map_values(|target: String| tmpfs_view(target@))
}

/// Each target of a tmpfs makes one tmpfs there.
pub proof fn each_target_makes_a_tmpfs(list: Seq<String>)
    ensures
        tmpfs_specs(list).len() == list.len(),
        forall|k: int|
            #![trigger tmpfs_specs(list)[k]]
            0 <= k < list.len() ==> {
                &&& tmpfs_specs(list)[k] == tmpfs_view(list[k]@)
                &&& tmpfs_specs(list)[k].source is None
                &&& tmpfs_specs(list)[k].target == list[k]@
                &&& tmpfs_specs(list)[k].fstype == "tmpfs"@
                &&& tmpfs_specs(list)[k].data is None
                &&& !tmpfs_specs(list)[k].readonly
            },
{
}

/// Every bind mount, read-only bind mount and tmpfs of the command line is there
/// once: first the writable bind mounts, then the read-only ones, then the
/// tmpfs, each in the order of the command line.
pub proof fn mounts_come_in_order(options: RunOptions)
    ensures
        ({
            let binds = (options.bind@.len() / 2) as int;
            let ro_binds = (options.ro_bind@.len() / 2) as int;
            let specs = mount_specs(options);
            &&& specs.len() == binds + ro_binds + options.tmpfs@.len()
            &&& forall|k: int|
                #![trigger specs[k]]
                0 <= k < binds ==> specs[k].source == Some(options.bind@[k + k]@)
                    && specs[k].target == options.bind@[k + k + 1]@ && !specs[k].readonly
            &&& forall|k: int|
                #![trigger options.ro_bind@[k + k]]
                0 <= k < ro_binds ==> specs[binds + k].source == Some(options.ro_bind@[k + k]@)
                    && specs[binds + k].target == options.ro_bind@[k + k + 1]@ && specs[binds
                    + k].readonly
            &&& forall|k: int|
                #![trigger options.tmpfs@[k]]
                0 <= k < options.tmpfs@.len() ==> specs[binds + ro_binds + k].source is None
                    && specs[binds + ro_binds + k].target == options.tmpfs@[k]@ && specs[binds
                    + ro_binds + k].fstype == "tmpfs"@
        }),
{
    let specs = mount_specs(options);
    let binds = pair_specs(options.bind@, false);
    let ro_binds = pair_specs(options.ro_bind@, true);
    let tmpfs = tmpfs_specs(options.tmpfs@);
    assert forall|k: int|
        #![trigger options.ro_bind@[k + k]]
        0 <= k < ro_binds.len() implies specs[binds.len() + k] == ro_binds[k] by {}
    assert forall|k: int|
        #![trigger options.tmpfs@[k]]
        0 <= k < tmpfs.len() implies specs[binds.len() + ro_binds.len() + k] == tmpfs[k] by {}
    assert forall|k: int| 0 <= k < binds.len() implies #[trigger] specs[k] == binds[k] by {}
}

/// The namespaces that the options ask for.
pub open spec fn namespaces_for(options: RunOptions, euid: u32) -> NamespacesConfig {
    NamespacesConfig {
        user: isolates_user(options, euid),
        ipc: options.unshare_ipc || options.unshare_all,
        mnt: options.unshare_mnt || options.unshare_all || mount_specs(options).len() > 0,
        pid: options.unshare_pid || options.unshare_all,
        net: isolates_net(options.unshare_net, options.share_net, options.unshare_all),
        uts: options.unshare_uts || options.unshare_all,
        cgroup: options.unshare_cgroup || options.unshare_all,
        user_try: options.unshare_user_try,
        cgroup_try: options.unshare_cgroup_try,
        uid: options.uid,
        gid: options.gid,
        hostname: options.hostname,
    }
}

/// Each namespace follows its own option and the one for all: none is isolated
/// that was not asked for, and none that was asked for is shared. A mount brings
/// its namespace along; a caller who is not root gets a user namespace with a
/// PID or network namespace; sharing the network keeps it shared.
pub proof fn namespaces_follow_their_options(options: RunOptions, euid: u32)
    ensures
        ({
            let ns = namespaces_for(options, euid);
            let all = options.unshare_all;
            let nothing_mounted = options.bind@.len() < 2 && options.ro_bind@.len() < 2
                && options.tmpfs@.len() == 0;
            &&& ns.ipc <==> (options.unshare_ipc || all)
            &&& ns.uts <==> (options.unshare_uts || all)
            &&& ns.cgroup <==> (options.unshare_cgroup || all)
            &&& ns.pid <==> (options.unshare_pid || all)
            &&& ns.net <==> ((options.unshare_net || all) && !options.share_net)
            &&& ns.mnt <==> (options.unshare_mnt || all || !nothing_mounted)
            &&& ns.user <==> (options.unshare_user || all || (euid != 0 && (options.unshare_pid || (
            options.unshare_net && !options.share_net))))
            &&& ns.user_try == options.unshare_user_try
            &&& ns.cgroup_try == options.unshare_cgroup_try
            &&& ns.uid == options.uid
            &&& ns.gid == options.gid
            &&& ns.hostname == options.hostname
        }),
{
    mounts_come_in_order(options);
}

/// Options that are accepted name a command, and ask for a user number, a group
/// number or a host name only together with the namespace that holds it.
pub proof fn accepted_options_are_whole(options: RunOptions, euid: u32)
    requires
        lack(options) is None,
    ensures
        options.command@.len() > 0,
        options.uid is Some ==> namespaces_for(options, euid).user,
        options.gid is Some ==> namespaces_for(options, euid).user,
        options.hostname is Some ==> namespaces_for(options, euid).uts,
{
}

/// Options are refused only for what they lack.
pub proof fn refused_options_lack_something(options: RunOptions)
    ensures
        lack(options) matches Some(e) ==> e is NoCommand || e is UidWithoutUser
            || e is GidWithoutUser || e is HostnameWithoutUts,
        lack(options) == Some(CliError::NoCommand) <==> options.command@.len() == 0,
        lack(options) == Some(CliError::UidWithoutUser) <==> options.command@.len() > 0
            && options.uid is Some && !options.unshare_user && !options.unshare_all,
        lack(options) == Some(CliError::GidWithoutUser) <==> options.command@.len() > 0
            && options.uid is None && options.gid is Some && !options.unshare_user
            && !options.unshare_all,
        lack(options) == Some(CliError::HostnameWithoutUts) ==> options.hostname is Some
            && !options.unshare_uts && !options.unshare_all,
        options.command@.len() > 0 && options.uid is None && options.gid is None
            && options.hostname is None ==> lack(options) is None,
        options.command@.len() > 0 && options.unshare_all ==> lack(options) is None,
        options.command@.len() > 0 && options.unshare_user && options.unshare_uts ==> lack(
            options,
        ) is None,
{
}

/// The greatest number of seconds a command may run where nothing is said.
pub const DEFAULT_TIMEOUT_MAX: u64 = 300;

/// The number of seconds a command may run where nothing is said.
pub const DEFAULT_TIMEOUT: u64 = 30;

/// Mounts with their texts as sequences of characters.
pub open spec fn spec_views(specs: Seq<MountSpec>) -> Seq<MountSpecView> {
    specs.map_values(|spec: MountSpec| spec@)
}

/// Whether a configuration is what the options ask for.
pub open spec fn config_fits(options: RunOptions, euid: u32, config: SandboxConfig) -> bool {
    &&& config.landlock@.len() == options.landlock@.len()
    &&& forall|i: int|
        0 <= i < config.landlock@.len() ==> reads_as_rule(
            options.landlock@[i]@,
            Ok(#[trigger] config.landlock@[i]),
        )
    &&& config.namespaces == namespaces_for(options, euid)
    &&& config.network == (NetworkConfig { loopback: options.allow_network })
    &&& !config.mount.enabled
    &&& spec_views(config.mount.specs@) == mount_specs(options)
    &&& config.timeout_default_secs == DEFAULT_TIMEOUT
    &&& config.timeout_max_secs == match options.timeout_max {
        Some(secs) => secs,
        None => DEFAULT_TIMEOUT_MAX,
    }
    &&& config.seccomp_deny_nrs@ == options.seccomp_deny_nr@
    &&& config.seccomp_filter_bytes@ == Seq::<Vec<u8>>::empty()
    &&& config.capabilities.inherit_base == options.cap_inherit
    &&& config.capabilities.ops@.len() == options.cap_ops@.len()
    &&& forall|i: int|
        0 <= i < config.capabilities.ops@.len() ==> CapOp::read_from(
            options.cap_ops@[i].0@,
            options.cap_ops@[i].1,
            Ok(#[trigger] config.capabilities.ops@[i]),
        )
}

/// What the options say reaches the configuration: the file system rules in
/// their order, the namespaces, loopback where it is allowed and only there, the
/// mounts, the time limits, the denied system calls and the capability
/// operations in their order.
pub proof fn options_reach_the_configuration(
    options: RunOptions,
    euid: u32,
    config: SandboxConfig,
)
    requires
        config_fits(options, euid, config),
    ensures
        config.landlock@.len() == options.landlock@.len(),
        forall|i: int|
            0 <= i < options.landlock@.len() ==> reads_as_rule(
                options.landlock@[i]@,
                Ok(#[trigger] config.landlock@[i]),
            ),
        config.namespaces == namespaces_for(options, euid),
        config.network.loopback <==> options.allow_network,
        config.mount.specs@.len() == mount_specs(options).len(),
        forall|k: int|
            0 <= k < config.mount.specs@.len() ==> (#[trigger] config.mount.specs@[k])@
                == mount_specs(options)[k],
        !config.mount.enabled,
        config.seccomp_filter_bytes@.len() == 0,
        config.timeout_default_secs == 30,
        options.timeout_max is None ==> config.timeout_max_secs == 300,
        options.timeout_max matches Some(secs) ==> config.timeout_max_secs == secs,
        config.seccomp_deny_nrs@ == options.seccomp_deny_nr@,
        config.capabilities.inherit_base == options.cap_inherit,
        config.capabilities.ops@.len() == options.cap_ops@.len(),
        forall|i: int|
            0 <= i < options.cap_ops@.len() ==> CapOp::read_from(
                options.cap_ops@[i].0@,
                options.cap_ops@[i].1,
                Ok(#[trigger] config.capabilities.ops@[i]),
            ),
{
    let views = spec_views(config.mount.specs@);
    assert(views.len() == config.mount.specs@.len());
    assert forall|k: int| 0 <= k < config.mount.specs@.len() implies (
    #[trigger] config.mount.specs@[k])@ == mount_specs(options)[k] by {
        assert(views[k] == config.mount.specs@[k]@);
    }
}

/// Whether `e` is the error about the first file system rule that has no
/// colon.
pub open spec fn first_bad_rule(rules: Seq<String>, e: CliError) -> bool {
    exists|i: int|
        {
            &&& 0 <= i < rules.len()
            &&& text::cut((#[trigger] rules[i])@, ':') is None
            &&& e matches CliError::Landlock(inner) && inner.spec@ == rules[i]@
            &&& forall|j: int| 0 <= j < i ==> text::cut((#[trigger] rules[j])@, ':') is Some
        }
}

/// Whether `e` is the error about the first name that no capability has.
pub open spec fn first_bad_cap(ops: Seq<(String, bool)>, e: CliError) -> bool {
    exists|i: int|
        {
            &&& 0 <= i < ops.len()
            &&& e matches CliError::Capability(inner) && CapOp::read_from(
                (#[trigger] ops[i]).0@,
                ops[i].1,
                Err(inner),
            )
            &&& forall|j: int| 0 <= j < i ==> names_capability(#[trigger] ops[j])
        }
}

/// Whether an operation on the command line names a capability, or all.
pub open spec fn names_capability(op: (String, bool)) -> bool {
    exists|read: CapOp| #[trigger] CapOp::read_from(op.0@, op.1, Ok(read))
}

/// The rule that is refused is the first one without a colon.
pub proof fn first_rule_without_a_colon_is_told(rules: Seq<String>, e: CliError, k: int)
    requires
        first_bad_rule(rules, e),
        0 <= k < rules.len(),
        !rules[k]@.contains(':'),
    ensures
        exists|i: int|
            {
                &&& 0 <= i <= k
                &&& !(#[trigger] rules[i])@.contains(':')
                &&& e matches CliError::Landlock(inner) && inner.spec@ == rules[i]@
                &&& forall|j: int| 0 <= j < i ==> (#[trigger] rules[j])@.contains(':')
            },
{
    let i = choose|i: int|
        {
            &&& 0 <= i < rules.len()
            &&& text::cut((#[trigger] rules[i])@, ':') is None
            &&& e matches CliError::Landlock(inner) && inner.spec@ == rules[i]@
            &&& forall|j: int| 0 <= j < i ==> text::cut((#[trigger] rules[j])@, ':') is Some
        };
    text::lemma_first_at(rules[i]@, ':');
    text::lemma_first_at(rules[k]@, ':');
    assert forall|j: int| 0 <= j < i implies (#[trigger] rules[j])@.contains(':') by {
        text::lemma_first_at(rules[j]@, ':');
    }
    if i > k {
        assert(rules[k]@.contains(':'));
    }
}

fn read_rules(rules: &Vec<String>) -> (r: Result<Vec<LandlockRule>, CliError>)
    requires
        rules_known(rules@),
    ensures
        match r {
            Ok(list) => {
                &&& list@.len() == rules@.len()
                &&& forall|i: int|
                    0 <= i < list@.len() ==> reads_as_rule(
                        rules@[i]@,
                        Ok(#[trigger] list@[i]),
                    )
                &&& forall|i: int| 0 <= i < rules@.len() ==> text::cut(
                    (#[trigger] rules@[i])@,
                    ':',
                ) is Some
            },
            Err(e) => first_bad_rule(rules@, e),
        },
{
    let mut list: Vec<LandlockRule> = Vec::new();
    let mut i: usize = 0;
    while i < rules.len()
        invariant
            i <= rules@.len(),
            rules_known(rules@),
            list@.len() == i,
            forall|j: int|
                0 <= j < i ==> reads_as_rule(rules@[j]@, Ok(#[trigger] list@[j])),
            forall|j: int| 0 <= j < i ==> text::cut((#[trigger] rules@[j])@, ':') is Some,
        decreases rules.len() - i,
    {
        assert(spec_perms_known(rules@[i as int]@));
        match parse_landlock_spec(rules[i].as_str()) {
            Ok(rule) => {
                list.push(rule);
            },
            Err(e) => {
                assert(text::cut(rules@[i as int]@, ':') is None);
                return Err(CliError::Landlock(e));
            },
        }
        i += 1;
    }
    Ok(list)
}

/// The capability that is refused is the first name that stands for none.
pub proof fn first_unknown_capability_is_told(ops: Seq<(String, bool)>, e: CliError, k: int)
    requires
        first_bad_cap(ops, e),
        0 <= k < ops.len(),
        !names_capability(ops[k]),
    ensures
        exists|i: int|
            {
                &&& 0 <= i <= k
                &&& e matches CliError::Capability(inner) && inner.name@ == (
                #[trigger] ops[i]).0@
                &&& forall|j: int| 0 <= j < i ==> names_capability(#[trigger] ops[j])
            },
{
    let i = choose|i: int|
        {
            &&& 0 <= i < ops.len()
            &&& e matches CliError::Capability(inner) && CapOp::read_from(
                (#[trigger] ops[i]).0@,
                ops[i].1,
                Err(inner),
            )
            &&& forall|j: int| 0 <= j < i ==> names_capability(#[trigger] ops[j])
        };
    if i > k {
        assert(names_capability(ops[k]));
    }
}

fn read_caps(ops: &Vec<(String, bool)>) -> (r: Result<Vec<CapOp>, CliError>)
    ensures
        match r {
            Ok(list) => {
                &&& list@.len() == ops@.len()
                &&& forall|i: int|
                    0 <= i < list@.len() ==> CapOp::read_from(
                        ops@[i].0@,
                        ops@[i].1,
                        Ok(#[trigger] list@[i]),
                    )
            },
            Err(e) => first_bad_cap(ops@, e),
        },
{
    let mut list: Vec<CapOp> = Vec::new();
    let mut i: usize = 0;
    while i < ops.len()
        invariant
            i <= ops@.len(),
            list@.len() == i,
            forall|j: int|
                0 <= j < i ==> CapOp::read_from(
                    ops@[j].0@,
                    ops@[j].1,
                    Ok(#[trigger] list@[j]),
                ),
            forall|j: int| 0 <= j < i ==> names_capability(#[trigger] ops@[j]),
        decreases ops.len() - i,
    {
        match CapOp::from_cli(ops[i].0.as_str(), ops[i].1) {
            Ok(op) => {
                list.push(op);
            },
            Err(e) => {
                assert(CapOp::read_from(ops@[i as int].0@, ops@[i as int].1, Err(e)));
                return Err(CliError::Capability(e));
            },
        }
        i += 1;
    }
    Ok(list)
}

fn push_pairs(specs: &mut Vec<MountSpec>, list: &Vec<String>, readonly: bool)
    ensures
        spec_views(final(specs)@) == spec_views(old(specs)@) + pair_specs(list@, readonly),
{
    let ghost start = spec_views(specs@);
    let ghost all = pair_specs(list@, readonly);
    let count: usize = list.len() / 2;
    let mut i: usize = 0;
    assert(spec_views(specs@) =~= start + all.take(0));
    while i < count
        invariant
            i <= count,
            count == list@.len() / 2,
            list@.len() <= usize::MAX,
            all == pair_specs(list@, readonly),
            spec_views(specs@) == start + all.take(i as int),
        decreases count - i,
    {
        let source = list[2 * i].as_str();
        let target = list[2 * i + 1].as_str();
        let spec = if readonly {
            MountSpec::ro_bind(source, target)
        } else {
            MountSpec::bind(source, target)
        };
        assert(spec@ == all[i as int]);
        let ghost before = spec_views(specs@);
        specs.push(spec);
        i += 1;
        assert(spec_views(specs@) =~= before.push(spec@));
        assert(spec_views(specs@) =~= start + all.take(i as int));
    }
    assert(all.take(i as int) =~= all);
}

fn push_tmpfs(specs: &mut Vec<MountSpec>, list: &Vec<String>)
    ensures
        spec_views(final(specs)@) == spec_views(old(specs)@) + tmpfs_specs(list@),
{
    let ghost start = spec_views(specs@);
    let ghost all = tmpfs_specs(list@);
    let mut i: usize = 0;
    assert(spec_views(specs@) =~= start + all.take(0));
    while i < list.len()
        invariant
            i <= list@.len(),
            all == tmpfs_specs(list@),
            spec_views(specs@) == start + all.take(i as int),
        decreases list.len() - i,
    {
        let spec = MountSpec::tmpfs(list[i].as_str());
        assert(spec@ == all[i as int]);
        let ghost before = spec_views(specs@);
        specs.push(spec);
        i += 1;
        assert(spec_views(specs@) =~= before.push(spec@));
        assert(spec_views(specs@) =~= start + all.take(i as int));
    }
    assert(all.take(i as int) =~= all);
}

fn copy_numbers(list: &Vec<u32>) -> (r: Vec<u32>)
    ensures
        r@ == list@,
{
    let mut out: Vec<u32> = Vec::new();
    let mut i: usize = 0;
    while i < list.len()
        invariant
            i <= list@.len(),
            out@ == list@.take(i as int),
        decreases list.len() - i,
    {
        out.push(list[i]);
        i += 1;
        assert(out@ =~= list@.take(i as int));
    }
    assert(out@ =~= list@);
    out
}

/// Makes the configuration that the options ask for. The filters of the caller
/// are still to be added.
pub fn build_config(options: &RunOptions, euid: u32) -> (r: Result<SandboxConfig, CliError>)
    requires
        rules_known(options.landlock@),
    ensures
        match r {
            Ok(config) => config_fits(*options, euid, config) && forall|i: int|
                0 <= i < options.landlock@.len() ==> text::cut(
                    (#[trigger] options.landlock@[i])@,
                    ':',
                ) is Some,
            Err(e) => first_bad_rule(options.landlock@, e) || ((forall|i: int|
                0 <= i < options.landlock@.len() ==> text::cut(
                    (#[trigger] options.landlock@[i])@,
                    ':',
                ) is Some) && first_bad_cap(options.cap_ops@, e)),
        },
{
    let landlock = match read_rules(&options.landlock) {
        Ok(list) => list,
        Err(e) => {
            return Err(e);
        },
    };
    let ops = match read_caps(&options.cap_ops) {
        Ok(list) => list,
        Err(e) => {
            return Err(e);
        },
    };
    let (net, loopback) = resolve_network_config(
        options.unshare_net,
        options.share_net,
        options.allow_network,
        options.unshare_all,
    );
    let mut specs: Vec<MountSpec> = Vec::new();
    assert(spec_views(specs@) =~= Seq::<MountSpecView>::empty());
    push_pairs(&mut specs, &options.bind, false);
    push_pairs(&mut specs, &options.ro_bind, true);
    push_tmpfs(&mut specs, &options.tmpfs);
    assert(spec_views(specs@) =~= mount_specs(*options));
    assert(spec_views(specs@).len() == specs@.len());
    let hostname = match &options.hostname {
        Some(name) => Some(name.clone()),
        None => None,
    };
    let namespaces = NamespacesConfig {
        user: options.unshare_user || options.unshare_all || (euid != 0 && (options.unshare_pid
            || net)),
        ipc: options.unshare_ipc || options.unshare_all,
        mnt: options.unshare_mnt || options.unshare_all || specs.len() > 0,
        pid: options.unshare_pid || options.unshare_all,
        net,
        uts: options.unshare_uts || options.unshare_all,
        cgroup: options.unshare_cgroup || options.unshare_all,
        user_try: options.unshare_user_try,
        cgroup_try: options.unshare_cgroup_try,
        uid: options.uid,
        gid: options.gid,
        hostname,
    };
    let timeout_max: u64 = match options.timeout_max {
        Some(secs) => secs,
        None => DEFAULT_TIMEOUT_MAX,
    };
    Ok(
        SandboxConfig {
            landlock,
            namespaces,
            network: NetworkConfig { loopback },
            mount: MountConfig { enabled: false, specs },
            timeout_default_secs: DEFAULT_TIMEOUT,
            timeout_max_secs: timeout_max,
            seccomp_deny_nrs: copy_numbers(&options.seccomp_deny_nr),
            seccomp_filter_bytes: Vec::new(),
            capabilities: CapabilityConfig { ops, inherit_base: options.cap_inherit },
        },
    )
}

/// The number of milliseconds that a command may run: what was asked for or
/// the usual time, and never more than the greatest.
pub open spec fn run_millis(asked: Option<u64>, usual: u64, greatest: u64) -> int {
    let secs = match asked {
        Some(secs) => secs,
        None => usual,
    };
    let capped = if secs < greatest {
        secs
    } else {
        greatest
    };
    if capped * 1000 > u64::MAX {
        u64::MAX as int
    } else {
        capped * 1000
    }
}

/// The number of milliseconds that a command may run.
pub fn run_timeout(asked: Option<u64>, config: &SandboxConfig) -> (r: u64)
    ensures
        r == run_millis(asked, config.timeout_default_secs, config.timeout_max_secs),
{
    let secs: u64 = match asked {
        Some(secs) => secs,
        None => config.timeout_default_secs,
    };
    let capped: u64 = if secs < config.timeout_max_secs {
        secs
    } else {
        config.timeout_max_secs
    };
    match capped.checked_mul(1000) {
        Some(millis) => millis,
        None => u64::MAX,
    }
}

/// No command runs longer than the configuration allows.
pub proof fn timeout_is_capped(asked: Option<u64>, usual: u64, greatest: u64)
    ensures
        run_millis(asked, usual, greatest) <= greatest * 1000,
{
}

/// A time that is asked for and allowed is the time that is given, and the
/// usual time is given where none is asked for; what is asked for beyond the
/// greatest time is cut down to it.
pub proof fn asked_time_is_given(secs: u64, usual: u64, greatest: u64)
    ensures
        secs <= greatest && secs * 1000 <= u64::MAX ==> run_millis(Some(secs), usual, greatest)
            == secs * 1000,
        secs > greatest && greatest * 1000 <= u64::MAX ==> run_millis(Some(secs), usual, greatest)
            == greatest * 1000,
        run_millis(None, usual, greatest) == run_millis(Some(usual), usual, greatest),
{
}

/// A time too long to be counted in milliseconds is the longest one that can.
pub proof fn endless_time_saturates(secs: u64, usual: u64, greatest: u64)
    requires
        secs * 1000 > u64::MAX,
        greatest * 1000 > u64::MAX,
    ensures
        run_millis(Some(secs), usual, greatest) == u64::MAX,
{
}

/// The environment after the variables `keys` are taken out.
pub open spec fn env_without(
    env: Map<Seq<char>, Seq<char>>,
    keys: Seq<String>,
) -> Map<Seq<char>, Seq<char>>
    decreases keys.len(),
{
    if keys.len() == 0 {
        env
    } else {
        env_without(env, keys.drop_last()).remove(keys.last()@)
    }
}

/// The environment after variables are set, the later ones last.
pub open spec fn env_with(
    env: Map<Seq<char>, Seq<char>>,
    vars: Seq<(String, String)>,
) -> Map<Seq<char>, Seq<char>>
    decreases vars.len(),
{
    if vars.len() == 0 {
        env
    } else {
        env_with(env, vars.drop_last()).insert(vars.last().0@, vars.last().1@)
    }
}

/// The environment of the command: that of the caller unless it is cleared,
/// without the variables to be taken out, and with those to be set.
pub open spec fn run_env(options: RunOptions, parent: Seq<(String, String)>) -> Map<
    Seq<char>,
    Seq<char>,
> {
    let base = if options.clearenv {
        Map::empty()
    } else {
        env_with(Map::empty(), parent)
    };
    env_with(env_without(base, options.unsetenv@), options.env@)
}

fn set_all(env: &mut EnvVars, vars: &Vec<(String, String)>)
    ensures
        final(env)@ == env_with(old(env)@, vars@),
{
    let ghost start = env@;
    let mut i: usize = 0;
    assert(vars@.take(0) =~= Seq::<(String, String)>::empty());
    while i < vars.len()
        invariant
            i <= vars@.len(),
            env@ == env_with(start, vars@.take(i as int)),
        decreases vars.len() - i,
    {
        assert(vars@.take(i + 1).drop_last() =~= vars@.take(i as int));
        env.insert(vars[i].0.as_str(), vars[i].1.as_str());
        i += 1;
    }
    assert(vars@.take(i as int) =~= vars@);
}

/// Makes the environment of the command.
pub fn compose_env(options: &RunOptions, parent: &Vec<(String, String)>) -> (r: EnvVars)
    ensures
        r@ == run_env(*options, parent@),
{
    let mut env = EnvVars::new();
    if !options.clearenv {
        set_all(&mut env, parent);
    }
    let ghost base = env@;
    let mut i: usize = 0;
    assert(options.unsetenv@.take(0) =~= Seq::<String>::empty());
    while i < options.unsetenv.len()
        invariant
            i <= options.unsetenv@.len(),
            env@ == env_without(base, options.unsetenv@.take(i as int)),
        decreases options.unsetenv.len() - i,
    {
        assert(options.unsetenv@.take(i + 1).drop_last() =~= options.unsetenv@.take(i as int));
        env.remove(options.unsetenv[i].as_str());
        i += 1;
    }
    assert(options.unsetenv@.take(i as int) =~= options.unsetenv@);
    set_all(&mut env, &options.env);
    env
}

proof fn lemma_env_with(env: Map<Seq<char>, Seq<char>>, vars: Seq<(String, String)>, i: int)
    requires
        0 <= i < vars.len(),
        forall|j: int| i < j < vars.len() ==> (#[trigger] vars[j]).0@ != vars[i].0@,
    ensures
        env_with(env, vars).dom().contains(vars[i].0@),
        env_with(env, vars)[vars[i].0@] == vars[i].1@,
    decreases vars.len(),
{
    if i < vars.len() - 1 {
        let rest = vars.drop_last();
        assert forall|j: int| i < j < rest.len() implies (#[trigger] rest[j]).0@ != rest[i].0@ by {
            assert(vars[j].0@ != vars[i].0@);
        }
        lemma_env_with(env, rest, i);
        assert(vars[vars.len() - 1].0@ != vars[i].0@);
    }
}

/// A variable that is set on the command line has the value of its last
/// setting, whatever the caller's environment and whatever is taken out.
pub proof fn last_setting_wins(options: RunOptions, parent: Seq<(String, String)>, i: int)
    requires
        0 <= i < options.env@.len(),
        forall|j: int|
            i < j < options.env@.len() ==> (#[trigger] options.env@[j]).0@
                != options.env@[i].0@,
    ensures
        run_env(options, parent).dom().contains(options.env@[i].0@),
        run_env(options, parent)[options.env@[i].0@] == options.env@[i].1@,
{
    let base = if options.clearenv {
        Map::empty()
    } else {
        env_with(Map::empty(), parent)
    };
    lemma_env_with(env_without(base, options.unsetenv@), options.env@, i);
}

proof fn lemma_env_with_other(
    env: Map<Seq<char>, Seq<char>>,
    vars: Seq<(String, String)>,
    key: Seq<char>,
)
    requires
        forall|j: int| 0 <= j < vars.len() ==> (#[trigger] vars[j]).0@ != key,
    ensures
        env_with(env, vars).dom().contains(key) == env.dom().contains(key),
        env_with(env, vars)[key] == env[key],
    decreases vars.len(),
{
    if vars.len() > 0 {
        let rest = vars.drop_last();
        assert forall|j: int| 0 <= j < rest.len() implies (#[trigger] rest[j]).0@ != key by {
            assert(vars[j].0@ != key);
        }
        lemma_env_with_other(env, rest, key);
        assert(vars[vars.len() - 1].0@ != key);
    }
}

proof fn lemma_env_without(
    env: Map<Seq<char>, Seq<char>>,
    keys: Seq<String>,
    key: Seq<char>,
)
    ensures
        (exists|i: int| 0 <= i < keys.len() && (#[trigger] keys[i])@ == key) ==> !env_without(
            env,
            keys,
        ).dom().contains(key),
        env_without(env, keys).dom().contains(key) ==> env.dom().contains(key),
    decreases keys.len(),
{
    if keys.len() > 0 {
        let rest = keys.drop_last();
        lemma_env_without(env, rest, key);
        if exists|i: int| 0 <= i < keys.len() && (#[trigger] keys[i])@ == key {
            let i = choose|i: int| 0 <= i < keys.len() && (#[trigger] keys[i])@ == key;
            if i < rest.len() {
                assert(rest[i]@ == key);
            }
        }
    }
}

/// A variable that is taken out and not set again is not there.
pub proof fn unset_variable_is_gone(
    options: RunOptions,
    parent: Seq<(String, String)>,
    i: int,
)
    requires
        0 <= i < options.unsetenv@.len(),
        forall|j: int|
            0 <= j < options.env@.len() ==> (#[trigger] options.env@[j]).0@
                != options.unsetenv@[i]@,
    ensures
        !run_env(options, parent).dom().contains(options.unsetenv@[i]@),
{
    let base = if options.clearenv {
        Map::empty()
    } else {
        env_with(Map::empty(), parent)
    };
    lemma_env_without(base, options.unsetenv@, options.unsetenv@[i]@);
    lemma_env_with_other(
        env_without(base, options.unsetenv@),
        options.env@,
        options.unsetenv@[i]@,
    );
}

proof fn lemma_env_without_others(
    env: Map<Seq<char>, Seq<char>>,
    keys: Seq<String>,
    key: Seq<char>,
)
    requires
        forall|i: int| 0 <= i < keys.len() ==> (#[trigger] keys[i])@ != key,
    ensures
        env_without(env, keys).dom().contains(key) == env.dom().contains(key),
        env.dom().contains(key) ==> env_without(env, keys)[key] == env[key],
    decreases keys.len(),
{
    if keys.len() > 0 {
        let rest = keys.drop_last();
        assert forall|i: int| 0 <= i < rest.len() implies (#[trigger] rest[i])@ != key by {
            assert(keys[i]@ != key);
        }
        lemma_env_without_others(env, rest, key);
        assert(keys[keys.len() - 1]@ != key);
    }
}

/// A variable of the caller is handed on: where the environment is not cleared,
/// a name that is neither taken out nor set on the command line has the value of
/// its last setting in the caller's environment.
pub proof fn inherited_variable_stays(
    options: RunOptions,
    parent: Seq<(String, String)>,
    i: int,
)
    requires
        !options.clearenv,
        0 <= i < parent.len(),
        forall|j: int| i < j < parent.len() ==> (#[trigger] parent[j]).0@ != parent[i].0@,
        forall|j: int|
            0 <= j < options.unsetenv@.len() ==> (#[trigger] options.unsetenv@[j])@
                != parent[i].0@,
        forall|j: int|
            0 <= j < options.env@.len() ==> (#[trigger] options.env@[j]).0@ != parent[i].0@,
    ensures
        run_env(options, parent).dom().contains(parent[i].0@),
        run_env(options, parent)[parent[i].0@] == parent[i].1@,
{
    let key = parent[i].0@;
    let base = env_with(Map::empty(), parent);
    lemma_env_with(Map::empty(), parent, i);
    lemma_env_without_others(base, options.unsetenv@, key);
    lemma_env_with_other(env_without(base, options.unsetenv@), options.env@, key);
}

/// Nothing comes into the environment by itself: a variable that neither the
/// caller has nor the command line sets is not there.
pub proof fn no_variable_is_made_up(
    options: RunOptions,
    parent: Seq<(String, String)>,
    key: Seq<char>,
)
    requires
        forall|j: int| 0 <= j < parent.len() ==> (#[trigger] parent[j]).0@ != key,
        forall|j: int| 0 <= j < options.env@.len() ==> (#[trigger] options.env@[j]).0@ != key,
    ensures
        !run_env(options, parent).dom().contains(key),
{
    let base = if options.clearenv {
        Map::empty()
    } else {
        env_with(Map::empty(), parent)
    };
    lemma_env_with_other(Map::empty(), parent, key);
    lemma_env_without(base, options.unsetenv@, key);
    lemma_env_with_other(env_without(base, options.unsetenv@), options.env@, key);
}

/// A cleared environment holds nothing but what the command line sets.
pub proof fn cleared_environment_is_bare(
    options: RunOptions,
    parent: Seq<(String, String)>,
    key: Seq<char>,
)
    requires
        options.clearenv,
        forall|j: int| 0 <= j < options.env@.len() ==> (#[trigger] options.env@[j]).0@ != key,
    ensures
        !run_env(options, parent).dom().contains(key),
{
    lemma_env_without(Map::empty(), options.unsetenv@, key);
    lemma_env_with_other(
        env_without(Map::empty(), options.unsetenv@),
        options.env@,
        key,
    );
}

/// Whether a command is the one that the options ask for.
pub open spec fn command_fits(
    options: RunOptions,
    config: SandboxConfig,
    current_dir: Seq<char>,
    parent: Seq<(String, String)>,
    spec: CommandSpec,
) -> bool {
    &&& spec.program@ == options.command@[0]@
    &&& text::views(spec.args@) == text::views(options.command@).skip(1)
    &&& spec.cwd@ == match options.chdir {
        Some(dir) => dir@,
        None => current_dir,
    }
    &&& spec.env@ == run_env(options, parent)
    &&& spec.timeout_millis == run_millis(
        options.timeout,
        config.timeout_default_secs,
        config.timeout_max_secs,
    )
}

/// The command is the one that was given: the first word is the program and each
/// other one an argument in its place; it runs where it was told to, or else
/// where the caller is, with the caller's environment as far as it was not
/// cleared, taken out or set anew, and never longer than allowed.
pub proof fn command_is_the_one_given(
    options: RunOptions,
    config: SandboxConfig,
    current_dir: Seq<char>,
    parent: Seq<(String, String)>,
    spec: CommandSpec,
)
    requires
        options.command@.len() > 0,
        command_fits(options, config, current_dir, parent, spec),
    ensures
        spec.program@ == options.command@[0]@,
        spec.args@.len() == options.command@.len() - 1,
        forall|i: int|
            0 <= i < spec.args@.len() ==> (#[trigger] spec.args@[i])@ == options.command@[i + 1]@,
        options.chdir matches Some(dir) ==> spec.cwd@ == dir@,
        options.chdir is None ==> spec.cwd@ == current_dir,
        spec.timeout_millis <= config.timeout_max_secs * 1000,
        forall|i: int|
            #![trigger parent[i]]
            0 <= i < parent.len() && !options.clearenv && (forall|j: int|
                i < j < parent.len() ==> (#[trigger] parent[j]).0@ != parent[i].0@) && (forall|j: int|
                0 <= j < options.unsetenv@.len() ==> (#[trigger] options.unsetenv@[j])@
                    != parent[i].0@) && (forall|j: int|
                0 <= j < options.env@.len() ==> (#[trigger] options.env@[j]).0@ != parent[i].0@)
                ==> spec.env@.dom().contains(parent[i].0@) && spec.env@[parent[i].0@]
                == parent[i].1@,
        forall|i: int|
            #![trigger options.env@[i]]
            0 <= i < options.env@.len() && (forall|j: int|
                i < j < options.env@.len() ==> (#[trigger] options.env@[j]).0@
                    != options.env@[i].0@) ==> spec.env@.dom().contains(options.env@[i].0@)
                && spec.env@[options.env@[i].0@] == options.env@[i].1@,
{
    let args = text::views(spec.args@);
    let all = text::views(options.command@);
    assert(args.len() == spec.args@.len() && all.len() == options.command@.len());
    assert forall|i: int| 0 <= i < spec.args@.len() implies (#[trigger] spec.args@[i])@
        == options.command@[i + 1]@ by {
        assert(args[i] == spec.args@[i]@);
        assert(args[i] == all[i + 1]);
    }
    assert forall|i: int|
        #![trigger parent[i]]
        0 <= i < parent.len() && !options.clearenv && (forall|j: int|
            i < j < parent.len() ==> (#[trigger] parent[j]).0@ != parent[i].0@) && (forall|j: int|
            0 <= j < options.unsetenv@.len() ==> (#[trigger] options.unsetenv@[j])@ != parent[i].0@)
            && (forall|j: int|
            0 <= j < options.env@.len() ==> (#[trigger] options.env@[j]).0@
                != parent[i].0@) implies spec.env@.dom().contains(parent[i].0@)
        && spec.env@[parent[i].0@] == parent[i].1@ by {
        inherited_variable_stays(options, parent, i);
    }
    assert forall|i: int|
        #![trigger options.env@[i]]
        0 <= i < options.env@.len() && (forall|j: int|
            i < j < options.env@.len() ==> (#[trigger] options.env@[j]).0@
                != options.env@[i].0@) implies spec.env@.dom().contains(options.env@[i].0@)
        && spec.env@[options.env@[i].0@] == options.env@[i].1@ by {
        last_setting_wins(options, parent, i);
    }
}

/// Makes the command that the options ask for; `current_dir` is the directory
/// of the caller and `parent` its environment.
pub fn build_command(
    options: &RunOptions,
    config: &SandboxConfig,
    current_dir: &str,
    parent: &Vec<(String, String)>,
) -> (r: CommandSpec)
    requires
        options.command@.len() > 0,
    ensures
        command_fits(*options, *config, current_dir@, parent@, r),
        r.program@ == options.command@[0]@,
        text::views(r.args@) == text::views(options.command@).skip(1),
        r.cwd@ == match options.chdir {
            Some(dir) => dir@,
            None => current_dir@,
        },
        r.env@ == run_env(*options, parent@),
        r.timeout_millis == run_millis(
            options.timeout,
            config.timeout_default_secs,
            config.timeout_max_secs,
        ),
{
    let ghost all = text::views(options.command@);
    let mut args: Vec<String> = Vec::new();
    let mut i: usize = 1;
    while i < options.command.len()
        invariant
            1 <= i <= options.command@.len(),
            all == text::views(options.command@),
            text::views(args@) == all.subrange(1, i as int),
        decreases options.command.len() - i,
    {
        let ghost before = text::views(args@);
        let arg = options.command[i].clone();
        assert(arg@ == all[i as int]);
        args.push(arg);
        i += 1;
        assert(text::views(args@) =~= before.push(arg@));
        assert(text::views(args@) =~= all.subrange(1, i as int));
    }
    assert(all.subrange(1, i as int) =~= all.skip(1));
    let cwd = match &options.chdir {
        Some(dir) => dir.clone(),
        None => current_dir.to_owned(),
    };
    CommandSpec {
        program: options.command[0].clone(),
        args,
        cwd,
        env: compose_env(options, parent),
        timeout_millis: run_timeout(options.timeout, config),
    }
}

/// The exit status of the sandbox after a run.
pub open spec fn status_of(reason: ReasonView) -> i32 {
    match reason {
        ReasonView::Success => 0,
        ReasonView::Denied { .. } => 126,
        ReasonView::Program(code) => code,
        ReasonView::InternalError(_) => 125,
    }
}

/// What is said about a run on the error output.
pub open spec fn remark_on(reason: ReasonView) -> Option<Seq<char>> {
    match reason {
        ReasonView::Success => None,
        ReasonView::Denied { mechanism, message } => Some(
            "Sandbox denial ("@ + mechanism.name_spec() + "): "@ + message,
        ),
        ReasonView::Program(code) => if code != 0 {
            Some("[seabox] command failed (exit code "@ + text::signed_decimal(code as int) + ")"@)
        } else {
            None
        },
        ReasonView::InternalError(message) => Some("Internal error: "@ + message),
    }
}

/// Success exits with zero, a denial with 126, a failure of the sandbox with
/// 125, and a command that failed by itself with its own code. Something is said
/// of every run that did not end with zero.
pub proof fn exit_statuses(reason: ReasonView)
    ensures
        reason is Success ==> status_of(reason) == 0,
        reason is Denied ==> status_of(reason) == 126,
        reason is InternalError ==> status_of(reason) == 125,
        reason matches ReasonView::Program(code) ==> status_of(reason) == code,
        remark_on(reason) is None <==> status_of(reason) == 0,
{
}

/// What is said of a denial ends with its message and names the mechanism, what
/// is said of a failure of the sandbox ends with its message, and what is said of
/// a command that failed holds its exit code.
pub proof fn remarks_carry_the_message(mechanism: DenyMechanism, message: Seq<char>, code: i32)
    ensures
        remark_on(ReasonView::Denied { mechanism, message }) == Some(
            "Sandbox denial ("@ + mechanism.name_spec() + "): "@ + message,
        ),
        mechanism is Landlock ==> mechanism.name_spec() == "Landlock"@,
        mechanism is Seccomp ==> mechanism.name_spec() == "Seccomp"@,
        remark_on(ReasonView::InternalError(message)) == Some("Internal error: "@ + message),
        code != 0 ==> remark_on(ReasonView::Program(code)) == Some(
            "[seabox] command failed (exit code "@ + text::signed_decimal(code as int) + ")"@,
        ),
{
}

/// The exit status of the sandbox after a run, and what is said about it.
pub fn report_exit(reason: &ExitReason) -> (r: (i32, Option<String>))
    ensures
        r.0 == status_of(reason@),
        crate::config::opt_view(r.1) == remark_on(reason@),
{
    match reason {
        ExitReason::Success => (0, None),
        ExitReason::Denied { mechanism, message } => {
            let mut out = "Sandbox denial (".to_owned();
            out.append(mechanism.name());
            out.append("): ");
            out.append(message.as_str());
            (126, Some(out))
        },
        ExitReason::Program(code) => if *code != 0 {
            let mut out = "[seabox] command failed (exit code ".to_owned();
            text::push_signed(&mut out, *code);
            out.append(")");
            (*code, Some(out))
        } else {
            (*code, None)
        },
        ExitReason::InternalError(message) => {
            let mut out = "Internal error: ".to_owned();
            out.append(message.as_str());
            (125, Some(out))
        },
    }
}

/// The exit status of the sandbox where a command could not be run, and what is
/// said about it: the sandbox itself failed.
pub fn report_failure(error: &ExecError) -> (r: (i32, String))
    ensures
        r.0 == 125,
        r.1@ == error@.message(),
{
    (125, error.message())
}

/// The status 126 is kept for denials: a command that ends with it by itself
/// is taken for one.
pub proof fn denials_alone_exit_126(
    arch: Arch,
    exit_code: i32,
    blocked: Option<(u32, u32)>,
    stderr: Seq<char>,
    reason: ReasonView,
)
    requires
        classified(arch, exit_code, blocked, stderr, reason),
    ensures
        status_of(reason) == 126 <==> reason is Denied,
        reason is Program ==> status_of(reason) == exit_code,
        status_of(reason) == 0 <==> reason is Success,
{
}

/// Sharing the network of the host goes before any isolation, and isolating
/// everything isolates everything else.
pub proof fn sharing_the_network_wins(options: RunOptions, euid: u32)
    ensures
        options.share_net ==> !namespaces_for(options, euid).net,
        options.unshare_all ==> ({
            let ns = namespaces_for(options, euid);
            ns.user && ns.ipc && ns.mnt && ns.pid && ns.uts && ns.cgroup && ns.net
                == !options.share_net
        }),
{
}

/// A caller who is not root gets a PID or network namespace only together with
/// a user namespace.
pub proof fn isolation_comes_with_user_namespace(options: RunOptions, euid: u32)
    requires
        euid != 0,
        namespaces_for(options, euid).pid || namespaces_for(options, euid).net,
    ensures
        namespaces_for(options, euid).user,
{
}

/// Where something is mounted, there is a mount namespace.
pub proof fn mounts_come_with_namespace(options: RunOptions, euid: u32, config: SandboxConfig)
    requires
        config_fits(options, euid, config),
        config.mount.specs@.len() > 0,
    ensures
        config.namespaces.mnt,
{
    assert(spec_views(config.mount.specs@).len() == config.mount.specs@.len());
}

/// What is said of the server, which does not exist.
pub fn cmd_serve(port: u16) -> (r: String)
    ensures
        r@ == "HTTP API server not yet implemented (port "@ + text::decimal(port as nat) + ")"@,
{
    let mut out = "HTTP API server not yet implemented (port ".to_owned();
    text::push_decimal(&mut out, port as u64);
    out.append(")");
    out
}

} // verus!
