//! The configuration of a sandbox and the small languages it is written in.

pub use crate::capability::{CapOp, Capability, CapabilityConfig, UnknownCapability};
use crate::linux::mount::{MS_BIND, MS_NODEV, MS_NOSUID, MS_REC};
use crate::perm::{lemma_names_are_long, perm_names_are_unique, LandlockPerm, LandlockRule};
use crate::text;
use vstd::prelude::*;

verus! {

/// Everything that is asked of a sandbox.
#[derive(Debug, Clone)]
pub struct SandboxConfig {
    /// File system rules; without any, the file system is not restricted.
    pub landlock: Vec<LandlockRule>,
    /// Namespaces.
    pub namespaces: NamespacesConfig,
    /// Network.
    pub network: NetworkConfig,
    /// Mounts.
    pub mount: MountConfig,
    /// Seconds that a command may run where nothing else is said.
    pub timeout_default_secs: u64,
    /// Seconds that a command may run at most.
    pub timeout_max_secs: u64,
    /// Numbers of the system calls that are denied and reported.
    pub seccomp_deny_nrs: Vec<u32>,
    /// Further filters, as raw bytes.
    pub seccomp_filter_bytes: Vec<Vec<u8>>,
    /// Capabilities.
    pub capabilities: CapabilityConfig,
}

/// Network access inside the sandbox.
#[derive(Debug, Clone, Copy, PartialEq, Eq, Structural)]
pub struct NetworkConfig {
    /// Bring up the loopback interface of an isolated network namespace.
    pub loopback: bool,
}

impl Default for NetworkConfig {
    /// Loopback stays down.
    fn default() -> (r: NetworkConfig)
        ensures
            !r.loopback,
    {
        NetworkConfig { loopback: false }
    }
}

impl NetworkConfig {
    /// Turns loopback on or off.
    pub fn with_loopback(self, enabled: bool) -> (r: NetworkConfig)
        ensures
            r.loopback == enabled,
    {
        NetworkConfig { loopback: enabled }
    }
}

/// One thing to mount.
#[derive(Debug, Clone)]
pub struct MountSpec {
    /// What is mounted; `None` for a tmpfs.
    pub source: Option<String>,
    /// Where it is mounted.
    pub target: String,
    /// `"none"` for a bind mount, `"tmpfs"` for a tmpfs.
    pub fstype: String,
    /// Flags of `mount(2)`.
    pub flags: u64,
    /// Data of `mount(2)`, such as `size=1G`.
    pub data: Option<String>,
    /// Whether a bind mount is made read-only.
    pub readonly: bool,
}

/// The characters of an optional text.
pub open spec fn opt_view(s: Option<String>) -> Option<Seq<char>> {
    match s {
        Some(s) => Some(s@),
        None => None,
    }
}

/// An optional text is there where it is there, with its characters.
pub proof fn optional_texts_keep_their_characters(s: String)
    ensures
        opt_view(Some(s)) == Some(s@),
        opt_view(None) is None,
{
}

/// A [`MountSpec`] with its texts as sequences of characters.
pub struct MountSpecView {
    pub source: Option<Seq<char>>,
    pub target: Seq<char>,
    pub fstype: Seq<char>,
    pub flags: u64,
    pub data: Option<Seq<char>>,
    pub readonly: bool,
}

impl View for MountSpec {
    type V = MountSpecView;

    open spec fn view(&self) -> MountSpecView {
        MountSpecView {
            source: opt_view(self.source),
            target: self.target@,
            fstype: self.fstype@,
            flags: self.flags,
            data: opt_view(self.data),
            readonly: self.readonly,
        }
    }
}

/// A recursive bind mount.
pub open spec fn bind_view(
    source: Seq<char>,
    target: Seq<char>,
    readonly: bool,
) -> MountSpecView {
    MountSpecView {
        source: Some(source),
        target,
        fstype: "none"@,
        flags: MS_BIND | MS_REC,
        data: None,
        readonly,
    }
}

/// A tmpfs.
pub open spec fn tmpfs_view(target: Seq<char>) -> MountSpecView {
    MountSpecView {
        source: None,
        target,
        fstype: "tmpfs"@,
        flags: MS_NOSUID | MS_NODEV,
        data: None,
        readonly: false,
    }
}

/// A bind mount takes its source to its target with all that is mounted below,
/// and is not itself marked read-only by its flags; a tmpfs has no source and
/// honours neither set-user-id bits nor devices. Neither carries data.
pub proof fn mounts_are_what_they_say(source: Seq<char>, target: Seq<char>, readonly: bool)
    ensures
        bind_view(source, target, readonly).source == Some(source),
        bind_view(source, target, readonly).target == target,
        bind_view(source, target, readonly).fstype == "none"@,
        bind_view(source, target, readonly).flags == 0x5000,
        bind_view(source, target, readonly).data is None,
        bind_view(source, target, readonly).readonly == readonly,
        tmpfs_view(target).source is None,
        tmpfs_view(target).target == target,
        tmpfs_view(target).fstype == "tmpfs"@,
        tmpfs_view(target).flags == 0x6,
        tmpfs_view(target).data is None,
        !tmpfs_view(target).readonly,
{
    assert(4096u64 | 16384u64 == 0x5000 && 2u64 | 4u64 == 6) by (bit_vector);
}

/// The view of a mount is made of its fields.
pub proof fn mount_view_holds_all(spec: MountSpec)
    ensures
        spec@.source is Some <==> spec.source is Some,
        spec.source matches Some(source) ==> spec@.source == Some(source@),
        spec@.target == spec.target@,
        spec@.fstype == spec.fstype@,
        spec@.flags == spec.flags,
        spec@.data is Some <==> spec.data is Some,
        spec.data matches Some(data) ==> spec@.data == Some(data@),
        spec@.readonly == spec.readonly,
{
}

impl MountSpec {
    /// A recursive bind mount that can be written to.
    pub fn bind(source: &str, target: &str) -> (r: MountSpec)
        ensures
            r@ == bind_view(source@, target@, false),
    {
        MountSpec {
            source: Some(source.to_owned()),
            target: target.to_owned(),
            fstype: "none".to_owned(),
            flags: MS_BIND | MS_REC,
            data: None,
            readonly: false,
        }
    }

    /// A recursive bind mount that is read-only.
    pub fn ro_bind(source: &str, target: &str) -> (r: MountSpec)
        ensures
            r@ == bind_view(source@, target@, true),
    {
        MountSpec {
            source: Some(source.to_owned()),
            target: target.to_owned(),
            fstype: "none".to_owned(),
            flags: MS_BIND | MS_REC,
            data: None,
            readonly: true,
        }
    }

    /// An empty file system in memory.
    pub fn tmpfs(target: &str) -> (r: MountSpec)
        ensures
            r@ == tmpfs_view(target@),
    {
        MountSpec {
            source: None,
            target: target.to_owned(),
            fstype: "tmpfs".to_owned(),
            flags: MS_NOSUID | MS_NODEV,
            data: None,
            readonly: false,
        }
    }
}

/// What is mounted inside the sandbox.
#[derive(Debug, Clone)]
pub struct MountConfig {
    /// Prepare the mount namespace even where nothing is mounted.
    pub enabled: bool,
    /// The mounts, in order.
    pub specs: Vec<MountSpec>,
}

impl Default for MountConfig {
    /// Nothing.
    fn default() -> (r: MountConfig)
        ensures
            !r.enabled,
            r.specs@ == Seq::<MountSpec>::empty(),
    {
        MountConfig { enabled: false, specs: Vec::new() }
    }
}

/// Which namespaces the sandbox has of its own.
#[derive(Debug, Clone)]
pub struct NamespacesConfig {
    /// User namespace.
    pub user: bool,
    /// IPC namespace.
    pub ipc: bool,
    /// Mount namespace.
    pub mnt: bool,
    /// PID namespace.
    pub pid: bool,
    /// Network namespace.
    pub net: bool,
    /// UTS namespace.
    pub uts: bool,
    /// Cgroup namespace.
    pub cgroup: bool,
    /// User namespace where the kernel has it.
    pub user_try: bool,
    /// Cgroup namespace where the kernel has it.
    pub cgroup_try: bool,
    /// User number inside the user namespace.
    pub uid: Option<u32>,
    /// Group number inside the user namespace.
    pub gid: Option<u32>,
    /// Host name inside the UTS namespace.
    pub hostname: Option<String>,
}

impl Default for NamespacesConfig {
    /// No namespace.
    fn default() -> (r: NamespacesConfig)
        ensures
            r == no_namespaces(),
    {
        NamespacesConfig {
            user: false,
            ipc: false,
            mnt: false,
            pid: false,
            net: false,
            uts: false,
            cgroup: false,
            user_try: false,
            cgroup_try: false,
            uid: None,
            gid: None,
            hostname: None,
        }
    }
}

/// No namespace at all.
pub open spec fn no_namespaces() -> NamespacesConfig {
    NamespacesConfig {
        user: false,
        ipc: false,
        mnt: false,
        pid: false,
        net: false,
        uts: false,
        cgroup: false,
        user_try: false,
        cgroup_try: false,
        uid: None,
        gid: None,
        hostname: None,
    }
}

/// A sandbox that nothing is asked of shares every namespace with its caller.
pub proof fn nothing_is_isolated_unasked()
    ensures
        ({
            let ns = no_namespaces();
            !(ns.user || ns.ipc || ns.mnt || ns.pid || ns.net || ns.uts || ns.cgroup || ns.user_try
                || ns.cgroup_try) && ns.uid is None && ns.gid is None && ns.hostname is None
        }),
{
}

impl Default for SandboxConfig {
    /// No restriction; thirty seconds, and five minutes at most.
    fn default() -> (r: SandboxConfig)
        ensures
            r.landlock@ == Seq::<LandlockRule>::empty(),
            r.namespaces == no_namespaces(),
            !r.network.loopback,
            !r.mount.enabled,
            r.mount.specs@ == Seq::<MountSpec>::empty(),
            r.timeout_default_secs == 30,
            r.timeout_max_secs == 300,
            r.seccomp_deny_nrs@ == Seq::<u32>::empty(),
            r.seccomp_filter_bytes@ == Seq::<Vec<u8>>::empty(),
            r.capabilities.ops@ == Seq::<CapOp>::empty(),
            !r.capabilities.inherit_base,
    {
        SandboxConfig {
            landlock: Vec::new(),
            namespaces: NamespacesConfig::default(),
            network: NetworkConfig::default(),
            mount: MountConfig::default(),
            timeout_default_secs: 30,
            timeout_max_secs: 300,
            seccomp_deny_nrs: Vec::new(),
            seccomp_filter_bytes: Vec::new(),
            capabilities: CapabilityConfig::default(),
        }
    }
}

/// Whether a path asks for the home directory: `~` alone, or `~/` and more.
pub open spec fn wants_home(s: Seq<char>) -> bool {
    s == "~"@ || text::begins(s, "~/"@)
}

/// The path with the home directory in place of the tilde, where it asks for
/// one and there is one.
pub open spec fn with_home(s: Seq<char>, home: Option<Seq<char>>) -> Seq<char> {
    match home {
        Some(home) => if wants_home(s) {
            home + s.skip(1)
        } else {
            s
        },
        None => s,
    }
}

/// Puts the home directory in place of a leading tilde.
pub fn expand_tilde_with(s: &str, home: &Option<String>) -> (r: String)
    ensures
        r@ == with_home(s@, opt_view(*home)),
{
    proof {
        reveal_strlit("~");
        reveal_strlit("~/");
    }
    if text::same(s, "~") || text::starts_with(s, "~/") {
        if let Some(dir) = home {
            let chars = text::chars_of(s);
            let rest = text::string_from(&chars, 1, chars.len());
            assert(rest@ =~= s@.skip(1));
            let mut out = dir.clone();
            out.append(rest.as_str());
            return out;
        }
    }
    s.to_owned()
}

/// A tilde stands for the home directory alone and before a slash, and nowhere
/// else; without a home directory it stands for itself.
pub proof fn tilde_is_home(rest: Seq<char>, home: Seq<char>, other: Seq<char>)
    requires
        other.len() > 0 ==> other[0] != '~' || (other.len() > 1 && other[1] != '/'),
    ensures
        with_home(seq!['~'], Some(home)) == home,
        with_home(seq!['~', '/'] + rest, Some(home)) == home + seq!['/'] + rest,
        with_home(other, Some(home)) == other,
        with_home(rest, None) == rest,
{
    reveal_strlit("~");
    reveal_strlit("~/");
    assert(seq!['~'] =~= "~"@);
    assert(seq!['~'].skip(1) =~= Seq::<char>::empty());
    assert(home + Seq::<char>::empty() =~= home);
    let path = seq!['~', '/'] + rest;
    assert(path.take(2) =~= "~/"@);
    assert(home + path.skip(1) =~= home + seq!['/'] + rest);
    if text::begins(other, "~/"@) {
        assert(other.take(2)[0] == '~');
        assert(other.take(2)[1] == '/');
    }
}

/// `dirs::home_dir`: the home directory of the user, where there is one, with
/// what is not Unicode in it replaced. It depends on the environment.
#[verifier::external_body]
pub(crate) fn home_dir() -> (r: Option<String>) {
    dirs::home_dir().map(|path| path.to_string_lossy().into_owned())
}

/// Puts the user's home directory in place of a leading tilde.
pub fn expand_tilde(s: &str) -> (r: String)
    ensures
        !wants_home(s@) ==> r@ == s@,
        exists|home: Option<String>| r@ == with_home(s@, #[trigger] opt_view(home)),
{
    let home = home_dir();
    let r = expand_tilde_with(s, &home);
    assert(r@ == with_home(s@, opt_view(home)));
    r
}

/// The permissions of a preset.
pub open spec fn preset(s: Seq<char>) -> Option<Seq<LandlockPerm>> {
    let ro = seq![LandlockPerm::Execute, LandlockPerm::ReadFile, LandlockPerm::ReadDir];
    let rw = ro + seq![
        LandlockPerm::WriteFile,
        LandlockPerm::RemoveDir,
        LandlockPerm::RemoveFile,
        LandlockPerm::MakeDir,
        LandlockPerm::MakeReg,
        LandlockPerm::MakeSym,
        LandlockPerm::Truncate,
    ];
    let rwx = rw + seq![
        LandlockPerm::MakeSock,
        LandlockPerm::MakeFifo,
        LandlockPerm::MakeBlock,
        LandlockPerm::MakeChar,
    ];
    let all = rwx + seq![LandlockPerm::Refer, LandlockPerm::IoctlDev];
    if s == "ro"@ || s == "rx"@ {
        Some(ro)
    } else if s == "rw"@ {
        Some(rw)
    } else if s == "rwx"@ {
        Some(rwx)
    } else if s == "all"@ {
        Some(all)
    } else {
        None
    }
}

/// Whether a word is a preset or the name of a permission.
pub open spec fn perm_known(s: Seq<char>) -> bool {
    preset(s) is Some || exists|perm: LandlockPerm| #[trigger] perm.name_spec() == s
}

/// What a word stands for: the permissions of the preset, or the permission
/// of that name.
pub open spec fn expansion(s: Seq<char>) -> Seq<LandlockPerm> {
    match preset(s) {
        Some(list) => list,
        None => seq![choose|perm: LandlockPerm| #[trigger] perm.name_spec() == s],
    }
}

/// Whether a word is a preset or the name of a permission.
pub fn is_known_perm(s: &str) -> (r: bool)
    ensures
        r == perm_known(s@),
{
    if text::same(s, "ro") || text::same(s, "rx") || text::same(s, "rw") || text::same(s, "rwx")
        || text::same(s, "all") {
        return true;
    }
    match LandlockPerm::parse(s) {
        Ok(perm) => {
            assert(perm.name_spec() == s@);
            true
        },
        Err(_) => false,
    }
}

/// The permissions that a word stands for.
pub fn expand_perm(s: &str) -> (r: Vec<LandlockPerm>)
    requires
        perm_known(s@),
    ensures
        r@ == expansion(s@),
{
    let mut perms: Vec<LandlockPerm> = vec![
        LandlockPerm::Execute,
        LandlockPerm::ReadFile,
        LandlockPerm::ReadDir,
    ];
    let rw = text::same(s, "rw");
    let rwx = text::same(s, "rwx");
    let all = text::same(s, "all");
    if text::same(s, "ro") || text::same(s, "rx") {
        assert(perms@ =~= preset(s@)->0);
        return perms;
    }
    if rw || rwx || all {
        perms.push(LandlockPerm::WriteFile);
        perms.push(LandlockPerm::RemoveDir);
        perms.push(LandlockPerm::RemoveFile);
        perms.push(LandlockPerm::MakeDir);
        perms.push(LandlockPerm::MakeReg);
        perms.push(LandlockPerm::MakeSym);
        perms.push(LandlockPerm::Truncate);
        if rwx || all {
            perms.push(LandlockPerm::MakeSock);
            perms.push(LandlockPerm::MakeFifo);
            perms.push(LandlockPerm::MakeBlock);
            perms.push(LandlockPerm::MakeChar);
            if all {
                perms.push(LandlockPerm::Refer);
                perms.push(LandlockPerm::IoctlDev);
            }
        }
        proof {
            reveal_strlit("rw");
            reveal_strlit("rwx");
            reveal_strlit("all");
            assert("rw"@.len() != "rwx"@.len());
            assert("rw"@.len() != "all"@.len());
            assert("rwx"@[0] != "all"@[0]);
            assert(perms@ =~= preset(s@)->0);
        }
        return perms;
    }
    match LandlockPerm::parse(s) {
        Ok(perm) => {
            proof {
                let named = choose|named: LandlockPerm| #[trigger] named.name_spec() == s@;
                perm_names_are_unique(perm, named);
                assert(seq![perm] =~= expansion(s@));
            }
            vec![perm]
        },
        Err(_) => {
            assert(false);
            Vec::new()
        },
    }
}

/// Each preset grants all that the one before it grants.
pub proof fn presets_grow(perm: LandlockPerm)
    ensures
        preset("ro"@)->0.contains(perm) ==> preset("rw"@)->0.contains(perm),
        preset("rw"@)->0.contains(perm) ==> preset("rwx"@)->0.contains(perm),
        preset("rwx"@)->0.contains(perm) ==> preset("all"@)->0.contains(perm),
        preset("all"@)->0.contains(perm),
        preset("rx"@) == preset("ro"@),
{
    lemma_preset_words();
    let ro = preset("ro"@)->0;
    let rw = preset("rw"@)->0;
    let rwx = preset("rwx"@)->0;
    let all = preset("all"@)->0;
    assert forall|i: int| 0 <= i < ro.len() implies ro[i] == rw[i] by {}
    assert forall|i: int| 0 <= i < rw.len() implies rw[i] == rwx[i] by {}
    assert forall|i: int| 0 <= i < rwx.len() implies rwx[i] == all[i] by {}
    if ro.contains(perm) {
        let i = choose|i: int| 0 <= i < ro.len() && ro[i] == perm;
        assert(rw[i] == perm);
    }
    if rw.contains(perm) {
        let i = choose|i: int| 0 <= i < rw.len() && rw[i] == perm;
        assert(rwx[i] == perm);
    }
    if rwx.contains(perm) {
        let i = choose|i: int| 0 <= i < rwx.len() && rwx[i] == perm;
        assert(all[i] == perm);
    }
    assert(all[0] == LandlockPerm::Execute);
    assert(all[1] == LandlockPerm::ReadFile);
    assert(all[2] == LandlockPerm::ReadDir);
    assert(all[3] == LandlockPerm::WriteFile);
    assert(all[4] == LandlockPerm::RemoveDir);
    assert(all[5] == LandlockPerm::RemoveFile);
    assert(all[6] == LandlockPerm::MakeDir);
    assert(all[7] == LandlockPerm::MakeReg);
    assert(all[8] == LandlockPerm::MakeSym);
    assert(all[9] == LandlockPerm::Truncate);
    assert(all[10] == LandlockPerm::MakeSock);
    assert(all[11] == LandlockPerm::MakeFifo);
    assert(all[12] == LandlockPerm::MakeBlock);
    assert(all[13] == LandlockPerm::MakeChar);
    assert(all[14] == LandlockPerm::Refer);
    assert(all[15] == LandlockPerm::IoctlDev);
}

/// What each preset grants, permission by permission: `ro` lets files and
/// directories be read and programs be run, `rw` lets plain files, directories
/// and links be written, made and removed besides, `rwx` lets devices, pipes and
/// sockets be made besides, and `all` grants everything.
pub proof fn presets_grant(perm: LandlockPerm)
    ensures
        preset("ro"@) matches Some(list) && (list.contains(perm) <==> (perm is Execute
            || perm is ReadFile || perm is ReadDir)),
        preset("rx"@) matches Some(list) && (list.contains(perm) <==> (perm is Execute
            || perm is ReadFile || perm is ReadDir)),
        preset("rw"@) matches Some(list) && (list.contains(perm) <==> !(perm is MakeSock
            || perm is MakeFifo || perm is MakeBlock || perm is MakeChar || perm is Refer
            || perm is IoctlDev)),
        preset("rwx"@) matches Some(list) && (list.contains(perm) <==> !(perm is Refer
            || perm is IoctlDev)),
        preset("all"@) matches Some(list) && list.contains(perm),
{
    lemma_preset_words();
    presets_grow(perm);
    let ro = preset("ro"@)->0;
    let rw = preset("rw"@)->0;
    let rwx = preset("rwx"@)->0;
    let all = preset("all"@)->0;
    assert(ro.len() == 3 && rw.len() == 10 && rwx.len() == 14);
    assert(ro =~= all.take(3));
    assert(rw =~= all.take(10));
    assert(rwx =~= all.take(14));
    assert(all[0] is Execute && all[1] is ReadFile && all[2] is ReadDir);
    assert(all[3] is WriteFile && all[4] is RemoveDir && all[5] is RemoveFile);
    assert(all[6] is MakeDir && all[7] is MakeReg && all[8] is MakeSym && all[9] is Truncate);
    assert(all[10] is MakeSock && all[11] is MakeFifo && all[12] is MakeBlock);
    assert(all[13] is MakeChar && all[14] is Refer && all[15] is IoctlDev);
    let at = choose|i: int| 0 <= i < all.len() && all[i] == perm;
    if at < 3 {
        assert(ro[at] == perm);
    }
    if at < 10 {
        assert(rw[at] == perm);
    }
    if at < 14 {
        assert(rwx[at] == perm);
    }
}

/// A word that is no preset grants the one permission of that name, and no
/// permission has the name of a preset.
pub proof fn name_grants_itself(perm: LandlockPerm)
    ensures
        perm_known(perm.name_spec()),
        expansion(perm.name_spec()) == seq![perm],
{
    lemma_names_are_long(perm);
    reveal_strlit("ro");
    reveal_strlit("rx");
    reveal_strlit("rw");
    reveal_strlit("rwx");
    reveal_strlit("all");
    let named = choose|named: LandlockPerm| #[trigger] named.name_spec() == perm.name_spec();
    perm_names_are_unique(perm, named);
}

/// The words that are known are the five presets and the names of permissions.
pub proof fn known_words(s: Seq<char>)
    ensures
        perm_known(s) <==> (s == "ro"@ || s == "rx"@ || s == "rw"@ || s == "rwx"@ || s == "all"@
            || exists|perm: LandlockPerm| #[trigger] perm.name_spec() == s),
{
}

proof fn lemma_expansions_contain(list: Seq<Seq<char>>, perm: LandlockPerm)
    ensures
        expansions(list).contains(perm) <==> exists|i: int|
            0 <= i < list.len() && expansion(#[trigger] list[i]).contains(perm),
    decreases list.len(),
{
    if list.len() > 0 {
        let rest = list.drop_last();
        let head = expansions(rest);
        let tail = expansion(list.last());
        let all = expansions(list);
        lemma_expansions_contain(rest, perm);
        if all.contains(perm) {
            let k = choose|k: int| 0 <= k < all.len() && all[k] == perm;
            if k < head.len() {
                assert(head[k] == perm);
                let i = choose|i: int|
                    0 <= i < rest.len() && expansion(#[trigger] rest[i]).contains(perm);
                assert(expansion(list[i]).contains(perm));
            } else {
                assert(tail[k - head.len()] == perm);
                assert(expansion(list[list.len() - 1]).contains(perm));
            }
        }
        if exists|i: int| 0 <= i < list.len() && expansion(#[trigger] list[i]).contains(perm) {
            let i = choose|i: int|
                0 <= i < list.len() && expansion(#[trigger] list[i]).contains(perm);
            if i < rest.len() {
                assert(expansion(rest[i]).contains(perm));
                let k = choose|k: int| 0 <= k < head.len() && head[k] == perm;
                assert(all[k] == perm);
            } else {
                let k = choose|k: int| 0 <= k < tail.len() && tail[k] == perm;
                assert(all[head.len() + k] == perm);
            }
        }
    }
}

/// A rule that is written as a path, a colon and words with commas between them
/// is read as that path, and grants a permission exactly where one of the words
/// stands for it.
pub proof fn rule_grants_its_words(
    path: Seq<char>,
    list: Seq<Seq<char>>,
    rule: LandlockRule,
    perm: LandlockPerm,
)
    requires
        !path.contains(':'),
        list.len() > 0,
        forall|i: int| 0 <= i < list.len() ==> !(#[trigger] list[i]).contains(','),
        reads_as_rule(path.push(':') + text::joined_with(list, ','), Ok(rule)),
    ensures
        rule.path@ == path,
        rule.perms@.contains(perm) <==> exists|i: int|
            0 <= i < list.len() && expansion(#[trigger] list[i]).contains(perm),
{
    text::cut_undoes_joining(path, text::joined_with(list, ','), ':');
    text::splitting_undoes_joining(list, ',');
    lemma_expansions_contain(list, perm);
}

/// A rule uses known permissions only where each of its words is known, and a
/// text without a colon uses none.
pub proof fn known_rules_use_known_words(path: Seq<char>, list: Seq<Seq<char>>, other: Seq<char>)
    requires
        !path.contains(':'),
        list.len() > 0,
        forall|i: int| 0 <= i < list.len() ==> !(#[trigger] list[i]).contains(','),
        !other.contains(':'),
    ensures
        spec_perms_known(path.push(':') + text::joined_with(list, ',')) <==> forall|i: int|
            0 <= i < list.len() ==> perm_known(#[trigger] list[i]),
        spec_perms_known(other),
{
    text::cut_undoes_joining(path, text::joined_with(list, ','), ':');
    text::splitting_undoes_joining(list, ',');
    text::lemma_first_at(other, ':');
}

/// A text without a colon is no rule, and a text with one always is.
pub proof fn rules_have_a_colon(s: Seq<char>, r: Result<LandlockRule, InvalidLandlockSpec>)
    requires
        reads_as_rule(s, r),
    ensures
        r is Ok <==> s.contains(':'),
{
    text::lemma_first_at(s, ':');
}

proof fn lemma_preset_words()
    ensures
        "ro"@ != "rw"@,
        "ro"@ != "rwx"@,
        "ro"@ != "all"@,
        "rx"@ != "rw"@,
        "rx"@ != "rwx"@,
        "rx"@ != "all"@,
        "rw"@ != "rwx"@,
        "rw"@ != "all"@,
        "rwx"@ != "all"@,
{
    reveal_strlit("ro");
    reveal_strlit("rx");
    reveal_strlit("rw");
    reveal_strlit("rwx");
    reveal_strlit("all");
    assert("ro"@.len() == 2 && "rx"@.len() == 2 && "rw"@.len() == 2);
    assert("rwx"@.len() == 3 && "all"@.len() == 3);
    assert("ro"@[1] == 'o' && "rx"@[1] == 'x' && "rw"@[1] == 'w');
    assert("rwx"@[0] == 'r' && "all"@[0] == 'a');
}

/// The permissions that a list of words stands for, one after the other.
pub open spec fn expansions(list: Seq<Seq<char>>) -> Seq<LandlockPerm>
    decreases list.len(),
{
    if list.len() == 0 {
        Seq::empty()
    } else {
        expansions(list.drop_last()) + expansion(list.last())
    }
}

/// Whether all words of a list are known.
pub open spec fn perms_known(list: Seq<Seq<char>>) -> bool {
    forall|i: int| 0 <= i < list.len() ==> perm_known(#[trigger] list[i])
}

/// Whether a rule `path:perm1[,perm2...]` uses known permissions only. A text
/// without a colon uses none.
pub open spec fn spec_perms_known(s: Seq<char>) -> bool {
    match text::cut(s, ':') {
        Some(parts) => perms_known(text::pieces(parts.1, ',')),
        None => true,
    }
}

/// A text that is not a rule because it has no colon.
#[derive(Debug, Clone, PartialEq, Eq)]
pub struct InvalidLandlockSpec {
    /// The text.
    pub spec: String,
}

impl InvalidLandlockSpec {
    /// What the error says to a reader.
    pub open spec fn message_spec(spec: Seq<char>) -> Seq<char> {
        "invalid landlock spec '"@ + spec + "'; expected format: path:perm1[,perm2...]"@
    }

    /// The error as a sentence.
    pub fn message(&self) -> (r: String)
        ensures
            r@ == Self::message_spec(self.spec@),
    {
        let mut out = "invalid landlock spec '".to_owned();
        out.append(self.spec.as_str());
        out.append("'; expected format: path:perm1[,perm2...]");
        out
    }
}

/// Whether `r` is what a rule `path:perm1[,perm2...]` reads as.
pub open spec fn reads_as_rule(
    s: Seq<char>,
    r: Result<LandlockRule, InvalidLandlockSpec>,
) -> bool {
    match text::cut(s, ':') {
        Some(parts) => r matches Ok(rule) && rule.path@ == parts.0 && rule.perms@ == expansions(
            text::pieces(parts.1, ','),
        ),
        None => r matches Err(e) && e.spec@ == s,
    }
}

/// Whether a rule uses known permissions only.
pub fn landlock_spec_is_known(s: &str) -> (r: bool)
    ensures
        r == spec_perms_known(s@),
{
    match text::split_once(s, ':') {
        None => true,
        Some(parts) => {
            let chars = text::chars_of(parts.1.as_str());
            let list = text::split(&chars, ',');
            let ghost all = text::pieces(parts.1@, ',');
            assert(text::views(list@) == all);
            let mut i: usize = 0;
            while i < list.len()
                invariant
                    i <= list@.len(),
                    text::views(list@) == all,
                    all == text::pieces(parts.1@, ','),
                    text::cut(s@, ':') == Some((parts.0@, parts.1@)),
                    forall|j: int| 0 <= j < i ==> perm_known(#[trigger] all[j]),
                decreases list.len() - i,
            {
                assert(list@[i as int]@ == all[i as int]);
                if !is_known_perm(list[i].as_str()) {
                    assert(!perm_known(all[i as int]));
                    return false;
                }
                i += 1;
            }
            assert(all.len() == list@.len());
            true
        },
    }
}

/// Reads a rule `path:perm1[,perm2...]`.
pub fn parse_landlock_spec(s: &str) -> (r: Result<LandlockRule, InvalidLandlockSpec>)
    requires
        spec_perms_known(s@),
    ensures
        reads_as_rule(s@, r),
{
    match text::split_once(s, ':') {
        None => Err(InvalidLandlockSpec { spec: s.to_owned() }),
        Some(parts) => {
            let (path, words) = parts;
            let chars = text::chars_of(words.as_str());
            let list = text::split(&chars, ',');
            let ghost all = text::pieces(words@, ',');
            let mut perms: Vec<LandlockPerm> = Vec::new();
            let mut i: usize = 0;
            assert(all.take(0) =~= Seq::<Seq<char>>::empty());
            while i < list.len()
                invariant
                    i <= list@.len(),
                    text::views(list@) == all,
                    perms_known(all),
                    perms@ == expansions(all.take(i as int)),
                decreases list.len() - i,
            {
                assert(list@[i as int]@ == all[i as int]);
                let mut more = expand_perm(list[i].as_str());
                perms.append(&mut more);
                assert(all.take(i + 1).drop_last() =~= all.take(i as int));
                i += 1;
            }
            assert(all.take(i as int) =~= all);
            Ok(LandlockRule { path, perms })
        },
    }
}

impl SandboxConfig {
    /// Adds a file system rule.
    pub fn with_landlock(self, spec: &str) -> (r: Result<SandboxConfig, InvalidLandlockSpec>)
        requires
            spec_perms_known(spec@),
        ensures
            match r {
                Ok(config) => {
                    &&& config.landlock@.drop_last() == self.landlock@
                    &&& config.landlock@.len() == self.landlock@.len() + 1
                    &&& reads_as_rule(spec@, Ok(config.landlock@.last()))
                    &&& config == (SandboxConfig { landlock: config.landlock, ..self })
                },
                Err(e) => reads_as_rule(spec@, Err(e)),
            },
    {
        let mut config = self;
        match parse_landlock_spec(spec) {
            Ok(rule) => {
                config.landlock.push(rule);
                assert(config.landlock@.drop_last() =~= self.landlock@);
                Ok(config)
            },
            Err(e) => Err(e),
        }
    }

    /// Isolates the user namespace.
    pub fn with_unshare_user(self) -> (r: SandboxConfig)
        ensures
            r == (SandboxConfig {
                namespaces: NamespacesConfig { user: true, ..self.namespaces },
                ..self
            }),
    {
        let mut config = self;
        config.namespaces.user = true;
        config
    }

    /// Isolates the IPC namespace.
    pub fn with_unshare_ipc(self) -> (r: SandboxConfig)
        ensures
            r == (SandboxConfig {
                namespaces: NamespacesConfig { ipc: true, ..self.namespaces },
                ..self
            }),
    {
        let mut config = self;
        config.namespaces.ipc = true;
        config
    }

    /// Isolates the PID namespace.
    pub fn with_unshare_pid(self) -> (r: SandboxConfig)
        ensures
            r == (SandboxConfig {
                namespaces: NamespacesConfig { pid: true, ..self.namespaces },
                ..self
            }),
    {
        let mut config = self;
        config.namespaces.pid = true;
        config
    }

    /// Isolates the network namespace.
    pub fn with_unshare_net(self) -> (r: SandboxConfig)
        ensures
            r == (SandboxConfig {
                namespaces: NamespacesConfig { net: true, ..self.namespaces },
                ..self
            }),
    {
        let mut config = self;
        config.namespaces.net = true;
        config
    }

    /// Isolates the UTS namespace.
    pub fn with_unshare_uts(self) -> (r: SandboxConfig)
        ensures
            r == (SandboxConfig {
                namespaces: NamespacesConfig { uts: true, ..self.namespaces },
                ..self
            }),
    {
        let mut config = self;
        config.namespaces.uts = true;
        config
    }

    /// Isolates the cgroup namespace.
    pub fn with_unshare_cgroup(self) -> (r: SandboxConfig)
        ensures
            r == (SandboxConfig {
                namespaces: NamespacesConfig { cgroup: true, ..self.namespaces },
                ..self
            }),
    {
        let mut config = self;
        config.namespaces.cgroup = true;
        config
    }

    /// Isolates the mount namespace.
    pub fn with_unshare_mnt(self) -> (r: SandboxConfig)
        ensures
            r == (SandboxConfig {
                namespaces: NamespacesConfig { mnt: true, ..self.namespaces },
                ..self
            }),
    {
        let mut config = self;
        config.namespaces.mnt = true;
        config
    }

    /// Isolates all seven namespaces.
    pub fn with_unshare_all(self) -> (r: SandboxConfig)
        ensures
            r == (SandboxConfig {
                namespaces: NamespacesConfig {
                    user: true,
                    ipc: true,
                    mnt: true,
                    pid: true,
                    net: true,
                    uts: true,
                    cgroup: true,
                    ..self.namespaces
                },
                ..self
            }),
    {
        let mut config = self;
        config.namespaces.user = true;
        config.namespaces.ipc = true;
        config.namespaces.mnt = true;
        config.namespaces.pid = true;
        config.namespaces.net = true;
        config.namespaces.uts = true;
        config.namespaces.cgroup = true;
        config
    }

    /// Sets the user number inside the user namespace.
    pub fn with_uid(self, uid: u32) -> (r: SandboxConfig)
        ensures
            r == (SandboxConfig {
                namespaces: NamespacesConfig { uid: Some(uid), ..self.namespaces },
                ..self
            }),
    {
        let mut config = self;
        config.namespaces.uid = Some(uid);
        config
    }

    /// Sets the group number inside the user namespace.
    pub fn with_gid(self, gid: u32) -> (r: SandboxConfig)
        ensures
            r == (SandboxConfig {
                namespaces: NamespacesConfig { gid: Some(gid), ..self.namespaces },
                ..self
            }),
    {
        let mut config = self;
        config.namespaces.gid = Some(gid);
        config
    }

    /// Sets the host name inside the UTS namespace.
    pub fn with_hostname(self, name: &str) -> (r: SandboxConfig)
        ensures
            opt_view(r.namespaces.hostname) == Some(name@),
            r == (SandboxConfig {
                namespaces: NamespacesConfig {
                    hostname: r.namespaces.hostname,
                    ..self.namespaces
                },
                ..self
            }),
    {
        let mut config = self;
        config.namespaces.hostname = Some(name.to_owned());
        config
    }

    /// Turns loopback inside an isolated network namespace on or off.
    pub fn with_network(self, enabled: bool) -> (r: SandboxConfig)
        ensures
            r == (SandboxConfig { network: NetworkConfig { loopback: enabled }, ..self }),
    {
        let mut config = self;
        config.network.loopback = enabled;
        config
    }

    /// Whether `r` is `self` with one more mount and a mount namespace.
    pub open spec fn gains_mount(self, spec: MountSpecView, r: SandboxConfig) -> bool {
        &&& r.mount.specs@.drop_last() == self.mount.specs@
        &&& r.mount.specs@.len() == self.mount.specs@.len() + 1
        &&& r.mount.specs@.last()@ == spec
        &&& r == (SandboxConfig {
            mount: MountConfig { specs: r.mount.specs, ..self.mount },
            namespaces: NamespacesConfig { mnt: true, ..self.namespaces },
            ..self
        })
    }

    fn with_mount(self, spec: MountSpec) -> (r: SandboxConfig)
        ensures
            self.gains_mount(spec@, r),
    {
        let mut config = self;
        config.mount.specs.push(spec);
        config.namespaces.mnt = true;
        assert(config.mount.specs@.drop_last() =~= self.mount.specs@);
        config
    }

    /// Adds a bind mount, and with it a mount namespace.
    pub fn with_bind(self, source: &str, target: &str) -> (r: SandboxConfig)
        ensures
            self.gains_mount(bind_view(source@, target@, false), r),
    {
        self.with_mount(MountSpec::bind(source, target))
    }

    /// Adds a read-only bind mount, and with it a mount namespace.
    pub fn with_ro_bind(self, source: &str, target: &str) -> (r: SandboxConfig)
        ensures
            self.gains_mount(bind_view(source@, target@, true), r),
    {
        self.with_mount(MountSpec::ro_bind(source, target))
    }

    /// Adds a tmpfs, and with it a mount namespace.
    pub fn with_tmpfs(self, target: &str) -> (r: SandboxConfig)
        ensures
            self.gains_mount(tmpfs_view(target@), r),
    {
        self.with_mount(MountSpec::tmpfs(target))
    }

    /// Sets the usual and the greatest number of seconds a command may run.
    pub fn with_timeout(self, default_secs: u64, max_secs: u64) -> (r: SandboxConfig)
        ensures
            r == (SandboxConfig {
                timeout_default_secs: default_secs,
                timeout_max_secs: max_secs,
                ..self
            }),
    {
        let mut config = self;
        config.timeout_default_secs = default_secs;
        config.timeout_max_secs = max_secs;
        config
    }

    /// Denies one more system call.
    pub fn with_seccomp_deny_nr(self, nr: u32) -> (r: SandboxConfig)
        ensures
            r.seccomp_deny_nrs@ == self.seccomp_deny_nrs@.push(nr),
            r == (SandboxConfig { seccomp_deny_nrs: r.seccomp_deny_nrs, ..self }),
    {
        let mut config = self;
        config.seccomp_deny_nrs.push(nr);
        config
    }

    /// Adds a filter of raw bytes.
    pub fn with_seccomp_filter(self, bytes: Vec<u8>) -> (r: SandboxConfig)
        ensures
            r.seccomp_filter_bytes@ == self.seccomp_filter_bytes@.push(bytes),
            r == (SandboxConfig { seccomp_filter_bytes: r.seccomp_filter_bytes, ..self }),
    {
        let mut config = self;
        config.seccomp_filter_bytes.push(bytes);
        config
    }

    /// Whether `r` is `self` with one more capability operation.
    pub open spec fn gains_cap_op(self, op: CapOp, r: SandboxConfig) -> bool {
        &&& r.capabilities.ops@ == self.capabilities.ops@.push(op)
        &&& r == (SandboxConfig {
            capabilities: CapabilityConfig { ops: r.capabilities.ops, ..self.capabilities },
            ..self
        })
    }

    fn with_cap_op(self, op: CapOp) -> (r: SandboxConfig)
        ensures
            self.gains_cap_op(op, r),
    {
        let mut config = self;
        config.capabilities.ops.push(op);
        config
    }

    /// Adds the capability of the given name, or all for `ALL`.
    pub fn with_cap_add(self, name: &str) -> (r: Result<SandboxConfig, UnknownCapability>)
        ensures
            match r {
                Ok(config) => exists|op: CapOp|
                    CapOp::read_from(name@, true, Ok(op)) && #[trigger] self.gains_cap_op(
                        op,
                        config,
                    ),
                Err(e) => CapOp::read_from(name@, true, Err(e)),
            },
    {
        match CapOp::from_cli(name, true) {
            Ok(op) => Ok(self.with_cap_op(op)),
            Err(e) => Err(e),
        }
    }

    /// Drops the capability of the given name, or all for `ALL`.
    pub fn with_cap_drop(self, name: &str) -> (r: Result<SandboxConfig, UnknownCapability>)
        ensures
            match r {
                Ok(config) => exists|op: CapOp|
                    CapOp::read_from(name@, false, Ok(op)) && #[trigger] self.gains_cap_op(
                        op,
                        config,
                    ),
                Err(e) => CapOp::read_from(name@, false, Err(e)),
            },
    {
        match CapOp::from_cli(name, false) {
            Ok(op) => Ok(self.with_cap_op(op)),
            Err(e) => Err(e),
        }
    }

    /// Adds all capabilities.
    pub fn with_cap_add_all(self) -> (r: SandboxConfig)
        ensures
            self.gains_cap_op(CapOp::AddAll, r),
    {
        self.with_cap_op(CapOp::AddAll)
    }

    /// Drops all capabilities.
    pub fn with_cap_drop_all(self) -> (r: SandboxConfig)
        ensures
            self.gains_cap_op(CapOp::DropAll, r),
    {
        self.with_cap_op(CapOp::DropAll)
    }

    /// Says whether to start from the capabilities of the caller.
    pub fn with_cap_inherit(self, inherit: bool) -> (r: SandboxConfig)
        ensures
            r == (SandboxConfig {
                capabilities: CapabilityConfig { inherit_base: inherit, ..self.capabilities },
                ..self
            }),
    {
        let mut config = self;
        config.capabilities.inherit_base = inherit;
        config
    }
}

/// A mount that is added comes last and brings the mount namespace; nothing else
/// changes.
pub proof fn added_mount_comes_last(before: SandboxConfig, spec: MountSpecView, after: SandboxConfig)
    requires
        before.gains_mount(spec, after),
    ensures
        after.namespaces.mnt,
        after.mount.specs@.len() == before.mount.specs@.len() + 1,
        after.mount.specs@[before.mount.specs@.len() as int]@ == spec,
        forall|i: int|
            0 <= i < before.mount.specs@.len() ==> (#[trigger] after.mount.specs@[i])
                == before.mount.specs@[i],
        after.mount.enabled == before.mount.enabled,
        after.namespaces.user == before.namespaces.user,
        after.namespaces.ipc == before.namespaces.ipc,
        after.namespaces.pid == before.namespaces.pid,
        after.namespaces.net == before.namespaces.net,
        after.namespaces.uts == before.namespaces.uts,
        after.namespaces.cgroup == before.namespaces.cgroup,
        after.namespaces.hostname == before.namespaces.hostname,
        after.landlock == before.landlock,
        after.network == before.network,
        after.seccomp_deny_nrs == before.seccomp_deny_nrs,
        after.seccomp_filter_bytes == before.seccomp_filter_bytes,
        after.capabilities == before.capabilities,
{
    assert forall|i: int| 0 <= i < before.mount.specs@.len() implies (
    #[trigger] after.mount.specs@[i]) == before.mount.specs@[i] by {
        assert(after.mount.specs@.drop_last()[i] == after.mount.specs@[i]);
    }
}

/// A capability operation that is added comes last, and nothing else changes.
pub proof fn added_operation_comes_last(before: SandboxConfig, op: CapOp, after: SandboxConfig)
    requires
        before.gains_cap_op(op, after),
    ensures
        after.capabilities.ops@ == before.capabilities.ops@.push(op),
        after.capabilities.inherit_base == before.capabilities.inherit_base,
        after.namespaces == before.namespaces,
        after.landlock == before.landlock,
        after.network == before.network,
        after.mount == before.mount,
        after.seccomp_deny_nrs == before.seccomp_deny_nrs,
        after.seccomp_filter_bytes == before.seccomp_filter_bytes,
{
}

} // verus!
