//! From a configuration and a command to the plan of a child, and from the
//! end of the child to a verdict.

use crate::command::CommandSpec;
use crate::config::{expand_tilde_with, opt_view, with_home, NamespacesConfig, SandboxConfig};
use crate::linux::caps::{
    bounding_excess, flag_sum, flags_tell_answers, natural_set, needs_ambient, needs_bounding,
    needs_capset, nothing_by_default, requested_set, resolve_caps, CapStep, ResolvedCaps,
    CAP_F_NEED_AMBIENT, CAP_F_NEED_BOUNDING, CAP_F_NEED_CAPSET, FULL_SET,
};
use crate::linux::child_setup::{
    child_steps, hostname_is_set_where_planned, nothing_is_dropped, steps_are_those_planned,
    ChildPlan, ChildStep, ExtFilterDesc, NsOp,
};
use crate::linux::mount::{
    fault, missing_paths_are_told, op_views, ops_upto, prepare_mount_ops, MountError, MountErrorView,
    MountProbe,
};
use crate::linux::namespaces::{
    CLONE_NEWCGROUP, CLONE_NEWIPC, CLONE_NEWNET, CLONE_NEWNS, CLONE_NEWUSER, CLONE_NEWUTS,
};
use crate::linux::seccomp::{
    build_deny_filter, decode_filter, decoded, deny_program, deny_program_decides, entry_with_nr,
    entry_with_nr_is_unique, run,
    seccomp_data, sock_filter, syscall_by_nr, syscall_table, Arch, Syscall, INSN_SIZE, SECCOMP_RET_ALLOW,
    SECCOMP_RET_KILL_PROCESS, SECCOMP_RET_USER_NOTIF,
};
use crate::outcome::{DenyMechanism, ExitReason, ReasonView};
use crate::text;
use vstd::prelude::*;

verus! {

/// Whether a sandbox has a user namespace: where it is asked for, where the
/// PID namespace needs one because the caller is not root, and where
/// capabilities are added.
pub open spec fn effective_user(config: SandboxConfig, euid: u32) -> bool {
    config.namespaces.user || (config.namespaces.pid && euid != 0) || config.capabilities.adds()
}

/// Whether a sandbox has a mount namespace: where it is asked for, among the
/// namespaces or by enabling mounts, and where something is mounted.
pub open spec fn effective_mnt(config: SandboxConfig) -> bool {
    config.namespaces.mnt || config.mount.enabled || config.mount.specs@.len() > 0
}

/// One `unshare` call, where it is wanted.
pub open spec fn op_if(wanted: bool, flag: i32, soft: bool) -> Seq<NsOp> {
    if wanted {
        seq![
            NsOp {
                flag,
                try_mode: if soft {
                    1
                } else {
                    0
                },
            },
        ]
    } else {
        Seq::empty()
    }
}

/// The `unshare` calls for the namespaces other than the PID namespace. The
/// user namespace comes first, since it gives the right to make the others.
pub open spec fn ns_ops_for(ns: NamespacesConfig, user: bool, mnt: bool) -> Seq<NsOp> {
    op_if(user || ns.user_try, CLONE_NEWUSER, ns.user_try) + op_if(mnt, CLONE_NEWNS, false)
        + op_if(ns.ipc, CLONE_NEWIPC, false) + op_if(ns.net, CLONE_NEWNET, false) + op_if(
        ns.uts,
        CLONE_NEWUTS,
        false,
    ) + op_if(ns.cgroup || ns.cgroup_try, CLONE_NEWCGROUP, ns.cgroup_try)
}

fn push_op(ops: &mut Vec<NsOp>, wanted: bool, flag: i32, soft: bool)
    ensures
        final(ops)@ == old(ops)@ + op_if(wanted, flag, soft),
{
    let ghost before = ops@;
    if wanted {
        let try_mode: i32 = if soft {
            1
        } else {
            0
        };
        ops.push(NsOp { flag, try_mode });
    }
    assert(ops@ =~= before + op_if(wanted, flag, soft));
}

/// Lists the `unshare` calls for the namespaces other than the PID namespace.
pub fn list_ns_ops(ns: &NamespacesConfig, user: bool, mnt: bool) -> (r: Vec<NsOp>)
    ensures
        r@ == ns_ops_for(*ns, user, mnt),
{
    let mut ops: Vec<NsOp> = Vec::new();
    assert(ops@ + op_if(user || ns.user_try, CLONE_NEWUSER, ns.user_try) =~= op_if(
        user || ns.user_try,
        CLONE_NEWUSER,
        ns.user_try,
    ));
    push_op(&mut ops, user || ns.user_try, CLONE_NEWUSER, ns.user_try);
    push_op(&mut ops, mnt, CLONE_NEWNS, false);
    push_op(&mut ops, ns.ipc, CLONE_NEWIPC, false);
    push_op(&mut ops, ns.net, CLONE_NEWNET, false);
    push_op(&mut ops, ns.uts, CLONE_NEWUTS, false);
    push_op(&mut ops, ns.cgroup || ns.cgroup_try, CLONE_NEWCGROUP, ns.cgroup_try);
    ops
}

/// A namespace that is asked for without the `try` variant is never given up
/// quietly: its call is there and ends the child where it fails.
pub proof fn asked_namespaces_are_strict(ns: NamespacesConfig, user: bool, mnt: bool)
    ensures
        mnt ==> ns_ops_for(ns, user, mnt).contains(NsOp { flag: CLONE_NEWNS, try_mode: 0 }),
        ns.ipc ==> ns_ops_for(ns, user, mnt).contains(NsOp { flag: CLONE_NEWIPC, try_mode: 0 }),
        ns.net ==> ns_ops_for(ns, user, mnt).contains(NsOp { flag: CLONE_NEWNET, try_mode: 0 }),
        ns.uts ==> ns_ops_for(ns, user, mnt).contains(NsOp { flag: CLONE_NEWUTS, try_mode: 0 }),
        user && !ns.user_try ==> ns_ops_for(ns, user, mnt).contains(
            NsOp { flag: CLONE_NEWUSER, try_mode: 0 },
        ),
        ns.cgroup && !ns.cgroup_try ==> ns_ops_for(ns, user, mnt).contains(
            NsOp { flag: CLONE_NEWCGROUP, try_mode: 0 },
        ),
{
    let a = op_if(user || ns.user_try, CLONE_NEWUSER, ns.user_try);
    let b = op_if(mnt, CLONE_NEWNS, false);
    let c = op_if(ns.ipc, CLONE_NEWIPC, false);
    let d = op_if(ns.net, CLONE_NEWNET, false);
    let e = op_if(ns.uts, CLONE_NEWUTS, false);
    let all = ns_ops_for(ns, user, mnt);
    if mnt {
        assert(all[a.len() as int] == NsOp { flag: CLONE_NEWNS, try_mode: 0 });
    }
    if ns.ipc {
        assert(all[(a.len() + b.len()) as int] == NsOp { flag: CLONE_NEWIPC, try_mode: 0 });
    }
    if ns.net {
        assert(all[(a.len() + b.len() + c.len()) as int] == NsOp {
            flag: CLONE_NEWNET,
            try_mode: 0,
        });
    }
    if ns.uts {
        assert(all[(a.len() + b.len() + c.len() + d.len()) as int] == NsOp {
            flag: CLONE_NEWUTS,
            try_mode: 0,
        });
    }
    if user && !ns.user_try {
        assert(all[0] == NsOp { flag: CLONE_NEWUSER, try_mode: 0 });
    }
    if ns.cgroup && !ns.cgroup_try {
        assert(all[(a.len() + b.len() + c.len() + d.len() + e.len()) as int] == NsOp {
            flag: CLONE_NEWCGROUP,
            try_mode: 0,
        });
    }
}

proof fn lemma_op_members(ops: Seq<NsOp>, wanted: bool, flag: i32, soft: bool, op: NsOp)
    ensures
        (ops + op_if(wanted, flag, soft)).contains(op) <==> (ops.contains(op) || (wanted && op.flag
            == flag && op.try_mode == if soft {
            1i32
        } else {
            0i32
        })),
        op_if(wanted, flag, soft).contains(op) <==> (wanted && op.flag == flag && op.try_mode
            == if soft {
            1i32
        } else {
            0i32
        }),
{
    let last = op_if(wanted, flag, soft);
    let all = ops + last;
    if wanted {
        assert(last[0].flag == flag);
        assert(all[ops.len() as int] == last[0]);
    }
    if ops.contains(op) {
        let i = choose|i: int| 0 <= i < ops.len() && ops[i] == op;
        assert(all[i] == op);
    }
    if all.contains(op) {
        let i = choose|i: int| 0 <= i < all.len() && all[i] == op;
        if i < ops.len() {
            assert(ops[i] == op);
        } else {
            assert(last[i - ops.len()] == op);
        }
    }
}

/// The namespaces that are entered are those that are wanted, each by its own
/// flag, and no others; a failure is passed over exactly for those that are to
/// be tried.
pub proof fn namespaces_are_those_wanted(ns: NamespacesConfig, user: bool, mnt: bool, op: NsOp)
    ensures
        ns_ops_for(ns, user, mnt).contains(op) <==> ({
            ||| op.flag == CLONE_NEWUSER && (user || ns.user_try) && op.try_mode == (
            if ns.user_try {
                1i32
            } else {
                0i32
            })
            ||| op.flag == CLONE_NEWNS && mnt && op.try_mode == 0
            ||| op.flag == CLONE_NEWIPC && ns.ipc && op.try_mode == 0
            ||| op.flag == CLONE_NEWNET && ns.net && op.try_mode == 0
            ||| op.flag == CLONE_NEWUTS && ns.uts && op.try_mode == 0
            ||| op.flag == CLONE_NEWCGROUP && (ns.cgroup || ns.cgroup_try) && op.try_mode == (
            if ns.cgroup_try {
                1i32
            } else {
                0i32
            })
        }),
{
    let a = op_if(user || ns.user_try, CLONE_NEWUSER, ns.user_try);
    let b = a + op_if(mnt, CLONE_NEWNS, false);
    let c = b + op_if(ns.ipc, CLONE_NEWIPC, false);
    let d = c + op_if(ns.net, CLONE_NEWNET, false);
    let e = d + op_if(ns.uts, CLONE_NEWUTS, false);
    lemma_op_members(a, user || ns.user_try, CLONE_NEWUSER, ns.user_try, op);
    lemma_op_members(a, mnt, CLONE_NEWNS, false, op);
    lemma_op_members(b, ns.ipc, CLONE_NEWIPC, false, op);
    lemma_op_members(c, ns.net, CLONE_NEWNET, false, op);
    lemma_op_members(d, ns.uts, CLONE_NEWUTS, false, op);
    lemma_op_members(e, ns.cgroup || ns.cgroup_try, CLONE_NEWCGROUP, ns.cgroup_try, op);
}

/// The user namespace is made before any other.
pub proof fn user_namespace_comes_first(ns: NamespacesConfig, user: bool, mnt: bool, i: int)
    requires
        0 <= i < ns_ops_for(ns, user, mnt).len(),
        ns_ops_for(ns, user, mnt)[i].flag == CLONE_NEWUSER,
    ensures
        i == 0,
{
    let a = op_if(user || ns.user_try, CLONE_NEWUSER, ns.user_try);
    let b = a + op_if(mnt, CLONE_NEWNS, false);
    lemma_others_follow(a, a, mnt, CLONE_NEWNS, false);
    let c = b + op_if(ns.ipc, CLONE_NEWIPC, false);
    lemma_others_follow(a, b, ns.ipc, CLONE_NEWIPC, false);
    let d = c + op_if(ns.net, CLONE_NEWNET, false);
    lemma_others_follow(a, c, ns.net, CLONE_NEWNET, false);
    let e = d + op_if(ns.uts, CLONE_NEWUTS, false);
    lemma_others_follow(a, d, ns.uts, CLONE_NEWUTS, false);
    lemma_others_follow(a, e, ns.cgroup || ns.cgroup_try, CLONE_NEWCGROUP, ns.cgroup_try);
}

/// Whether only the first `head` operations make a user namespace.
spec fn users_lead(head: Seq<NsOp>, ops: Seq<NsOp>) -> bool {
    head.len() <= ops.len() && forall|i: int|
        head.len() <= i < ops.len() ==> (#[trigger] ops[i]).flag != CLONE_NEWUSER
}

proof fn lemma_others_follow(head: Seq<NsOp>, ops: Seq<NsOp>, wanted: bool, flag: i32, soft: bool)
    requires
        users_lead(head, ops),
        flag != CLONE_NEWUSER,
    ensures
        users_lead(head, ops + op_if(wanted, flag, soft)),
{
    let more = ops + op_if(wanted, flag, soft);
    assert forall|i: int| head.len() <= i < more.len() implies (#[trigger] more[i]).flag
        != CLONE_NEWUSER by {
        if i < ops.len() {
            assert(more[i] == ops[i]);
        } else {
            assert(more[i] == op_if(wanted, flag, soft)[i - ops.len()]);
        }
    }
}

/// The line that maps one user or group.
pub open spec fn map_line(inside: nat, outside: nat) -> Seq<char> {
    text::decimal(inside) + " "@ + text::decimal(outside) + " 1\n"@
}

/// Writes the line that maps one user or group.
pub fn id_map_line(inside: u32, outside: u32) -> (r: String)
    ensures
        r@ == map_line(inside as nat, outside as nat),
{
    let mut out = String::new();
    text::push_decimal(&mut out, inside as u64);
    assert(out@ =~= text::decimal(inside as nat));
    out.append(" ");
    text::push_decimal(&mut out, outside as u64);
    out.append(" 1\n");
    out
}

/// The number inside the user namespace: the one asked for, or that of the
/// caller.
pub open spec fn inside_id(asked: Option<u32>, outside: u32) -> u32 {
    match asked {
        Some(id) => id,
        None => outside,
    }
}

/// The number inside is the one that is asked for, or else the one outside; a
/// map line holds the number inside, the number outside and a count of one.
pub proof fn numbers_are_mapped(asked: u32, outside: u32, inside: nat)
    ensures
        inside_id(Some(asked), outside) == asked,
        inside_id(None, outside) == outside,
        map_line(inside, outside as nat) == text::decimal(inside) + seq![' '] + text::decimal(
            outside as nat,
        ) + seq![' ', '1', '\n'],
{
    reveal_strlit(" ");
    reveal_strlit(" 1\n");
    assert(" "@ =~= seq![' ']);
    assert(" 1\n"@ =~= seq![' ', '1', '\n']);
}

/// `PATH` where nobody says otherwise.
pub open spec fn fallback_path() -> &'static str {
    "/usr/bin:/bin"
}

/// The directories that programs are looked up in: those of the command's
/// `PATH`, else of the caller's, else the usual ones.
pub open spec fn search_path(
    env: Map<Seq<char>, Seq<char>>,
    parent: Option<Seq<char>>,
) -> Seq<char> {
    if env.dom().contains("PATH"@) {
        env["PATH"@]
    } else {
        match parent {
            Some(path) => path,
            None => fallback_path()@,
        }
    }
}

/// The path of a name in a directory.
pub open spec fn in_directory(dir: Seq<char>, name: Seq<char>) -> Seq<char> {
    if dir.len() == 0 || dir.last() == '/' {
        dir + name
    } else {
        dir + "/"@ + name
    }
}

/// The files that a program name may mean, in order. A name with a slash in it
/// is a path and means itself.
pub open spec fn candidates(
    program: Seq<char>,
    env: Map<Seq<char>, Seq<char>>,
    parent: Option<Seq<char>>,
) -> Seq<Seq<char>> {
    if program.contains('/') {
        Seq::empty()
    } else {
        text::pieces(search_path(env, parent), ':').map_values(
            |dir: Seq<char>| in_directory(dir, program),
        )
    }
}

/// Programs are looked up in the command's own `PATH` where it has one, else in
/// that of the caller, else in the usual directories.
pub proof fn own_path_comes_first(
    env: Map<Seq<char>, Seq<char>>,
    parent: Option<Seq<char>>,
)
    ensures
        env.dom().contains("PATH"@) ==> search_path(env, parent) == env["PATH"@],
        !env.dom().contains("PATH"@) && parent is Some ==> search_path(env, parent) == parent->0,
        !env.dom().contains("PATH"@) && parent is None ==> search_path(env, parent)
            == "/usr/bin:/bin"@,
{
}

/// A name with a slash in it is not looked up. Any other name is looked for in
/// each directory of the search path, in their order: the directory, one slash
/// where the directory does not end with it, and the name.
pub proof fn names_are_looked_up_in_order(
    program: Seq<char>,
    env: Map<Seq<char>, Seq<char>>,
    parent: Option<Seq<char>>,
    dirs: Seq<Seq<char>>,
)
    requires
        dirs.len() > 0,
        forall|i: int| 0 <= i < dirs.len() ==> !(#[trigger] dirs[i]).contains(':'),
        search_path(env, parent) == text::joined_with(dirs, ':'),
    ensures
        program.contains('/') ==> candidates(program, env, parent).len() == 0,
        !program.contains('/') ==> candidates(program, env, parent).len() == dirs.len(),
        !program.contains('/') ==> forall|i: int|
            #![trigger candidates(program, env, parent)[i]]
            0 <= i < dirs.len() ==> candidates(program, env, parent)[i] == if dirs[i].len() > 0
                && dirs[i].last() != '/' {
                dirs[i] + seq!['/'] + program
            } else {
                dirs[i] + program
            },
{
    text::splitting_undoes_joining(dirs, ':');
    reveal_strlit("/");
    assert("/"@ =~= seq!['/']);
}

/// Lists the files that the program of a command may mean.
pub fn exec_candidates(spec: &CommandSpec, parent_path: &Option<String>) -> (r: Vec<String>)
    ensures
        text::views(r@) == candidates(spec.program@, spec.env@, opt_view(*parent_path)),
{
    let name = text::chars_of(spec.program.as_str());
    let at: usize = text::find(&name, '/');
    proof {
        text::lemma_first_at(spec.program@, '/');
    }
    let mut out: Vec<String> = Vec::new();
    if at < name.len() {
        assert(text::views(out@) =~= candidates(
            spec.program@,
            spec.env@,
            opt_view(*parent_path),
        ));
        return out;
    }
    let path = match spec.env.get("PATH") {
        Some(path) => path,
        None => match parent_path {
            Some(path) => path.clone(),
            None => "/usr/bin:/bin".to_owned(),
        },
    };
    let chars = text::chars_of(path.as_str());
    let dirs = text::split(&chars, ':');
    let ghost all = text::pieces(path@, ':');
    let ghost program = spec.program@;
    let mut i: usize = 0;
    while i < dirs.len()
        invariant
            i <= dirs@.len(),
            program == spec.program@,
            text::views(dirs@) == all,
            text::views(out@) == all.take(i as int).map_values(
                |dir: Seq<char>| in_directory(dir, program),
            ),
        decreases dirs.len() - i,
    {
        let dir = text::chars_of(dirs[i].as_str());
        assert(dir@ == all[i as int]);
        let mut full = dirs[i].clone();
        if dir.len() > 0 && dir[dir.len() - 1] != '/' {
            full.append("/");
        }
        full.append(spec.program.as_str());
        assert(full@ == in_directory(all[i as int], program));
        let ghost before = text::views(out@);
        out.push(full);
        i += 1;
        assert(text::views(out@) =~= before.push(full@));
        assert(text::views(out@) =~= all.take(i as int).map_values(
            |dir: Seq<char>| in_directory(dir, program),
        ));
    }
    assert(all.take(i as int) =~= all);
    out
}

/// Whether `path` is what is run: the first candidate that is a file, else the
/// program as it was given.
pub open spec fn is_picked(
    program: Seq<char>,
    files: Seq<Seq<char>>,
    is_file: Seq<bool>,
    path: Seq<char>,
) -> bool {
    ||| exists|i: int|
        {
            &&& 0 <= i < files.len()
            &&& is_file[i]
            &&& forall|j: int| 0 <= j < i ==> !is_file[j]
            &&& path == text::c_view(#[trigger] files[i])
        }
    ||| (forall|j: int| 0 <= j < files.len() ==> !is_file[j]) && path == text::c_view(program)
}

/// The first candidate that is a file is run, whatever comes after it; where
/// none is one, the program is run as it was given.
pub proof fn first_file_is_picked(
    program: Seq<char>,
    files: Seq<Seq<char>>,
    is_file: Seq<bool>,
    path: Seq<char>,
    i: int,
)
    requires
        is_picked(program, files, is_file, path),
        is_file.len() == files.len(),
    ensures
        0 <= i < files.len() && is_file[i] && (forall|j: int| 0 <= j < i ==> !is_file[j])
            && !files[i].contains('\0') ==> path == files[i],
        (forall|j: int| 0 <= j < files.len() ==> !is_file[j]) && !program.contains('\0') ==> path
            == program,
{
    if 0 <= i < files.len() && is_file[i] && (forall|j: int| 0 <= j < i ==> !is_file[j]) {
        let k = choose|k: int|
            {
                &&& 0 <= k < files.len()
                &&& is_file[k]
                &&& forall|j: int| 0 <= j < k ==> !is_file[j]
                &&& path == text::c_view(#[trigger] files[k])
            };
        if k < i {
            assert(!is_file[k]);
        } else if i < k {
            assert(!is_file[i]);
        }
    }
}

/// The file that is run: the first candidate that is a file, else the program
/// as it was given.
pub fn resolve_exec_path(
    program: &str,
    candidates: &Vec<String>,
    is_file: &Vec<bool>,
) -> (r: String)
    requires
        is_file@.len() == candidates@.len(),
    ensures
        is_picked(program@, text::views(candidates@), is_file@, r@),
        (exists|i: int|
            {
                &&& 0 <= i < candidates@.len()
                &&& is_file@[i]
                &&& forall|j: int| 0 <= j < i ==> !is_file@[j]
                &&& r@ == text::c_view(#[trigger] candidates@[i]@)
            }) || ((forall|j: int| 0 <= j < candidates@.len() ==> !is_file@[j]) && r@
            == text::c_view(program@)),
{
    let mut i: usize = 0;
    while i < candidates.len()
        invariant
            i <= candidates@.len() == is_file@.len(),
            forall|j: int| 0 <= j < i ==> !is_file@[j],
        decreases candidates.len() - i,
    {
        if is_file[i] {
            let r = text::c_text(candidates[i].as_str());
            assert(r@ == text::c_view(candidates@[i as int]@));
            assert(text::views(candidates@)[i as int] == candidates@[i as int]@);
            return r;
        }
        i += 1;
    }
    text::c_text(program)
}

/// What the machine says about the caller and the paths of a configuration.
#[derive(Debug, Clone)]
pub struct HostFacts {
    /// Effective user number of the caller.
    pub euid: u32,
    /// Real user number of the caller.
    pub uid: u32,
    /// Real group number of the caller.
    pub gid: u32,
    /// Home directory of the caller.
    pub home: Option<String>,
    /// Effective capabilities of the caller.
    pub effective_caps: u64,
    /// Bounding set of the caller, where it could be read.
    pub bounding: Option<u64>,
    /// Whether there is a Landlock ruleset to take on.
    pub has_ruleset: bool,
    /// What the file system says about each mount.
    pub mount_probes: Vec<MountProbe>,
    /// The file that is run.
    pub exec_path: String,
}

/// The filter that reports the denied system calls; none where none is denied.
pub open spec fn notif_filter(arch: Arch, nrs: Seq<u32>) -> Seq<sock_filter> {
    if nrs.len() == 0 {
        Seq::empty()
    } else {
        deny_program(arch.audit_spec(), nrs)
    }
}

/// Whether the filters of the caller are made of whole instructions.
pub open spec fn filters_whole(filters: Seq<Vec<u8>>) -> bool {
    forall|i: int|
        0 <= i < filters.len() ==> (#[trigger] filters[i])@.len() % (INSN_SIZE as nat) == 0
}

/// Whether the filters of the caller are made of whole instructions.
pub fn filters_are_whole(filters: &Vec<Vec<u8>>) -> (r: bool)
    ensures
        r == filters_whole(filters@),
{
    let mut i: usize = 0;
    while i < filters.len()
        invariant
            i <= filters@.len(),
            forall|j: int|
                0 <= j < i ==> (#[trigger] filters@[j])@.len() % (INSN_SIZE as nat) == 0,
        decreases filters.len() - i,
    {
        if filters[i].len() % INSN_SIZE != 0 {
            assert(filters@[i as int]@.len() % (INSN_SIZE as nat) != 0);
            return false;
        }
        i += 1;
    }
    true
}

/// The instructions in the bytes of one filter of the caller.
pub open spec fn filter_insns(bytes: Seq<u8>) -> Seq<sock_filter> {
    Seq::new(bytes.len() / (INSN_SIZE as nat), |i: int| decoded(bytes, INSN_SIZE * i))
}

proof fn lemma_same_insn(a: Seq<u8>, i: int, b: Seq<u8>, j: int)
    requires
        a[i] == b[j],
        a[i + 1] == b[j + 1],
        a[i + 2] == b[j + 2],
        a[i + 3] == b[j + 3],
        a[i + 4] == b[j + 4],
        a[i + 5] == b[j + 5],
        a[i + 6] == b[j + 6],
        a[i + 7] == b[j + 7],
    ensures
        decoded(a, i) == decoded(b, j),
{
}

/// The bytes of a filter make one instruction for each eight of them, in their
/// order.
pub proof fn filters_are_read_in_order(first: Seq<u8>, more: Seq<u8>, i: int)
    requires
        first.len() % 8 == 0,
        0 <= i < first.len() / 8,
    ensures
        filter_insns(first).len() * 8 == first.len(),
        filter_insns(first)[i] == decoded(first.subrange(8 * i, 8 * i + 8), 0),
        filter_insns(first + more) == filter_insns(first) + filter_insns(more),
{
    lemma_same_insn(first.subrange(8 * i, 8 * i + 8), 0, first, 8 * i);
    let n = first.len() / 8;
    let whole = filter_insns(first + more);
    let parts = filter_insns(first) + filter_insns(more);
    assert(whole.len() == parts.len());
    assert forall|k: int| 0 <= k < whole.len() implies whole[k] == parts[k] by {
        let both = first + more;
        if k < n {
            lemma_same_insn(both, 8 * k, first, 8 * k);
        } else {
            let m = k - n;
            lemma_same_insn(both, 8 * k, more, 8 * m);
        }
    }
    assert(whole =~= parts);
}

/// The capabilities that the child ends up with, and what is needed for them.
pub open spec fn caps_for(config: SandboxConfig, facts: HostFacts) -> ResolvedCaps {
    let requested = requested_set(config.capabilities, facts.effective_caps);
    let is_root = facts.euid == 0;
    let userns = effective_user(config, facts.euid) || config.namespaces.user_try;
    let ns_root = userns && inside_id(config.namespaces.uid, facts.uid) == 0;
    ResolvedCaps {
        requested,
        flags: flag_sum(
            needs_capset(requested, is_root, userns, ns_root),
            needs_bounding(requested, is_root, userns, facts.bounding),
            needs_ambient(requested, is_root, userns, ns_root),
        ),
    }
}

/// One variable as it is handed to the program.
pub open spec fn env_text(key: Seq<char>, value: Seq<char>) -> Seq<char> {
    text::c_view(key + "="@ + value)
}

/// A variable is handed over as its name, an equals sign and its value, and
/// comes apart there again.
pub proof fn variables_come_apart(key: Seq<char>, value: Seq<char>)
    requires
        !key.contains('='),
        !key.contains('\0'),
        !value.contains('\0'),
    ensures
        text::cut(env_text(key, value), '=') == Some((key, value)),
{
    reveal_strlit("=");
    let whole = key + "="@ + value;
    assert(whole =~= key.push('=') + value);
    assert(!whole.contains('\0')) by {
        if whole.contains('\0') {
            let i = choose|i: int| 0 <= i < whole.len() && whole[i] == '\0';
            if i < key.len() {
                assert(key[i] == '\0');
            } else if i > key.len() {
                assert(value[i - key.len() - 1] == '\0');
            } else {
                assert(whole[i] == '=');
            }
        }
    }
    text::cut_undoes_joining(key, value, '=');
}

/// The host name that is set: the one asked for where there is a UTS namespace
/// to set it in, else none.
pub open spec fn hostname_for(ns: NamespacesConfig) -> Seq<char> {
    match ns.hostname {
        Some(name) => if ns.uts {
            name@
        } else {
            Seq::empty()
        },
        None => Seq::empty(),
    }
}

/// Whether a plan does what a configuration and a command ask for on a machine
/// of the given architecture.
pub open spec fn plan_fits(
    arch: Arch,
    config: SandboxConfig,
    spec: CommandSpec,
    facts: HostFacts,
    plan: ChildPlan,
) -> bool {
    let ns = config.namespaces;
    let user = effective_user(config, facts.euid);
    &&& plan.exec_path == facts.exec_path
    &&& text::views(plan.argv@) == seq![text::c_view(spec.program@)] + text::views(
        spec.args@,
    ).map_values(|arg: Seq<char>| text::c_view(arg))
    &&& text::views(plan.envp@) == spec.env.list().map_values(
        |entry: (String, String)| env_text(entry.0@, entry.1@),
    )
    &&& plan.cwd@ == text::c_view(with_home(spec.cwd@, opt_view(facts.home)))
    &&& plan.has_ruleset == facts.has_ruleset
    &&& plan.bpf_filter@ == notif_filter(arch, config.seccomp_deny_nrs@)
    &&& plan.ext_filters@.len() == config.seccomp_filter_bytes@.len()
    &&& forall|i: int|
        0 <= i < plan.ext_filters@.len() ==> (#[trigger] plan.ext_filters@[i]).data@
            == filter_insns(config.seccomp_filter_bytes@[i]@)
    &&& plan.ns_ops@ == ns_ops_for(ns, user, effective_mnt(config))
    &&& plan.need_pid_reaper == ns.pid
    &&& plan.user_ns_active == user
    &&& plan.uid_map@ == map_line(inside_id(ns.uid, facts.uid) as nat, facts.uid as nat)
    &&& plan.gid_map@ == map_line(inside_id(ns.gid, facts.gid) as nat, facts.gid as nat)
    &&& plan.hostname@ == hostname_for(ns)
    &&& plan.configure_lo == (ns.net && config.network.loopback)
    &&& op_views(plan.mount_ops@) == ops_upto(
        config.mount.specs@,
        facts.mount_probes@,
        config.mount.specs@.len(),
    )
    &&& plan.do_private == (config.mount.enabled || config.mount.specs@.len() > 0)
    &&& plan.caps == caps_for(config, facts)
}

/// Builds the filter that reports the denied system calls, where some are
/// denied.
pub fn build_bpf_filter(arch: Arch, nrs: &Vec<u32>) -> (r: Option<Vec<sock_filter>>)
    ensures
        match r {
            Some(filter) => nrs@.len() > 0 && filter@ == notif_filter(arch, nrs@),
            None => nrs@.len() == 0,
        },
{
    if nrs.is_empty() {
        None
    } else {
        Some(build_deny_filter(arch, nrs))
    }
}

fn make_argv(spec: &CommandSpec) -> (r: Vec<String>)
    ensures
        text::views(r@) == seq![text::c_view(spec.program@)] + text::views(spec.args@).map_values(
            |arg: Seq<char>| text::c_view(arg),
        ),
{
    let mut argv: Vec<String> = Vec::new();
    argv.push(text::c_text(spec.program.as_str()));
    let ghost all = text::views(spec.args@);
    let ghost head = seq![text::c_view(spec.program@)];
    let mut i: usize = 0;
    assert(text::views(argv@) =~= head + all.take(0).map_values(
        |arg: Seq<char>| text::c_view(arg),
    ));
    while i < spec.args.len()
        invariant
            i <= spec.args@.len(),
            all == text::views(spec.args@),
            text::views(argv@) == head + all.take(i as int).map_values(
                |arg: Seq<char>| text::c_view(arg),
            ),
        decreases spec.args.len() - i,
    {
        let ghost before = text::views(argv@);
        let arg = text::c_text(spec.args[i].as_str());
        assert(arg@ == text::c_view(all[i as int]));
        argv.push(arg);
        i += 1;
        assert(text::views(argv@) =~= before.push(arg@));
        assert(text::views(argv@) =~= head + all.take(i as int).map_values(
            |arg: Seq<char>| text::c_view(arg),
        ));
    }
    assert(all.take(i as int) =~= all);
    argv
}

fn make_envp(spec: &CommandSpec) -> (r: Vec<String>)
    ensures
        text::views(r@) == spec.env.list().map_values(
            |entry: (String, String)| env_text(entry.0@, entry.1@),
        ),
{
    let mut envp: Vec<String> = Vec::new();
    let ghost all = spec.env.list();
    let count: usize = spec.env.len();
    let mut i: usize = 0;
    while i < count
        invariant
            i <= count == all.len(),
            all == spec.env.list(),
            text::views(envp@) == all.take(i as int).map_values(
                |entry: (String, String)| env_text(entry.0@, entry.1@),
            ),
        decreases count - i,
    {
        let ghost before = text::views(envp@);
        let (key, value) = spec.env.entry(i);
        let mut line = key.clone();
        line.append("=");
        line.append(value.as_str());
        let text = text::c_text(line.as_str());
        assert(text@ == env_text(all[i as int].0@, all[i as int].1@));
        envp.push(text);
        i += 1;
        assert(text::views(envp@) =~= before.push(text@));
        assert(text::views(envp@) =~= all.take(i as int).map_values(
            |entry: (String, String)| env_text(entry.0@, entry.1@),
        ));
    }
    assert(all.take(i as int) =~= all);
    envp
}

fn decode_filters(filters: &Vec<Vec<u8>>) -> (r: Vec<ExtFilterDesc>)
    requires
        filters_whole(filters@),
    ensures
        r@.len() == filters@.len(),
        forall|i: int|
            0 <= i < r@.len() ==> (#[trigger] r@[i]).data@ == filter_insns(filters@[i]@),
{
    let mut out: Vec<ExtFilterDesc> = Vec::new();
    let mut i: usize = 0;
    while i < filters.len()
        invariant
            i <= filters@.len(),
            filters_whole(filters@),
            out@.len() == i,
            forall|j: int|
                0 <= j < i ==> (#[trigger] out@[j]).data@ == filter_insns(filters@[j]@),
        decreases filters.len() - i,
    {
        assert(filters@[i as int]@.len() % (INSN_SIZE as nat) == 0);
        out.push(ExtFilterDesc { data: decode_filter(&filters[i]) });
        i += 1;
    }
    out
}

/// Whether `r` is a plan that fits, or the error about the first mount that
/// lacks a path.
pub open spec fn fits_or_faults(
    arch: Arch,
    config: SandboxConfig,
    spec: CommandSpec,
    facts: HostFacts,
    r: Result<ChildPlan, MountError>,
) -> bool {
    match r {
        Ok(plan) => {
            &&& plan_fits(arch, config, spec, facts, plan)
            &&& forall|i: int|
                0 <= i < config.mount.specs@.len() ==> (#[trigger] fault(
                    config.mount.specs@[i]@,
                    facts.mount_probes@[i],
                    i,
                )) is None
        },
        Err(e) => exists|i: int|
            {
                &&& 0 <= i < config.mount.specs@.len()
                &&& #[trigger] fault(config.mount.specs@[i]@, facts.mount_probes@[i], i) == Some(
                    e@,
                )
                &&& forall|j: int|
                    0 <= j < i ==> (#[trigger] fault(
                        config.mount.specs@[j]@,
                        facts.mount_probes@[j],
                        j,
                    )) is None
            },
    }
}

/// A plan is made where all paths of the mounts are there, and none where one is
/// missing; the error tells the first mount that lacks one.
pub proof fn plans_need_their_paths(
    arch: Arch,
    config: SandboxConfig,
    spec: CommandSpec,
    facts: HostFacts,
    r: Result<ChildPlan, MountError>,
    k: int,
)
    requires
        fits_or_faults(arch, config, spec, facts, r),
        facts.mount_probes@.len() == config.mount.specs@.len(),
    ensures
        r matches Ok(plan) ==> plan_fits(arch, config, spec, facts, plan),
        (forall|i: int|
            0 <= i < facts.mount_probes@.len() ==> (#[trigger] facts.mount_probes@[i]).target_exists
                && facts.mount_probes@[i].source_exists) ==> r is Ok,
        0 <= k < facts.mount_probes@.len() && !facts.mount_probes@[k].target_exists ==> r is Err,
        0 <= k < facts.mount_probes@.len() && !facts.mount_probes@[k].source_exists
            && config.mount.specs@[k]@.fstype == "none"@ && config.mount.specs@[k]@.source is Some
            ==> r is Err,
        r matches Err(e) ==> match e@ {
            MountErrorView::TargetMissing { number, path } => 1 <= number
                <= config.mount.specs@.len() && !facts.mount_probes@[number
                - 1].target_exists && path == config.mount.specs@[number - 1]@.target && (0 <= k
                < number - 1 ==> facts.mount_probes@[k].target_exists),
            MountErrorView::SourceMissing { number, path } => 1 <= number
                <= config.mount.specs@.len() && facts.mount_probes@[number
                - 1].target_exists && !facts.mount_probes@[number - 1].source_exists && Some(path)
                == config.mount.specs@[number - 1]@.source && (0 <= k < number - 1
                ==> facts.mount_probes@[k].target_exists),
        },
{
    if 0 <= k < config.mount.specs@.len() {
        missing_paths_are_told(config.mount.specs@[k]@, facts.mount_probes@[k], k);
    }
    if let Err(e) = r {
        let i = choose|i: int|
            {
                &&& 0 <= i < config.mount.specs@.len()
                &&& #[trigger] fault(config.mount.specs@[i]@, facts.mount_probes@[i], i) == Some(
                    e@,
                )
                &&& forall|j: int|
                    0 <= j < i ==> (#[trigger] fault(
                        config.mount.specs@[j]@,
                        facts.mount_probes@[j],
                        j,
                    )) is None
            };
        missing_paths_are_told(config.mount.specs@[i]@, facts.mount_probes@[i], i);
        assert(0 <= i < facts.mount_probes@.len() && facts.mount_probes@[i]
            == facts.mount_probes@[i]);
    }
}

/// Makes the plan of a child on a machine of the given architecture, or says
/// which path of a mount is missing first.
pub fn prepare(
    arch: Arch,
    config: &SandboxConfig,
    spec: &CommandSpec,
    facts: &HostFacts,
) -> (r: Result<ChildPlan, MountError>)
    requires
        facts.mount_probes@.len() == config.mount.specs@.len(),
        filters_whole(config.seccomp_filter_bytes@),
    ensures
        fits_or_faults(arch, *config, *spec, *facts, r),
{
    let bpf_filter = match build_bpf_filter(arch, &config.seccomp_deny_nrs) {
        Some(filter) => filter,
        None => Vec::new(),
    };
    assert(bpf_filter@ =~= notif_filter(arch, config.seccomp_deny_nrs@));
    let ext_filters = decode_filters(&config.seccomp_filter_bytes);
    let home_cwd = expand_tilde_with(spec.cwd.as_str(), &facts.home);
    let ns = &config.namespaces;
    let user = ns.user || (ns.pid && facts.euid != 0) || config.capabilities.has_add();
    let mnt = ns.mnt || config.mount.enabled || config.mount.specs.len() > 0;
    let inside_uid: u32 = match ns.uid {
        Some(id) => id,
        None => facts.uid,
    };
    let inside_gid: u32 = match ns.gid {
        Some(id) => id,
        None => facts.gid,
    };
    let hostname = match &ns.hostname {
        Some(name) => if ns.uts {
            name.clone()
        } else {
            String::new()
        },
        None => String::new(),
    };
    let mount_ops = match prepare_mount_ops(&config.mount, &facts.mount_probes) {
        Ok(ops) => ops,
        Err(e) => {
            return Err(e);
        },
    };
    let userns = user || ns.user_try;
    let caps = resolve_caps(
        &config.capabilities,
        facts.euid == 0,
        userns,
        userns && inside_uid == 0,
        facts.effective_caps,
        facts.bounding,
    );
    Ok(
        ChildPlan {
            exec_path: facts.exec_path.clone(),
            argv: make_argv(spec),
            envp: make_envp(spec),
            cwd: text::c_text(home_cwd.as_str()),
            has_ruleset: facts.has_ruleset,
            bpf_filter,
            ext_filters,
            ns_ops: list_ns_ops(ns, user, mnt),
            need_pid_reaper: ns.pid,
            user_ns_active: user,
            uid_map: id_map_line(inside_uid, facts.uid),
            gid_map: id_map_line(inside_gid, facts.gid),
            hostname,
            configure_lo: ns.net && config.network.loopback,
            mount_ops,
            do_private: config.mount.enabled || config.mount.specs.len() > 0,
            caps,
        },
    )
}

/// The steps of a child follow the configuration, each where it is asked for and
/// nowhere else: loopback is brought up only where it is allowed and the network
/// is the child's own, the PID namespace comes where it is asked for, the
/// ruleset where there is one, the mount tree is cut off and mounts are made
/// where the configuration mounts, the reporting filter is installed where a
/// call is denied, and each filter of the caller that is not empty.
pub proof fn steps_follow_the_configuration(
    arch: Arch,
    config: SandboxConfig,
    spec: CommandSpec,
    facts: HostFacts,
    plan: ChildPlan,
)
    requires
        plan_fits(arch, config, spec, facts, plan),
        filters_whole(config.seccomp_filter_bytes@),
    ensures
        child_steps(plan).contains(ChildStep::Loopback) <==> (config.namespaces.net
            && config.network.loopback),
        child_steps(plan).contains(ChildStep::PidNamespace) <==> config.namespaces.pid,
        child_steps(plan).contains(ChildStep::Landlock) <==> facts.has_ruleset,
        child_steps(plan).contains(ChildStep::MakePrivate) <==> (config.mount.enabled
            || config.mount.specs@.len() > 0),
        child_steps(plan).contains(ChildStep::NotifFilter) <==> config.seccomp_deny_nrs@.len() > 0,
        child_steps(plan).contains(ChildStep::SendListener) <==> config.seccomp_deny_nrs@.len()
            > 0,
        forall|i: usize| #[trigger]
            child_steps(plan).contains(ChildStep::PlainFilter { index: i }) <==> (i
                < config.seccomp_filter_bytes@.len() && config.seccomp_filter_bytes@[i as int]@.len()
                > 0),
        config.mount.specs@.len() == 0 ==> forall|i: usize| !#[trigger] child_steps(plan).contains(
            ChildStep::Mount { index: i },
        ),
        child_steps(plan).contains(ChildStep::Chdir),
        child_steps(plan).contains(ChildStep::NoNewPrivs),
        child_steps(plan).last() == ChildStep::Exec,
{
    steps_are_those_planned(plan, ChildStep::Loopback);
    steps_are_those_planned(plan, ChildStep::PidNamespace);
    steps_are_those_planned(plan, ChildStep::Landlock);
    steps_are_those_planned(plan, ChildStep::MakePrivate);
    steps_are_those_planned(plan, ChildStep::NotifFilter);
    steps_are_those_planned(plan, ChildStep::SendListener);
    steps_are_those_planned(plan, ChildStep::Chdir);
    steps_are_those_planned(plan, ChildStep::NoNewPrivs);
    assert forall|i: usize| #[trigger]
        child_steps(plan).contains(ChildStep::PlainFilter { index: i }) <==> (i
            < config.seccomp_filter_bytes@.len() && config.seccomp_filter_bytes@[i as int]@.len()
            > 0) by {
        steps_are_those_planned(plan, ChildStep::PlainFilter { index: i });
        if i < plan.ext_filters@.len() {
            assert(plan.ext_filters@[i as int].data@ == filter_insns(
                config.seccomp_filter_bytes@[i as int]@,
            ));
            assert(config.seccomp_filter_bytes@[i as int]@.len() % 8 == 0);
        }
    }
    assert(op_views(plan.mount_ops@).len() == plan.mount_ops@.len());
    assert forall|i: usize| config.mount.specs@.len() == 0 implies !#[trigger] child_steps(
        plan,
    ).contains(ChildStep::Mount { index: i }) by {
        steps_are_those_planned(plan, ChildStep::Mount { index: i });
    }
}

/// No namespace is entered that was not asked for: a user namespace comes by its
/// own option, with the PID namespace of a caller who is not root and with an
/// added capability, a mount namespace by its own option and with mounts, and
/// each other one by its own option.
pub proof fn unasked_namespaces_are_shared(
    arch: Arch,
    config: SandboxConfig,
    spec: CommandSpec,
    facts: HostFacts,
    plan: ChildPlan,
    op: NsOp,
)
    requires
        plan_fits(arch, config, spec, facts, plan),
        child_steps(plan).contains(ChildStep::Unshare(op)),
    ensures
        ({
            let ns = config.namespaces;
            ||| op.flag == CLONE_NEWUSER && (ns.user || ns.user_try || (ns.pid && facts.euid != 0)
                || config.capabilities.adds())
            ||| op.flag == CLONE_NEWNS && (ns.mnt || config.mount.enabled
                || config.mount.specs@.len() > 0)
            ||| op.flag == CLONE_NEWIPC && ns.ipc
            ||| op.flag == CLONE_NEWNET && ns.net
            ||| op.flag == CLONE_NEWUTS && ns.uts
            ||| op.flag == CLONE_NEWCGROUP && (ns.cgroup || ns.cgroup_try)
        }),
        op.try_mode != 0 ==> (op.flag == CLONE_NEWUSER && config.namespaces.user_try) || (op.flag
            == CLONE_NEWCGROUP && config.namespaces.cgroup_try),
{
    steps_are_those_planned(plan, ChildStep::Unshare(op));
    namespaces_are_those_wanted(
        config.namespaces,
        effective_user(config, facts.euid),
        effective_mnt(config),
        op,
    );
}

/// A namespace that is only to be tried is tried.
pub proof fn soft_namespaces_are_tried(
    arch: Arch,
    config: SandboxConfig,
    spec: CommandSpec,
    facts: HostFacts,
    plan: ChildPlan,
)
    requires
        plan_fits(arch, config, spec, facts, plan),
    ensures
        config.namespaces.user_try ==> child_steps(plan).contains(
            ChildStep::Unshare(NsOp { flag: CLONE_NEWUSER, try_mode: 1 }),
        ),
        config.namespaces.cgroup_try ==> child_steps(plan).contains(
            ChildStep::Unshare(NsOp { flag: CLONE_NEWCGROUP, try_mode: 1 }),
        ),
{
    let user = NsOp { flag: CLONE_NEWUSER, try_mode: 1 };
    let cgroup = NsOp { flag: CLONE_NEWCGROUP, try_mode: 1 };
    let wants = effective_user(config, facts.euid);
    steps_are_those_planned(plan, ChildStep::Unshare(user));
    steps_are_those_planned(plan, ChildStep::Unshare(cgroup));
    namespaces_are_those_wanted(config.namespaces, wants, effective_mnt(config), user);
    namespaces_are_those_wanted(config.namespaces, wants, effective_mnt(config), cgroup);
}

/// An added capability, and the PID namespace of a caller who is not root, bring
/// a user namespace; mounts bring a mount namespace.
pub proof fn needs_bring_their_namespaces(config: SandboxConfig, euid: u32)
    ensures
        config.namespaces.user ==> effective_user(config, euid),
        config.namespaces.pid && euid != 0 ==> effective_user(config, euid),
        config.capabilities.adds() ==> effective_user(config, euid),
        !config.namespaces.user && !config.capabilities.adds() && (euid == 0
            || !config.namespaces.pid) ==> !effective_user(config, euid),
        config.namespaces.mnt ==> effective_mnt(config),
        config.mount.enabled ==> effective_mnt(config),
        config.mount.specs@.len() > 0 ==> effective_mnt(config),
        !config.namespaces.mnt && !config.mount.enabled && config.mount.specs@.len() == 0
            ==> !effective_mnt(config),
{
}

/// The program gets its name and its arguments as they were given, each in its
/// place, its variables in their order, and the numbers, the host name and the
/// working directory that were asked for.
pub proof fn program_gets_what_was_given(
    arch: Arch,
    config: SandboxConfig,
    spec: CommandSpec,
    facts: HostFacts,
    plan: ChildPlan,
)
    requires
        plan_fits(arch, config, spec, facts, plan),
    ensures
        plan.exec_path@ == facts.exec_path@,
        plan.argv@.len() == spec.args@.len() + 1,
        !spec.program@.contains('\0') ==> plan.argv@[0]@ == spec.program@,
        forall|i: int|
            0 <= i < spec.args@.len() && !(#[trigger] spec.args@[i])@.contains('\0')
                ==> plan.argv@[i + 1]@ == spec.args@[i]@,
        plan.envp@.len() == spec.env.list().len(),
        forall|i: int|
            0 <= i < spec.env.list().len() ==> (#[trigger] plan.envp@[i])@ == env_text(
                spec.env.list()[i].0@,
                spec.env.list()[i].1@,
            ),
        !with_home(spec.cwd@, opt_view(facts.home)).contains('\0') ==> plan.cwd@ == with_home(
            spec.cwd@,
            opt_view(facts.home),
        ),
        config.namespaces.uid matches Some(uid) ==> plan.uid_map@ == map_line(
            uid as nat,
            facts.uid as nat,
        ),
        config.namespaces.uid is None ==> plan.uid_map@ == map_line(
            facts.uid as nat,
            facts.uid as nat,
        ),
        config.namespaces.gid matches Some(gid) ==> plan.gid_map@ == map_line(
            gid as nat,
            facts.gid as nat,
        ),
        config.namespaces.gid is None ==> plan.gid_map@ == map_line(
            facts.gid as nat,
            facts.gid as nat,
        ),
        config.namespaces.uts && config.namespaces.hostname is Some ==> plan.hostname@
            == config.namespaces.hostname->0@,
        plan.user_ns_active <==> (config.namespaces.user || (config.namespaces.pid && facts.euid
            != 0) || config.capabilities.adds()),
{
    let argv = text::views(plan.argv@);
    let args = text::views(spec.args@);
    assert(argv.len() == plan.argv@.len());
    assert(args.len() == spec.args@.len());
    assert(argv[0] == text::c_view(spec.program@));
    assert(argv[0] == plan.argv@[0]@);
    assert forall|i: int|
        0 <= i < spec.args@.len() && !(#[trigger] spec.args@[i])@.contains(
            '\0',
        ) implies plan.argv@[i + 1]@ == spec.args@[i]@ by {
        assert(args[i] == spec.args@[i]@);
        assert(argv[i + 1] == text::c_view(args[i]));
        assert(argv[i + 1] == plan.argv@[i + 1]@);
    }
    let envp = text::views(plan.envp@);
    assert(envp.len() == plan.envp@.len());
    assert forall|i: int| 0 <= i < spec.env.list().len() implies (#[trigger] plan.envp@[i])@
        == env_text(spec.env.list()[i].0@, spec.env.list()[i].1@) by {
        assert(envp[i] == plan.envp@[i]@);
    }
}

/// The capabilities of a plan are those that the configuration asks for, and the
/// steps towards them are those that the caller's standing calls for: root
/// outside a user namespace sets them where they are not all and narrows the
/// bounding set where it holds more; anyone inside one who is not root there, and
/// anyone outside who is not root, raises what is asked for into the ambient set.
pub proof fn capabilities_are_those_asked_for(
    arch: Arch,
    config: SandboxConfig,
    spec: CommandSpec,
    facts: HostFacts,
    plan: ChildPlan,
)
    requires
        plan_fits(arch, config, spec, facts, plan),
    ensures
        plan.caps.requested == requested_set(config.capabilities, facts.effective_caps),
        ({
            let asked = plan.caps.requested;
            let inside = config.namespaces.user || config.namespaces.user_try || (
            config.namespaces.pid && facts.euid != 0) || config.capabilities.adds();
            let zero_inside = inside && match config.namespaces.uid {
                Some(uid) => uid == 0,
                None => facts.uid == 0,
            };
            let capset = plan.caps.flags & CAP_F_NEED_CAPSET != 0;
            let bounding = plan.caps.flags & CAP_F_NEED_BOUNDING != 0;
            let ambient = plan.caps.flags & CAP_F_NEED_AMBIENT != 0;
            &&& inside && zero_inside ==> !ambient && !bounding && (capset <==> asked != FULL_SET)
            &&& inside && !zero_inside ==> (ambient <==> asked != 0) && !bounding && capset
            &&& !inside && facts.euid != 0 ==> (ambient <==> asked != 0) && !bounding && (capset
                <==> asked != 0)
            &&& !inside && facts.euid == 0 ==> !ambient && (capset <==> asked != FULL_SET) && (
            bounding <==> asked != FULL_SET && bounding_excess(asked, facts.bounding))
        }),
{
    let requested = requested_set(config.capabilities, facts.effective_caps);
    let is_root = facts.euid == 0;
    let userns = wants_user_ns(config, facts);
    let ns_root = userns && inside_id(config.namespaces.uid, facts.uid) == 0;
    flags_tell_answers(
        needs_capset(requested, is_root, userns, ns_root),
        needs_bounding(requested, is_root, userns, facts.bounding),
        needs_ambient(requested, is_root, userns, ns_root),
    );
}

/// A system call of another architecture than the machine's own kills the
/// process, wherever calls are denied.
pub proof fn foreign_calls_are_killed(
    arch: Arch,
    config: SandboxConfig,
    spec: CommandSpec,
    facts: HostFacts,
    plan: ChildPlan,
    data: seccomp_data,
)
    requires
        plan_fits(arch, config, spec, facts, plan),
        config.seccomp_deny_nrs@.len() > 0,
        data.arch != arch.audit_spec(),
    ensures
        run(plan.bpf_filter@, data) == Some(SECCOMP_RET_KILL_PROCESS),
{
    deny_program_decides(arch.audit_spec(), config.seccomp_deny_nrs@, data);
}

/// The filter of a plan reports every system call that the configuration
/// denies and lets every other one through, on the architecture of the
/// machine.
pub proof fn denied_calls_are_reported(
    arch: Arch,
    config: SandboxConfig,
    spec: CommandSpec,
    facts: HostFacts,
    plan: ChildPlan,
    data: seccomp_data,
)
    requires
        plan_fits(arch, config, spec, facts, plan),
        config.seccomp_deny_nrs@.len() > 0,
        data.arch == arch.audit_spec(),
    ensures
        run(plan.bpf_filter@, data) == Some(
            if config.seccomp_deny_nrs@.contains(data.nr as u32) {
                SECCOMP_RET_USER_NOTIF
            } else {
                SECCOMP_RET_ALLOW
            },
        ),
        child_steps(plan).contains(ChildStep::NotifFilter),
{
    deny_program_decides(arch.audit_spec(), config.seccomp_deny_nrs@, data);
    assert(plan.bpf_filter@.len() > 0);
    nothing_is_dropped(plan);
}

/// The host name is set only inside a UTS namespace of the child's own, and
/// there it is set wherever one is asked for; outside, the name of the host is
/// never touched.
pub proof fn host_keeps_its_name(
    arch: Arch,
    config: SandboxConfig,
    spec: CommandSpec,
    facts: HostFacts,
    plan: ChildPlan,
)
    requires
        plan_fits(arch, config, spec, facts, plan),
    ensures
        !config.namespaces.uts ==> !child_steps(plan).contains(ChildStep::Hostname),
        child_steps(plan).contains(ChildStep::Hostname) <==> hostname_for(config.namespaces).len()
            > 0,
        child_steps(plan).contains(ChildStep::Hostname) ==> child_steps(plan).contains(
            ChildStep::Unshare(NsOp { flag: CLONE_NEWUTS, try_mode: 0 }),
        ),
{
    hostname_is_set_where_planned(plan);
    asked_isolation_is_carried_out(arch, config, spec, facts, plan);
}

/// Nothing is mounted, and no mount tree cut off, outside a mount namespace of
/// the child's own.
pub proof fn host_keeps_its_mounts(
    arch: Arch,
    config: SandboxConfig,
    spec: CommandSpec,
    facts: HostFacts,
    plan: ChildPlan,
)
    requires
        plan_fits(arch, config, spec, facts, plan),
        plan.mount_ops@.len() > 0 || plan.do_private,
    ensures
        child_steps(plan).contains(
            ChildStep::Unshare(NsOp { flag: CLONE_NEWNS, try_mode: 0 }),
        ),
{
    asked_isolation_is_carried_out(arch, config, spec, facts, plan);
    assert(op_views(plan.mount_ops@).len() == plan.mount_ops@.len());
}

/// Every namespace that the configuration asks for without the `try` variant
/// is among the steps of the child, where its failure ends the child.
pub proof fn asked_isolation_is_carried_out(
    arch: Arch,
    config: SandboxConfig,
    spec: CommandSpec,
    facts: HostFacts,
    plan: ChildPlan,
)
    requires
        plan_fits(arch, config, spec, facts, plan),
    ensures
        effective_mnt(config) ==> child_steps(plan).contains(
            ChildStep::Unshare(NsOp { flag: CLONE_NEWNS, try_mode: 0 }),
        ),
        config.namespaces.ipc ==> child_steps(plan).contains(
            ChildStep::Unshare(NsOp { flag: CLONE_NEWIPC, try_mode: 0 }),
        ),
        config.namespaces.net ==> child_steps(plan).contains(
            ChildStep::Unshare(NsOp { flag: CLONE_NEWNET, try_mode: 0 }),
        ),
        config.namespaces.uts ==> child_steps(plan).contains(
            ChildStep::Unshare(NsOp { flag: CLONE_NEWUTS, try_mode: 0 }),
        ),
        effective_user(config, facts.euid) && !config.namespaces.user_try
            ==> child_steps(plan).contains(
            ChildStep::Unshare(NsOp { flag: CLONE_NEWUSER, try_mode: 0 }),
        ),
        config.namespaces.cgroup && !config.namespaces.cgroup_try ==> child_steps(plan).contains(
            ChildStep::Unshare(NsOp { flag: CLONE_NEWCGROUP, try_mode: 0 }),
        ),
        config.namespaces.pid ==> child_steps(plan).contains(ChildStep::PidNamespace),
        facts.has_ruleset ==> child_steps(plan).contains(ChildStep::Landlock),
{
    let user = effective_user(config, facts.euid);
    asked_namespaces_are_strict(config.namespaces, user, effective_mnt(config));
    nothing_is_dropped(plan);
    assert forall|op: NsOp| #[trigger] plan.ns_ops@.contains(op) implies child_steps(plan).contains(
        ChildStep::Unshare(op),
    ) by {
        let k = choose|k: int| 0 <= k < plan.ns_ops@.len() && plan.ns_ops@[k] == op;
        assert(child_steps(plan).contains(ChildStep::Unshare(plan.ns_ops@[k])));
    }
}

/// Whether the child of a plan has a user namespace, or tries to get one.
pub open spec fn wants_user_ns(config: SandboxConfig, facts: HostFacts) -> bool {
    effective_user(config, facts.euid) || config.namespaces.user_try
}

/// Where a child would hold other capabilities than those asked for, setting
/// them is among its steps; and where none is asked for, none is what they are
/// set to.
pub proof fn unasked_capabilities_are_given_up(
    arch: Arch,
    config: SandboxConfig,
    spec: CommandSpec,
    facts: HostFacts,
    plan: ChildPlan,
)
    requires
        plan_fits(arch, config, spec, facts, plan),
    ensures
        requested_set(config.capabilities, facts.effective_caps) != natural_set(
            facts.euid == 0,
            wants_user_ns(config, facts),
        ) ==> child_steps(plan).contains(
            ChildStep::Cap(
                CapStep::Capset {
                    mask: requested_set(config.capabilities, facts.effective_caps),
                },
            ),
        ),
        !config.capabilities.inherit_base && !config.capabilities.adds() && (facts.euid == 0
            || wants_user_ns(config, facts)) ==> child_steps(plan).contains(
            ChildStep::Cap(CapStep::Capset { mask: 0 }),
        ),
{
    let requested = requested_set(config.capabilities, facts.effective_caps);
    let is_root = facts.euid == 0;
    let userns = wants_user_ns(config, facts);
    let ns_root = userns && inside_id(config.namespaces.uid, facts.uid) == 0;
    nothing_is_dropped(plan);
    flags_tell_answers(
        needs_capset(requested, is_root, userns, ns_root),
        needs_bounding(requested, is_root, userns, facts.bounding),
        needs_ambient(requested, is_root, userns, ns_root),
    );
    if !config.capabilities.inherit_base && !config.capabilities.adds() {
        nothing_by_default(config.capabilities, facts.effective_caps);
    }
}

/// The words for a system call that was denied: its name, category, number and
/// architecture.
pub open spec fn denial_text(name: Seq<char>, category: Seq<char>, nr: u32, arch: u32) -> Seq<char> {
    "Blocked by seccomp filter (SIGSYS): syscall='"@ + name + "' category='"@ + category + "' nr="@
        + text::decimal(nr as nat) + " arch=0x"@ + text::numeral(arch as nat, 16)
        + " reason=blacklist signal=SIGSYS"@
}

/// Whether `message` describes the denied system call `nr`: by name and
/// category where it is on the built-in list, and as unknown where it is not.
pub open spec fn describes_denial(target: Arch, nr: u32, arch: u32, message: Seq<char>) -> bool {
    ||| exists|found: Syscall| #[trigger]
        entry_with_nr(target, nr, found) && message == denial_text(
            found.name@,
            found.category.tag_spec()@,
            nr,
            arch,
        )
    ||| (forall|found: Syscall| !entry_with_nr(target, nr, found)) && message == denial_text(
        "unknown"@,
        "unknown"@,
        nr,
        arch,
    )
}

fn describe_denial(target: Arch, nr: u32, arch: u32) -> (r: String)
    ensures
        describes_denial(target, nr, arch, r@),
{
    let found = syscall_by_nr(target, nr);
    let (name, category) = match found {
        Some(entry) => (entry.name, entry.category.tag()),
        None => ("unknown", "unknown"),
    };
    let mut out = "Blocked by seccomp filter (SIGSYS): syscall='".to_owned();
    out.append(name);
    out.append("' category='");
    out.append(category);
    out.append("' nr=");
    text::push_decimal(&mut out, nr as u64);
    out.append(" arch=0x");
    text::push_numeral(&mut out, arch as u64, 16);
    out.append(" reason=blacklist signal=SIGSYS");
    assert(out@ == denial_text(name@, category@, nr, arch));
    out
}

/// Whether an error output speaks of a refused file access.
pub open spec fn tells_of_landlock(stderr: Seq<char>) -> bool {
    text::occurs(stderr, "Operation not permitted"@) || text::occurs(
        stderr,
        "Permission denied"@,
    )
}

/// Whether an error output speaks of a refused system call.
pub open spec fn tells_of_seccomp(stderr: Seq<char>) -> bool {
    text::occurs(stderr, "Bad system call"@) || text::occurs(stderr, "SIGSYS"@) || text::occurs(
        stderr,
        "seccomp"@,
    )
}

/// The verdict on a command that no reported system call decides: exit code
/// 126 is a refusal by Landlock, 31 and 159 are a kill by seccomp, zero is
/// success, and of any other code the error output decides.
pub open spec fn verdict(exit_code: i32, stderr: Seq<char>) -> ReasonView {
    if exit_code == 126 {
        ReasonView::Denied {
            mechanism: DenyMechanism::Landlock,
            message: "Sandbox denial (Landlock): blocked by Landlock ruleset"@,
        }
    } else if exit_code == 0 {
        ReasonView::Success
    } else if exit_code == 31 || exit_code == 159 {
        ReasonView::Denied {
            mechanism: DenyMechanism::Seccomp,
            message: "Blocked by seccomp filter (SIGSYS)"@,
        }
    } else if tells_of_landlock(stderr) {
        ReasonView::Denied {
            mechanism: DenyMechanism::Landlock,
            message: "Landlock blocked access: "@ + stderr,
        }
    } else if tells_of_seccomp(stderr) {
        ReasonView::Denied {
            mechanism: DenyMechanism::Seccomp,
            message: "Seccomp blocked syscall: "@ + stderr,
        }
    } else {
        ReasonView::Program(exit_code)
    }
}

/// Whether `reason` is the verdict on a command: a reported system call
/// decides before anything else does, whatever the exit code.
pub open spec fn classified(
    target: Arch,
    exit_code: i32,
    blocked: Option<(u32, u32)>,
    stderr: Seq<char>,
    reason: ReasonView,
) -> bool {
    match blocked {
        Some(call) => reason matches ReasonView::Denied { mechanism, message } && mechanism
            == DenyMechanism::Seccomp && describes_denial(target, call.0, call.1, message),
        None => reason == verdict(exit_code, stderr),
    }
}

/// The verdict by exit code: zero is success, 126 a refusal by Landlock, 31 and
/// 159 a kill by seccomp. Of any other code the error output decides: words of a
/// refused file access speak for Landlock, words of a refused system call for
/// seccomp, and without either the code is the command's own.
pub proof fn verdicts(exit_code: i32, stderr: Seq<char>)
    ensures
        ({
            let r = verdict(exit_code, stderr);
            let files = text::occurs(stderr, "Operation not permitted"@) || text::occurs(
                stderr,
                "Permission denied"@,
            );
            let calls = text::occurs(stderr, "Bad system call"@) || text::occurs(
                stderr,
                "SIGSYS"@,
            ) || text::occurs(stderr, "seccomp"@);
            let open = exit_code != 0 && exit_code != 126 && exit_code != 31 && exit_code != 159;
            &&& r is Success <==> exit_code == 0
            &&& exit_code == 126 ==> r is Denied && r->mechanism is Landlock
            &&& exit_code == 31 || exit_code == 159 ==> r is Denied && r->mechanism is Seccomp
            &&& open && files ==> r == (ReasonView::Denied {
                mechanism: DenyMechanism::Landlock,
                message: "Landlock blocked access: "@ + stderr,
            })
            &&& open && !files && calls ==> r == (ReasonView::Denied {
                mechanism: DenyMechanism::Seccomp,
                message: "Seccomp blocked syscall: "@ + stderr,
            })
            &&& open && !files && !calls ==> r == ReasonView::Program(exit_code)
        }),
{
}

/// What is said of a denied call holds its name, its category, its number and
/// its architecture.
pub proof fn denials_are_described(name: Seq<char>, category: Seq<char>, nr: u32, arch: u32)
    ensures
        text::occurs(denial_text(name, category, nr, arch), "syscall='"@ + name + "'"@),
        text::occurs(denial_text(name, category, nr, arch), "category='"@ + category + "'"@),
        text::occurs(denial_text(name, category, nr, arch), " nr="@ + text::decimal(nr as nat)
            + " "@),
        text::occurs(denial_text(name, category, nr, arch), " arch=0x"@ + text::numeral(
            arch as nat,
            16,
        ) + " "@),
        text::begins(denial_text(name, category, nr, arch), "Blocked by seccomp filter (SIGSYS)"@),
{
    let whole = denial_text(name, category, nr, arch);
    let number = text::decimal(nr as nat);
    let machine = text::numeral(arch as nat, 16);
    reveal_strlit("Blocked by seccomp filter (SIGSYS): syscall='");
    reveal_strlit("Blocked by seccomp filter (SIGSYS): ");
    reveal_strlit("Blocked by seccomp filter (SIGSYS)");
    reveal_strlit("' category='");
    reveal_strlit("' nr=");
    reveal_strlit(" arch=0x");
    reveal_strlit(" reason=blacklist signal=SIGSYS");
    reveal_strlit("syscall='");
    reveal_strlit("category='");
    reveal_strlit("'");
    reveal_strlit(" ");
    reveal_strlit(" nr=");
    let tail = " reason=blacklist signal=SIGSYS"@;
    let head = "Blocked by seccomp filter (SIGSYS): "@;
    let named = "syscall='"@ + name + "'"@;
    let sorted = "category='"@ + category + "'"@;
    let counted = " nr="@ + number + " "@;
    let placed = " arch=0x"@ + machine + " "@;
    let rest_d = tail.skip(1);
    let before_d = head + named + " "@ + sorted + " nr="@ + number;
    assert(whole =~= before_d + placed + rest_d);
    text::texts_hold_their_parts(before_d, placed, rest_d);
    let rest_c = " arch=0x"@.skip(1) + machine + tail;
    let before_c = head + named + " "@ + sorted;
    assert(whole =~= before_c + counted + rest_c);
    text::texts_hold_their_parts(before_c, counted, rest_c);
    let rest_b = " nr="@ + number + " arch=0x"@ + machine + tail;
    let before_b = head + named + " "@;
    assert(whole =~= before_b + sorted + rest_b);
    text::texts_hold_their_parts(before_b, sorted, rest_b);
    let rest_a = " "@ + sorted + rest_b;
    assert(whole =~= head + named + rest_a);
    text::texts_hold_their_parts(head, named, rest_a);
    assert(whole.take(34) =~= "Blocked by seccomp filter (SIGSYS)"@);
}

/// The verdict on a command that no reported system call decides.
pub fn verdict_on(exit_code: i32, stderr: &str) -> (r: ExitReason)
    ensures
        r@ == verdict(exit_code, stderr@),
{
    if exit_code == 126 {
        return ExitReason::Denied {
            mechanism: DenyMechanism::Landlock,
            message: "Sandbox denial (Landlock): blocked by Landlock ruleset".to_owned(),
        };
    }
    if exit_code == 0 {
        return ExitReason::Success;
    }
    if exit_code == 31 || exit_code == 159 {
        return ExitReason::Denied {
            mechanism: DenyMechanism::Seccomp,
            message: "Blocked by seccomp filter (SIGSYS)".to_owned(),
        };
    }
    if text::contains(stderr, "Operation not permitted") || text::contains(
        stderr,
        "Permission denied",
    ) {
        let mut message = "Landlock blocked access: ".to_owned();
        message.append(stderr);
        return ExitReason::Denied { mechanism: DenyMechanism::Landlock, message };
    }
    if text::contains(stderr, "Bad system call") || text::contains(stderr, "SIGSYS")
        || text::contains(stderr, "seccomp") {
        let mut message = "Seccomp blocked syscall: ".to_owned();
        message.append(stderr);
        return ExitReason::Denied { mechanism: DenyMechanism::Seccomp, message };
    }
    ExitReason::Program(exit_code)
}

/// Classifies the end of a command.
pub fn classify(
    target: Arch,
    exit_code: i32,
    blocked: Option<(u32, u32)>,
    stderr: &str,
) -> (r: ExitReason)
    ensures
        classified(target, exit_code, blocked, stderr@, r@),
{
    match blocked {
        Some((nr, arch)) => ExitReason::Denied {
            mechanism: DenyMechanism::Seccomp,
            message: describe_denial(target, nr, arch),
        },
        None => verdict_on(exit_code, stderr),
    }
}

/// A reported call is described by its entry on the built-in list of the
/// architecture, and as unknown where it has none; without a report the exit code
/// and the error output decide.
pub proof fn reports_are_described(
    target: Arch,
    exit_code: i32,
    blocked: Option<(u32, u32)>,
    stderr: Seq<char>,
    reason: ReasonView,
    found: Syscall,
)
    requires
        classified(target, exit_code, blocked, stderr, reason),
    ensures
        blocked is None ==> reason == verdict(exit_code, stderr),
        blocked matches Some(call) ==> (syscall_table().contains(found) && found.nr_spec(target)
            == call.0 ==> reason == (ReasonView::Denied {
            mechanism: DenyMechanism::Seccomp,
            message: denial_text(found.name@, found.category.tag_spec()@, call.0, call.1),
        })),
        blocked matches Some(call) ==> ((forall|other: Syscall|
            #![trigger syscall_table().contains(other)]
            syscall_table().contains(other) ==> other.nr_spec(target) != call.0) ==> reason == (
        ReasonView::Denied {
            mechanism: DenyMechanism::Seccomp,
            message: denial_text("unknown"@, "unknown"@, call.0, call.1),
        })),
{
    if let Some(call) = blocked {
        let message = reason->message;
        if syscall_table().contains(found) && found.nr_spec(target) == call.0 {
            assert(entry_with_nr(target, call.0, found));
            if exists|other: Syscall| #[trigger]
                entry_with_nr(target, call.0, other) && message == denial_text(
                    other.name@,
                    other.category.tag_spec()@,
                    call.0,
                    call.1,
                ) {
                let other = choose|other: Syscall| #[trigger]
                    entry_with_nr(target, call.0, other) && message == denial_text(
                        other.name@,
                        other.category.tag_spec()@,
                        call.0,
                        call.1,
                    );
                entry_with_nr_is_unique(target, call.0, found, other);
            }
        }
    }
}

/// A reported system call makes the verdict a denial even where the command
/// went on and succeeded.
pub proof fn reported_call_is_denied(
    target: Arch,
    exit_code: i32,
    nr: u32,
    arch: u32,
    stderr: Seq<char>,
    reason: ReasonView,
)
    requires
        classified(target, exit_code, Some((nr, arch)), stderr, reason),
    ensures
        reason is Denied,
        reason->mechanism == DenyMechanism::Seccomp,
{
}

/// Success is never claimed for a command that ended otherwise.
pub proof fn success_means_zero(
    target: Arch,
    exit_code: i32,
    blocked: Option<(u32, u32)>,
    stderr: Seq<char>,
    reason: ReasonView,
)
    requires
        classified(target, exit_code, blocked, stderr, reason),
    ensures
        reason is Success <==> (blocked is None && exit_code == 0),
{
}

/// What to do about a child that is being waited for.
#[derive(Debug, Clone, Copy, PartialEq, Eq, Structural)]
pub enum WaitAction {
    /// It has ended.
    Reaped,
    /// Waiting failed.
    Failed,
    /// Its time is up: kill it.
    Kill,
    /// Look again after this many milliseconds.
    Sleep { millis: u64 },
}

/// Milliseconds between two looks at a child.
pub const WAIT_TICK_MILLIS: u64 = 10;

/// What to do about a child that is being waited for.
pub open spec fn waiting(result: i32, elapsed: u64, timeout: u64, killed: bool) -> WaitAction {
    if result < 0 {
        WaitAction::Failed
    } else if result > 0 {
        WaitAction::Reaped
    } else if killed {
        WaitAction::Sleep { millis: WAIT_TICK_MILLIS }
    } else if elapsed >= timeout {
        WaitAction::Kill
    } else if timeout - elapsed < WAIT_TICK_MILLIS {
        WaitAction::Sleep { millis: (timeout - elapsed) as u64 }
    } else {
        WaitAction::Sleep { millis: WAIT_TICK_MILLIS }
    }
}

/// A child that has not ended is killed once its time is up, not before and not
/// twice; until then it is looked at again within ten milliseconds, and never
/// later than the time is up. A child that has ended is never killed.
pub proof fn time_is_kept(result: i32, elapsed: u64, timeout: u64, killed: bool)
    ensures
        waiting(result, elapsed, timeout, killed) is Kill <==> result == 0 && !killed && elapsed
            >= timeout,
        waiting(result, elapsed, timeout, killed) is Reaped <==> result > 0,
        waiting(result, elapsed, timeout, killed) is Failed <==> result < 0,
        waiting(result, elapsed, timeout, killed) matches WaitAction::Sleep { millis } ==> 0 < millis
            <= 10 && (!killed ==> elapsed + millis <= timeout),
        result == 0 && !killed && elapsed + 10 <= timeout ==> waiting(
            result,
            elapsed,
            timeout,
            killed,
        ) == (WaitAction::Sleep { millis: 10 }),
{
}

/// Says what to do about a child: `result` is what `waitpid` returned without
/// waiting, and `elapsed` of `timeout` milliseconds are over.
pub fn wait_action(result: i32, elapsed: u64, timeout: u64, killed: bool) -> (r: WaitAction)
    ensures
        r == waiting(result, elapsed, timeout, killed),
        result < 0 ==> r == WaitAction::Failed,
        result > 0 ==> r == WaitAction::Reaped,
        result == 0 && !killed && elapsed >= timeout ==> r == WaitAction::Kill,
        result == 0 && !killed && elapsed < timeout ==> r == (WaitAction::Sleep {
            millis: if timeout - elapsed < WAIT_TICK_MILLIS {
                (timeout - elapsed) as u64
            } else {
                WAIT_TICK_MILLIS
            },
        }),
        result == 0 && killed ==> r == (WaitAction::Sleep { millis: WAIT_TICK_MILLIS }),
{
    if result < 0 {
        WaitAction::Failed
    } else if result > 0 {
        WaitAction::Reaped
    } else if killed {
        WaitAction::Sleep { millis: WAIT_TICK_MILLIS }
    } else if elapsed >= timeout {
        WaitAction::Kill
    } else if timeout - elapsed < WAIT_TICK_MILLIS {
        WaitAction::Sleep { millis: timeout - elapsed }
    } else {
        WaitAction::Sleep { millis: WAIT_TICK_MILLIS }
    }
}

} // verus!
