//! Namespaces: the flags that make them, the files that describe a user
//! namespace, and the probes for what the kernel offers.

use crate::linux::errno::ENOENT;
use vstd::prelude::*;

verus! {

/// Mount namespace.
pub const CLONE_NEWNS: i32 = 0x0002_0000;

/// Cgroup namespace.
pub const CLONE_NEWCGROUP: i32 = 0x0200_0000;

/// UTS namespace.
pub const CLONE_NEWUTS: i32 = 0x0400_0000;

/// IPC namespace.
pub const CLONE_NEWIPC: i32 = 0x0800_0000;

/// User namespace.
pub const CLONE_NEWUSER: i32 = 0x1000_0000;

/// PID namespace.
pub const CLONE_NEWPID: i32 = 0x2000_0000;

/// Network namespace.
pub const CLONE_NEWNET: i32 = 0x4000_0000;

/// `libc::WIFEXITED`: the low seven bits of a wait status are zero, that is,
/// the process ended by itself.
pub assume_specification[ libc::WIFEXITED ](status: i32) -> (r: bool)
    ensures
        r == (status & 0x7f == 0),
;

/// `libc::WEXITSTATUS`: the second byte of a wait status.
pub assume_specification[ libc::WEXITSTATUS ](status: i32) -> (r: i32)
    ensures
        r == (status >> 8) & 0xff,
;

/// `libc::WIFSIGNALED`: the low seven bits of a wait status are a signal
/// number, neither all clear nor all set.
pub assume_specification[ libc::WIFSIGNALED ](status: i32) -> (r: bool)
    ensures
        r == (0 < status & 0x7f < 0x7f),
;

/// `libc::WTERMSIG`: the low seven bits of a wait status.
pub assume_specification[ libc::WTERMSIG ](status: i32) -> (r: i32)
    ensures
        r == status & 0x7f,
;

/// The flags by which the kernel knows the namespaces.
pub proof fn namespace_flags()
    ensures
        CLONE_NEWNS == 0x0002_0000,
        CLONE_NEWCGROUP == 0x0200_0000,
        CLONE_NEWUTS == 0x0400_0000,
        CLONE_NEWIPC == 0x0800_0000,
        CLONE_NEWUSER == 0x1000_0000,
        CLONE_NEWPID == 0x2000_0000,
        CLONE_NEWNET == 0x4000_0000,
{
}

/// The flags of `unshare(2)` for the namespaces that are wanted.
pub fn unshare_flags(user: bool, ipc: bool, pid: bool, net: bool, uts: bool, cgroup: bool) -> (r:
    i32)
    ensures
        r & CLONE_NEWUSER != 0 <==> user,
        r & CLONE_NEWIPC != 0 <==> ipc,
        r & CLONE_NEWPID != 0 <==> pid,
        r & CLONE_NEWNET != 0 <==> net,
        r & CLONE_NEWUTS != 0 <==> uts,
        r & CLONE_NEWCGROUP != 0 <==> cgroup,
        r & !(CLONE_NEWUSER | CLONE_NEWIPC | CLONE_NEWPID | CLONE_NEWNET | CLONE_NEWUTS
            | CLONE_NEWCGROUP) == 0,
{
    let mut flags: i32 = 0;
    if user {
        flags = flags | CLONE_NEWUSER;
    }
    if ipc {
        flags = flags | CLONE_NEWIPC;
    }
    if pid {
        flags = flags | CLONE_NEWPID;
    }
    if net {
        flags = flags | CLONE_NEWNET;
    }
    if uts {
        flags = flags | CLONE_NEWUTS;
    }
    if cgroup {
        flags = flags | CLONE_NEWCGROUP;
    }
    proof {
        let a = if user {
            0i32 | 0x1000_0000i32
        } else {
            0i32
        };
        let b = if ipc {
            a | 0x0800_0000i32
        } else {
            a
        };
        let c = if pid {
            b | 0x2000_0000i32
        } else {
            b
        };
        let d = if net {
            c | 0x4000_0000i32
        } else {
            c
        };
        let e = if uts {
            d | 0x0400_0000i32
        } else {
            d
        };
        let f = if cgroup {
            e | 0x0200_0000i32
        } else {
            e
        };
        assert(f == flags);
        assert((f & 0x1000_0000i32 != 0 <==> user) && (f & 0x0800_0000i32 != 0 <==> ipc) && (f
            & 0x2000_0000i32 != 0 <==> pid) && (f & 0x4000_0000i32 != 0 <==> net) && (f
            & 0x0400_0000i32 != 0 <==> uts) && (f & 0x0200_0000i32 != 0 <==> cgroup) && (f & !(
        0x1000_0000i32 | 0x0800_0000i32 | 0x2000_0000i32 | 0x4000_0000i32 | 0x0400_0000i32
            | 0x0200_0000i32) == 0)) by (bit_vector)
            requires
                a == if user {
                    0i32 | 0x1000_0000i32
                } else {
                    0i32
                },
                b == if ipc {
                    a | 0x0800_0000i32
                } else {
                    a
                },
                c == if pid {
                    b | 0x2000_0000i32
                } else {
                    b
                },
                d == if net {
                    c | 0x4000_0000i32
                } else {
                    c
                },
                e == if uts {
                    d | 0x0400_0000i32
                } else {
                    d
                },
                f == if cgroup {
                    e | 0x0200_0000i32
                } else {
                    e
                },
        ;
    }
    flags
}

/// The flags are pinned down by what `unshare_flags` says of them.
pub proof fn flags_are_their_bits(a: i32, b: i32)
    requires
        (a & CLONE_NEWUSER != 0) == (b & CLONE_NEWUSER != 0),
        (a & CLONE_NEWIPC != 0) == (b & CLONE_NEWIPC != 0),
        (a & CLONE_NEWPID != 0) == (b & CLONE_NEWPID != 0),
        (a & CLONE_NEWNET != 0) == (b & CLONE_NEWNET != 0),
        (a & CLONE_NEWUTS != 0) == (b & CLONE_NEWUTS != 0),
        (a & CLONE_NEWCGROUP != 0) == (b & CLONE_NEWCGROUP != 0),
        a & !(CLONE_NEWUSER | CLONE_NEWIPC | CLONE_NEWPID | CLONE_NEWNET | CLONE_NEWUTS
            | CLONE_NEWCGROUP) == 0,
        b & !(CLONE_NEWUSER | CLONE_NEWIPC | CLONE_NEWPID | CLONE_NEWNET | CLONE_NEWUTS
            | CLONE_NEWCGROUP) == 0,
    ensures
        a == b,
{
    assert(a == b) by (bit_vector)
        requires
            (a & 0x1000_0000i32 != 0) == (b & 0x1000_0000i32 != 0),
            (a & 0x0800_0000i32 != 0) == (b & 0x0800_0000i32 != 0),
            (a & 0x2000_0000i32 != 0) == (b & 0x2000_0000i32 != 0),
            (a & 0x4000_0000i32 != 0) == (b & 0x4000_0000i32 != 0),
            (a & 0x0400_0000i32 != 0) == (b & 0x0400_0000i32 != 0),
            (a & 0x0200_0000i32 != 0) == (b & 0x0200_0000i32 != 0),
            a & !(0x1000_0000i32 | 0x0800_0000i32 | 0x2000_0000i32 | 0x4000_0000i32
                | 0x0400_0000i32 | 0x0200_0000i32) == 0,
            b & !(0x1000_0000i32 | 0x0800_0000i32 | 0x2000_0000i32 | 0x4000_0000i32
                | 0x0400_0000i32 | 0x0200_0000i32) == 0,
    ;
}

/// How far the writing of a file has come.
#[derive(Debug, Clone, Copy, PartialEq, Eq, Structural)]
pub enum WriteProgress {
    /// Write the bytes from this index on.
    Write { from: usize },
    /// All bytes are written.
    Done,
    /// The last write failed.
    Failed,
}

/// What follows a `write(2)` that returned `result`, where `written` of `len`
/// bytes had been written before it.
pub fn write_ns_file(len: usize, written: usize, result: i64) -> (r: WriteProgress)
    requires
        written <= len,
        result <= len - written,
    ensures
        result < 0 ==> r == WriteProgress::Failed,
        result >= 0 && written + result < len ==> r == (WriteProgress::Write {
            from: (written + result) as usize,
        }),
        result >= 0 && written + result == len ==> r == WriteProgress::Done,
{
    if result < 0 {
        return WriteProgress::Failed;
    }
    let total: usize = written + result as usize;
    if total < len {
        WriteProgress::Write { from: total }
    } else {
        WriteProgress::Done
    }
}

/// The files that describe a user namespace, in the order of writing.
#[derive(Debug, Clone, Copy, PartialEq, Eq, Structural)]
pub enum UserNsFile {
    /// `/proc/self/uid_map`
    UidMap,
    /// `/proc/self/setgroups`
    Setgroups,
    /// `/proc/self/gid_map`
    GidMap,
}

/// What remains of the description of a user namespace.
#[derive(Debug, Clone, Copy, PartialEq, Eq, Structural)]
pub enum UserNsSetup {
    /// Write this file.
    Write(UserNsFile),
    /// All files are written.
    Done,
    /// Writing failed with this error.
    Failed { errno: i32 },
}

/// What follows the writing of a file that ended with `errno`, zero for
/// success. Old kernels have no `setgroups` file, which is passed over.
pub open spec fn user_ns_next(file: UserNsFile, errno: i32) -> UserNsSetup {
    if errno != 0 && !(file is Setgroups && errno == ENOENT) {
        UserNsSetup::Failed { errno }
    } else {
        match file {
            UserNsFile::UidMap => UserNsSetup::Write(UserNsFile::Setgroups),
            UserNsFile::Setgroups => UserNsSetup::Write(UserNsFile::GidMap),
            UserNsFile::GidMap => UserNsSetup::Done,
        }
    }
}

/// The user map is written first, then the right to set groups is given up, then
/// the group map is written. A failure ends the writing, but for a kernel that
/// has no file for the right to set groups.
pub proof fn user_files_come_in_order(file: UserNsFile, errno: i32)
    ensures
        user_ns_next(UserNsFile::UidMap, 0) == UserNsSetup::Write(UserNsFile::Setgroups),
        user_ns_next(UserNsFile::Setgroups, 0) == UserNsSetup::Write(UserNsFile::GidMap),
        user_ns_next(UserNsFile::GidMap, 0) == UserNsSetup::Done,
        user_ns_next(UserNsFile::Setgroups, 2) == UserNsSetup::Write(UserNsFile::GidMap),
        errno != 0 && (errno != 2 || !(file is Setgroups)) ==> user_ns_next(file, errno) == (
        UserNsSetup::Failed { errno }),
{
}

/// What to write first, and what after the given file.
pub fn setup_user_ns(last: Option<(UserNsFile, i32)>) -> (r: UserNsSetup)
    ensures
        r == match last {
            None => UserNsSetup::Write(UserNsFile::UidMap),
            Some(step) => user_ns_next(step.0, step.1),
        },
{
    match last {
        None => UserNsSetup::Write(UserNsFile::UidMap),
        Some((file, errno)) => {
            let excused = matches!(file, UserNsFile::Setgroups) && errno == ENOENT;
            if errno != 0 && !excused {
                return UserNsSetup::Failed { errno };
            }
            match file {
                UserNsFile::UidMap => UserNsSetup::Write(UserNsFile::Setgroups),
                UserNsFile::Setgroups => UserNsSetup::Write(UserNsFile::GidMap),
                UserNsFile::GidMap => UserNsSetup::Done,
            }
        },
    }
}

/// Whether a wait status tells of a process that ended by itself with exit
/// code zero.
pub open spec fn ended_well(status: i32) -> bool {
    status & 0x7f == 0 && (status >> 8) & 0xff == 0
}

/// A process ended well exactly where its wait status stands for the exit code
/// zero.
pub proof fn ending_well_is_code_zero(status: i32)
    ensures
        ended_well(status) <==> exit_code_of(status, 1) == 0,
{
    assert(0 <= status & 0x7f <= 0x7f) by (bit_vector);
}

/// What a probe found out: `forked` and `waited` are the results of `fork` and
/// `waitpid`, and `status` is the wait status of the child that tried.
pub fn fork_and_try_unshare(forked: i32, waited: i32, status: i32) -> (r: bool)
    ensures
        r == (forked >= 0 && waited >= 0 && ended_well(status)),
{
    if forked < 0 || waited < 0 {
        return false;
    }
    libc::WIFEXITED(status) && libc::WEXITSTATUS(status) == 0
}

/// The exit code with which the child of a probe tells how `unshare` went.
pub fn probe_exit_code(result: i32) -> (r: i32)
    ensures
        r == if result == 0 {
            0i32
        } else {
            1i32
        },
{
    if result == 0 {
        0
    } else {
        1
    }
}

/// What the child of the network probe does next.
#[derive(Debug, Clone, Copy, PartialEq, Eq, Structural)]
pub enum NetProbe {
    /// Call `unshare` with this flag.
    Unshare { flag: i32 },
    /// End with this exit code.
    Exit { code: i32 },
}

/// What the child of the network probe does after the calls so far returned
/// `results`: it tries the network namespace, and where that fails, first a
/// user namespace and then again the network namespace.
pub open spec fn net_probe_after(results: Seq<i32>) -> NetProbe {
    if results.len() == 0 {
        NetProbe::Unshare { flag: CLONE_NEWNET }
    } else if results[0] == 0 {
        NetProbe::Exit { code: 0 }
    } else if results.len() == 1 {
        NetProbe::Unshare { flag: CLONE_NEWUSER }
    } else if results[1] != 0 {
        NetProbe::Exit { code: 1 }
    } else if results.len() == 2 {
        NetProbe::Unshare { flag: CLONE_NEWNET }
    } else if results[2] == 0 {
        NetProbe::Exit { code: 0 }
    } else {
        NetProbe::Exit { code: 1 }
    }
}

/// The network probe says yes where a network namespace could be made, alone or
/// inside a user namespace, and no where it could not.
pub proof fn network_probe_answers(first: i32, second: i32, third: i32)
    ensures
        net_probe_after(Seq::empty()) == (NetProbe::Unshare { flag: CLONE_NEWNET }),
        net_probe_after(seq![first]) == if first == 0 {
            NetProbe::Exit { code: 0 }
        } else {
            NetProbe::Unshare { flag: CLONE_NEWUSER }
        },
        first != 0 ==> net_probe_after(seq![first, second]) == if second == 0 {
            NetProbe::Unshare { flag: CLONE_NEWNET }
        } else {
            NetProbe::Exit { code: 1 }
        },
        first != 0 && second == 0 ==> net_probe_after(seq![first, second, third]) == (
        NetProbe::Exit {
            code: if third == 0 {
                0
            } else {
                1
            },
        }),
{
}

/// What the child of the network probe does after the calls so far.
pub fn fork_and_try_net(results: &[i32]) -> (r: NetProbe)
    ensures
        r == net_probe_after(results@),
{
    if results.len() == 0 {
        NetProbe::Unshare { flag: CLONE_NEWNET }
    } else if results[0] == 0 {
        NetProbe::Exit { code: 0 }
    } else if results.len() == 1 {
        NetProbe::Unshare { flag: CLONE_NEWUSER }
    } else if results[1] != 0 {
        NetProbe::Exit { code: 1 }
    } else if results.len() == 2 {
        NetProbe::Unshare { flag: CLONE_NEWNET }
    } else if results[2] == 0 {
        NetProbe::Exit { code: 0 }
    } else {
        NetProbe::Exit { code: 1 }
    }
}

/// The exit code that a wait status stands for: that of a process that ended
/// by itself, 128 and the signal of one that was killed, and `otherwise` for
/// any other status.
pub open spec fn exit_code_of(status: i32, otherwise: i32) -> i32 {
    if status & 0x7f == 0 {
        (status >> 8) & 0xff
    } else if 0 < status & 0x7f < 0x7f {
        (128 + (status & 0x7f)) as i32
    } else {
        otherwise
    }
}

/// The exit code that a wait status stands for.
pub fn exit_code(status: i32, otherwise: i32) -> (r: i32)
    ensures
        r == exit_code_of(status, otherwise),
{
    if libc::WIFEXITED(status) {
        libc::WEXITSTATUS(status)
    } else if libc::WIFSIGNALED(status) {
        128 + libc::WTERMSIG(status)
    } else {
        otherwise
    }
}

/// The wait status of a process that ended by itself gives its exit code back,
/// and that of a killed one 128 and the signal, with or without a core dump.
pub proof fn exit_codes_read_back(code: i32, signal: i32, otherwise: i32)
    requires
        0 <= code <= 255,
        0 < signal < 127,
    ensures
        exit_code_of(code << 8, otherwise) == code,
        exit_code_of(signal, otherwise) == 128 + signal,
        exit_code_of(signal | 0x80, otherwise) == 128 + signal,
        exit_code_of(0x7f, otherwise) == otherwise,
{
    assert((code << 8) & 0x7f == 0 && ((code << 8) >> 8) & 0xff == code) by (bit_vector)
        requires
            0 <= code <= 255,
    ;
    assert(signal & 0x7f == signal && (signal | 0x80) & 0x7f == signal && 0x7fi32 & 0x7f == 0x7f)
        by (bit_vector)
        requires
            0 < signal < 127,
    ;
}

} // verus!
