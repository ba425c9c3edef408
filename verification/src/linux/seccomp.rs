//! Seccomp filters in classic BPF, and the answers to what they report.
//!
//! A deny filter looks at the architecture first and kills the process where
//! it is not the expected one. A system call on the deny list is handed to a
//! listener; every other one goes through. The listener answers each report
//! with `EPERM` and remembers which call it was.

use crate::linux::errno::EPERM;
use crate::text;
use vstd::prelude::*;

verus! {

/// Instruction class: load into the accumulator.
pub const BPF_LD: u16 = 0x00;

/// Instruction class: jump.
pub const BPF_JMP: u16 = 0x05;

/// Instruction class: return.
pub const BPF_RET: u16 = 0x06;

/// Load size: a word of 32 bits.
pub const BPF_W: u16 = 0x00;

/// Load mode: absolute offset.
pub const BPF_ABS: u16 = 0x20;

/// Jump condition: the accumulator equals the operand.
pub const BPF_JEQ: u16 = 0x10;

/// The operand is the constant of the instruction.
pub const BPF_K: u16 = 0x00;

/// `BPF_LD | BPF_W | BPF_ABS`.
pub const LOAD_WORD: u16 = 0x20;

/// `BPF_JMP | BPF_JEQ | BPF_K`.
pub const JUMP_IF_EQUAL: u16 = 0x15;

/// `BPF_RET | BPF_K`.
pub const RETURN: u16 = 0x06;

/// The three operation codes are made of the parts that the kernel names.
pub proof fn operation_codes()
    ensures
        LOAD_WORD == BPF_LD | BPF_W | BPF_ABS,
        JUMP_IF_EQUAL == BPF_JMP | BPF_JEQ | BPF_K,
        RETURN == BPF_RET | BPF_K,
{
    assert(0x20u16 == 0x00u16 | 0x00u16 | 0x20u16) by (bit_vector);
    assert(0x15u16 == 0x05u16 | 0x10u16 | 0x00u16) by (bit_vector);
    assert(0x06u16 == 0x06u16 | 0x00u16) by (bit_vector);
}

/// Filter result: kill the calling process.
pub const SECCOMP_RET_KILL_PROCESS: u32 = 0x8000_0000;

/// Filter result: hand the call to the listener.
pub const SECCOMP_RET_USER_NOTIF: u32 = 0x7fc0_0000;

/// Filter result: let the call through.
pub const SECCOMP_RET_ALLOW: u32 = 0x7fff_0000;

/// Audit number of x86_64.
pub const AUDIT_ARCH_X86_64: u32 = 0xc000_003e;

/// Audit number of aarch64.
pub const AUDIT_ARCH_AARCH64: u32 = 0xc000_00b7;

/// `ioctl` number that reads one pending report from the listener.
pub const SECCOMP_IOCTL_NOTIF_RECV: u64 = 0xC050_2100;

/// `ioctl` number that answers a report.
pub const SECCOMP_IOCTL_NOTIF_SEND: u64 = 0xC018_2101;

/// Offset of the system call number in the data that a filter sees.
pub const OFFSET_NR: u32 = 0;

/// Offset of the architecture in the data that a filter sees.
pub const OFFSET_ARCH: u32 = 4;

/// The processor architectures that filters can be built for.
#[derive(Debug, Clone, Copy, PartialEq, Eq, Structural)]
pub enum Arch {
    X86_64,
    Aarch64,
}

impl Arch {
    /// The number by which the kernel knows the architecture.
    pub open spec fn audit_spec(self) -> u32 {
        match self {
            Arch::X86_64 => AUDIT_ARCH_X86_64,
            Arch::Aarch64 => AUDIT_ARCH_AARCH64,
        }
    }

    /// The number by which the kernel knows the architecture.
    pub fn audit(&self) -> (r: u32)
        ensures
            r == self.audit_spec(),
    {
        match self {
            Arch::X86_64 => AUDIT_ARCH_X86_64,
            Arch::Aarch64 => AUDIT_ARCH_AARCH64,
        }
    }
}

/// One instruction of a filter.
#[allow(non_camel_case_types)]
#[derive(Debug, Clone, Copy, PartialEq, Eq, Structural)]
pub struct sock_filter {
    /// Operation code.
    pub code: u16,
    /// Instructions to skip where a comparison holds.
    pub jt: u8,
    /// Instructions to skip where a comparison does not hold.
    pub jf: u8,
    /// Operand.
    pub k: u32,
}

/// A filter together with the length that is announced to the kernel.
#[allow(non_camel_case_types)]
#[derive(Debug, Clone)]
pub struct sock_fprog {
    /// Number of instructions.
    pub len: u16,
    /// The instructions.
    pub filter: Vec<sock_filter>,
}

/// What a filter sees of a system call.
#[allow(non_camel_case_types)]
#[derive(Debug, Clone, Copy, PartialEq, Eq)]
pub struct seccomp_data {
    /// System call number.
    pub nr: i32,
    /// Audit number of the architecture.
    pub arch: u32,
    /// Address of the instruction that made the call.
    pub instruction_pointer: u64,
    /// The six arguments.
    pub args: [u64; 6],
}

/// A report to the listener.
#[allow(non_camel_case_types)]
#[derive(Debug, Clone, Copy)]
pub struct seccomp_notif {
    /// Identity of the report, repeated in the answer.
    pub id: u64,
    /// The process that made the call.
    pub pid: u32,
    /// Reserved.
    pub flags: u32,
    /// The call.
    pub data: seccomp_data,
}

/// The listener's answer to a report.
#[allow(non_camel_case_types)]
#[derive(Debug, Clone, Copy, PartialEq, Eq, Structural)]
pub struct seccomp_notif_resp {
    /// Which report is answered.
    pub id: u64,
    /// Value returned by the call where `error` is zero.
    pub val: i64,
    /// Error returned by the call.
    pub error: i32,
    /// Zero: the call is not carried out.
    pub flags: u32,
}

/// What kind of power a system call on the built-in list gives.
#[derive(Debug, Clone, Copy, PartialEq, Eq, Structural)]
pub enum SyscallCategory {
    /// mount, umount2, pivot_root, chroot
    MountFilesystem,
    /// ptrace
    DebugTrace,
    /// kexec_load, kexec_file_load, reboot
    Boot,
    /// init_module, finit_module, delete_module
    KernelModule,
    /// unshare
    Namespace,
    /// bpf
    BpfLoader,
}

impl SyscallCategory {
    /// The word for the category in messages.
    pub open spec fn tag_spec(self) -> &'static str {
        match self {
            SyscallCategory::MountFilesystem => "mount",
            SyscallCategory::DebugTrace => "debug",
            SyscallCategory::Boot => "boot",
            SyscallCategory::KernelModule => "module",
            SyscallCategory::Namespace => "namespace",
            SyscallCategory::BpfLoader => "bpf",
        }
    }

    /// The word for the category in messages.
    pub fn tag(&self) -> (r: &'static str)
        ensures
            r == self.tag_spec(),
    {
        match self {
            SyscallCategory::MountFilesystem => "mount",
            SyscallCategory::DebugTrace => "debug",
            SyscallCategory::Boot => "boot",
            SyscallCategory::KernelModule => "module",
            SyscallCategory::Namespace => "namespace",
            SyscallCategory::BpfLoader => "bpf",
        }
    }
}

/// A system call of the built-in list.
#[derive(Debug, Clone, Copy)]
pub struct Syscall {
    /// Its name.
    pub name: &'static str,
    /// Its category.
    pub category: SyscallCategory,
    /// Its number on x86_64.
    pub nr_x86_64: u32,
    /// Its number on aarch64.
    pub nr_aarch64: u32,
}

impl Syscall {
    /// Its number on the given architecture.
    pub open spec fn nr_spec(self, arch: Arch) -> u32 {
        match arch {
            Arch::X86_64 => self.nr_x86_64,
            Arch::Aarch64 => self.nr_aarch64,
        }
    }

    /// Its number on the given architecture.
    pub fn nr(&self, arch: Arch) -> (r: u32)
        ensures
            r == self.nr_spec(arch),
    {
        match arch {
            Arch::X86_64 => self.nr_x86_64,
            Arch::Aarch64 => self.nr_aarch64,
        }
    }
}

/// Number of system calls on the built-in list.
pub const BLACKLIST_LEN: usize = 13;

/// The indices of the built-in list that the built-in filter denies.
pub const BLACKLIST: [usize; 13] = [0, 1, 2, 3, 4, 5, 6, 7, 8, 9, 10, 11, 12];

/// The built-in list.
pub open spec fn syscall_table() -> Seq<Syscall> {
    seq![
        entry("mount", SyscallCategory::MountFilesystem, 165, 40),
        entry("umount2", SyscallCategory::MountFilesystem, 166, 39),
        entry("pivot_root", SyscallCategory::MountFilesystem, 155, 41),
        entry("chroot", SyscallCategory::MountFilesystem, 161, 51),
        entry("ptrace", SyscallCategory::DebugTrace, 101, 117),
        entry("kexec_load", SyscallCategory::Boot, 246, 104),
        entry("kexec_file_load", SyscallCategory::Boot, 320, 294),
        entry("reboot", SyscallCategory::Boot, 169, 142),
        entry("init_module", SyscallCategory::KernelModule, 175, 105),
        entry("finit_module", SyscallCategory::KernelModule, 313, 106),
        entry("delete_module", SyscallCategory::KernelModule, 176, 107),
        entry("unshare", SyscallCategory::Namespace, 97, 97),
        entry("bpf", SyscallCategory::BpfLoader, 357, 280),
    ]
}

/// One line of the built-in list.
pub open spec fn entry(
    name: &'static str,
    category: SyscallCategory,
    nr_x86_64: u32,
    nr_aarch64: u32,
) -> Syscall {
    Syscall { name, category, nr_x86_64, nr_aarch64 }
}

fn make_entry(
    name: &'static str,
    category: SyscallCategory,
    nr_x86_64: u32,
    nr_aarch64: u32,
) -> (r: Syscall)
    ensures
        r == entry(name, category, nr_x86_64, nr_aarch64),
{
    Syscall { name, category, nr_x86_64, nr_aarch64 }
}

/// The built-in list.
pub fn syscalls() -> (r: Vec<Syscall>)
    ensures
        r@ == syscall_table(),
{
    let out: Vec<Syscall> = vec![
        make_entry("mount", SyscallCategory::MountFilesystem, 165, 40),
        make_entry("umount2", SyscallCategory::MountFilesystem, 166, 39),
        make_entry("pivot_root", SyscallCategory::MountFilesystem, 155, 41),
        make_entry("chroot", SyscallCategory::MountFilesystem, 161, 51),
        make_entry("ptrace", SyscallCategory::DebugTrace, 101, 117),
        make_entry("kexec_load", SyscallCategory::Boot, 246, 104),
        make_entry("kexec_file_load", SyscallCategory::Boot, 320, 294),
        make_entry("reboot", SyscallCategory::Boot, 169, 142),
        make_entry("init_module", SyscallCategory::KernelModule, 175, 105),
        make_entry("finit_module", SyscallCategory::KernelModule, 313, 106),
        make_entry("delete_module", SyscallCategory::KernelModule, 176, 107),
        make_entry("unshare", SyscallCategory::Namespace, 97, 97),
        make_entry("bpf", SyscallCategory::BpfLoader, 357, 280),
    ];
    assert(out@ =~= syscall_table());
    out
}

/// The word that a load instruction at offset `k` finds, for the two words
/// that filters of this module load.
pub open spec fn loaded_word(data: seccomp_data, k: u32) -> Option<u32> {
    if k == OFFSET_NR {
        Some(data.nr as u32)
    } else if k == OFFSET_ARCH {
        Some(data.arch)
    } else {
        None
    }
}

/// What the kernel makes of `program` from instruction `at` on, with `acc` in
/// the accumulator: the value of the return instruction that is reached, or
/// nothing where the program runs over its end or uses an instruction that is
/// not modelled here.
pub open spec fn run_from(
    program: Seq<sock_filter>,
    data: seccomp_data,
    at: int,
    acc: u32,
) -> Option<u32>
    decreases
            if at < program.len() {
                program.len() - at
            } else {
                0
            },
{
    if at < 0 || at >= program.len() {
        None
    } else {
        let insn = program[at];
        if insn.code == LOAD_WORD {
            match loaded_word(data, insn.k) {
                Some(word) => run_from(program, data, at + 1, word),
                None => None,
            }
        } else if insn.code == JUMP_IF_EQUAL {
            if acc == insn.k {
                run_from(program, data, at + 1 + insn.jt, acc)
            } else {
                run_from(program, data, at + 1 + insn.jf, acc)
            }
        } else if insn.code == RETURN {
            Some(insn.k)
        } else {
            None
        }
    }
}

/// What the kernel makes of `program` for the system call `data`.
pub open spec fn run(program: Seq<sock_filter>, data: seccomp_data) -> Option<u32> {
    run_from(program, data, 0, 0)
}

/// How a filter runs: a load puts the number or the architecture of the call
/// into the accumulator, a comparison skips as many instructions as it says, and
/// a return ends the filter with its value.
pub proof fn filters_run(
    program: Seq<sock_filter>,
    data: seccomp_data,
    at: int,
    acc: u32,
    insn: sock_filter,
)
    requires
        0 <= at < program.len(),
        program[at] == insn,
    ensures
        insn.code == 0x20 && insn.k == 0 ==> run_from(program, data, at, acc) == run_from(
            program,
            data,
            at + 1,
            data.nr as u32,
        ),
        insn.code == 0x20 && insn.k == 4 ==> run_from(program, data, at, acc) == run_from(
            program,
            data,
            at + 1,
            data.arch,
        ),
        insn.code == 0x15 && acc == insn.k ==> run_from(program, data, at, acc) == run_from(
            program,
            data,
            at + 1 + insn.jt,
            acc,
        ),
        insn.code == 0x15 && acc != insn.k ==> run_from(program, data, at, acc) == run_from(
            program,
            data,
            at + 1 + insn.jf,
            acc,
        ),
        insn.code == 0x06 ==> run_from(program, data, at, acc) == Some(insn.k),
        run(program, data) == run_from(program, data, 0, 0),
{
}

/// An instruction that loads the word at an offset.
pub open spec fn load(offset: u32) -> sock_filter {
    sock_filter { code: LOAD_WORD, jt: 0, jf: 0, k: offset }
}

/// An instruction that compares the accumulator with `k`.
pub open spec fn jump_if(k: u32, jt: u8, jf: u8) -> sock_filter {
    sock_filter { code: JUMP_IF_EQUAL, jt, jf, k }
}

/// An instruction that ends the program with `k`.
pub open spec fn ret(k: u32) -> sock_filter {
    sock_filter { code: RETURN, jt: 0, jf: 0, k }
}

/// The four instructions that every deny filter begins with: a process of
/// another architecture is killed, and the call number is loaded.
pub open spec fn prologue(audit: u32) -> Seq<sock_filter> {
    seq![load(OFFSET_ARCH), jump_if(audit, 1, 0), ret(SECCOMP_RET_KILL_PROCESS), load(OFFSET_NR)]
}

/// Comparisons that all jump to one return instruction at the end.
pub open spec fn shared_exit(nrs: Seq<u32>) -> Seq<sock_filter> {
    Seq::new(nrs.len(), |i: int| jump_if(nrs[i], (nrs.len() - i) as u8, 0)).push(
        ret(SECCOMP_RET_ALLOW),
    ).push(ret(SECCOMP_RET_USER_NOTIF))
}

/// Comparisons that each have a return instruction of their own behind them.
pub open spec fn own_exits(nrs: Seq<u32>) -> Seq<sock_filter> {
    Seq::new(
        2 * nrs.len(),
        |p: int|
            if p % 2 == 0 {
                jump_if(nrs[p / 2], 0, 1)
            } else {
                ret(SECCOMP_RET_USER_NOTIF)
            },
    ).push(ret(SECCOMP_RET_ALLOW))
}

/// The longest list for which a jump reaches from the first comparison to the
/// shared return instruction.
pub const LONGEST_SHARED: usize = 255;

/// The filter that denies `nrs` on the architecture `audit`.
pub open spec fn deny_program(audit: u32, nrs: Seq<u32>) -> Seq<sock_filter> {
    if nrs.len() <= LONGEST_SHARED {
        prologue(audit) + shared_exit(nrs)
    } else {
        prologue(audit) + own_exits(nrs)
    }
}

/// What a deny list says about a system call.
pub open spec fn deny_verdict(audit: u32, nrs: Seq<u32>, data: seccomp_data) -> u32 {
    if data.arch != audit {
        SECCOMP_RET_KILL_PROCESS
    } else if nrs.contains(data.nr as u32) {
        SECCOMP_RET_USER_NOTIF
    } else {
        SECCOMP_RET_ALLOW
    }
}

proof fn lemma_rest_contains(nrs: Seq<u32>, i: int, nr: u32)
    requires
        0 <= i < nrs.len(),
        nrs[i] != nr,
    ensures
        nrs.skip(i).contains(nr) == nrs.skip(i + 1).contains(nr),
{
    let here = nrs.skip(i);
    let rest = nrs.skip(i + 1);
    if here.contains(nr) {
        let k = choose|k: int| 0 <= k < here.len() && here[k] == nr;
        assert(rest[k - 1] == nr);
    }
    if rest.contains(nr) {
        let k = choose|k: int| 0 <= k < rest.len() && rest[k] == nr;
        assert(here[k + 1] == nr);
    }
}

proof fn lemma_shared_exit(audit: u32, nrs: Seq<u32>, data: seccomp_data, i: int)
    requires
        nrs.len() <= LONGEST_SHARED,
        0 <= i <= nrs.len(),
    ensures
        run_from(prologue(audit) + shared_exit(nrs), data, 4 + i, data.nr as u32) == Some(
            if nrs.skip(i).contains(data.nr as u32) {
                SECCOMP_RET_USER_NOTIF
            } else {
                SECCOMP_RET_ALLOW
            },
        ),
    decreases nrs.len() - i,
{
    let program = prologue(audit) + shared_exit(nrs);
    let nr = data.nr as u32;
    if i == nrs.len() {
        assert(program[4 + i] == ret(SECCOMP_RET_ALLOW));
        assert(!nrs.skip(i).contains(nr));
    } else {
        assert(program[4 + i] == jump_if(nrs[i], (nrs.len() - i) as u8, 0));
        lemma_shared_exit(audit, nrs, data, i + 1);
        assert(nrs.skip(i)[0] == nrs[i]);
        if nrs[i] == nr {
            assert(program[5 + nrs.len() as int] == ret(SECCOMP_RET_USER_NOTIF));
            assert(run_from(program, data, 5 + nrs.len() as int, nr) == Some(SECCOMP_RET_USER_NOTIF));
            assert(nrs.skip(i).contains(nr));
        } else {
            lemma_rest_contains(nrs, i, nr);
        }
    }
}

proof fn lemma_own_exits(audit: u32, nrs: Seq<u32>, data: seccomp_data, i: int)
    requires
        0 <= i <= nrs.len(),
    ensures
        run_from(prologue(audit) + own_exits(nrs), data, 4 + 2 * i, data.nr as u32) == Some(
            if nrs.skip(i).contains(data.nr as u32) {
                SECCOMP_RET_USER_NOTIF
            } else {
                SECCOMP_RET_ALLOW
            },
        ),
    decreases nrs.len() - i,
{
    let program = prologue(audit) + own_exits(nrs);
    let nr = data.nr as u32;
    if i == nrs.len() {
        assert(program[4 + 2 * i] == ret(SECCOMP_RET_ALLOW));
        assert(!nrs.skip(i).contains(nr));
    } else {
        assert(program[4 + 2 * i] == jump_if(nrs[i], 0, 1));
        assert(program[5 + 2 * i] == ret(SECCOMP_RET_USER_NOTIF));
        lemma_own_exits(audit, nrs, data, i + 1);
        assert(nrs.skip(i)[0] == nrs[i]);
        if nrs[i] == nr {
            assert(run_from(program, data, 5 + 2 * i, nr) == Some(SECCOMP_RET_USER_NOTIF));
            assert(nrs.skip(i).contains(nr));
        } else {
            lemma_rest_contains(nrs, i, nr);
        }
    }
}

/// A deny filter does what its list says, for every list and every system
/// call: another architecture is killed, a call on the list is handed to the
/// listener, and any other call goes through.
pub proof fn deny_program_decides(audit: u32, nrs: Seq<u32>, data: seccomp_data)
    ensures
        run(deny_program(audit, nrs), data) == Some(deny_verdict(audit, nrs, data)),
{
    let program = deny_program(audit, nrs);
    assert(program[0] == load(OFFSET_ARCH));
    assert(program[1] == jump_if(audit, 1, 0));
    assert(program[2] == ret(SECCOMP_RET_KILL_PROCESS));
    assert(program[3] == load(OFFSET_NR));
    assert(run(program, data) == run_from(program, data, 1, data.arch));
    if data.arch != audit {
        assert(run_from(program, data, 2, data.arch) == Some(SECCOMP_RET_KILL_PROCESS));
    } else {
        assert(run_from(program, data, 1, data.arch) == run_from(program, data, 3, data.arch));
        assert(run_from(program, data, 3, data.arch) == run_from(program, data, 4, data.nr as u32));
        assert(nrs.skip(0) =~= nrs);
        if nrs.len() <= LONGEST_SHARED {
            lemma_shared_exit(audit, nrs, data, 0);
        } else {
            lemma_own_exits(audit, nrs, data, 0);
        }
    }
}

/// What a deny list decides: a call of another architecture kills the process, a
/// call on the list is handed to the listener, and any other call goes through.
pub proof fn deny_lists_decide(arch: Arch, nrs: Seq<u32>, data: seccomp_data)
    ensures
        data.arch != arch.audit_spec() ==> run(deny_program(arch.audit_spec(), nrs), data) == Some(
            SECCOMP_RET_KILL_PROCESS,
        ),
        data.arch == arch.audit_spec() && nrs.contains(data.nr as u32) ==> run(
            deny_program(arch.audit_spec(), nrs),
            data,
        ) == Some(SECCOMP_RET_USER_NOTIF),
        data.arch == arch.audit_spec() && !nrs.contains(data.nr as u32) ==> run(
            deny_program(arch.audit_spec(), nrs),
            data,
        ) == Some(SECCOMP_RET_ALLOW),
{
    deny_program_decides(arch.audit_spec(), nrs, data);
}

/// The numbers by which the kernel knows the results of filters, the words that
/// filters load and the architectures.
pub proof fn numbers_of_the_kernel()
    ensures
        SECCOMP_RET_KILL_PROCESS == 0x8000_0000,
        SECCOMP_RET_USER_NOTIF == 0x7fc0_0000,
        SECCOMP_RET_ALLOW == 0x7fff_0000,
        OFFSET_NR == 0,
        OFFSET_ARCH == 4,
        Arch::X86_64.audit_spec() == 0xc000_003e,
        Arch::Aarch64.audit_spec() == 0xc000_00b7,
{
}

fn insn(code: u16, jt: u8, jf: u8, k: u32) -> (r: sock_filter)
    ensures
        r == (sock_filter { code, jt, jf, k }),
{
    sock_filter { code, jt, jf, k }
}

/// Builds the filter that denies the system calls `nrs`.
pub fn build_deny_filter(arch: Arch, nrs: &Vec<u32>) -> (r: Vec<sock_filter>)
    ensures
        r@ == deny_program(arch.audit_spec(), nrs@),
        forall|data: seccomp_data| #[trigger]
            run(r@, data) == Some(deny_verdict(arch.audit_spec(), nrs@, data)),
{
    let audit: u32 = arch.audit();
    let mut filter: Vec<sock_filter> = Vec::new();
    filter.push(insn(LOAD_WORD, 0, 0, OFFSET_ARCH));
    filter.push(insn(JUMP_IF_EQUAL, 1, 0, audit));
    filter.push(insn(RETURN, 0, 0, SECCOMP_RET_KILL_PROCESS));
    filter.push(insn(LOAD_WORD, 0, 0, OFFSET_NR));
    assert(filter@ =~= prologue(audit));
    let count: usize = nrs.len();
    let mut i: usize = 0;
    if count <= LONGEST_SHARED {
        let ghost whole = deny_program(audit, nrs@);
        while i < count
            invariant
                i <= count == nrs@.len() <= LONGEST_SHARED,
                whole == prologue(audit) + shared_exit(nrs@),
                filter@ == whole.take(4 + i),
            decreases count - i,
        {
            filter.push(insn(JUMP_IF_EQUAL, (count - i) as u8, 0, nrs[i]));
            i += 1;
            assert(filter@ =~= whole.take(4 + i));
        }
        filter.push(insn(RETURN, 0, 0, SECCOMP_RET_ALLOW));
        filter.push(insn(RETURN, 0, 0, SECCOMP_RET_USER_NOTIF));
    } else {
        let ghost whole = deny_program(audit, nrs@);
        while i < count
            invariant
                i <= count == nrs@.len(),
                whole == prologue(audit) + own_exits(nrs@),
                filter@ == whole.take(4 + 2 * i),
            decreases count - i,
        {
            filter.push(insn(JUMP_IF_EQUAL, 0, 1, nrs[i]));
            filter.push(insn(RETURN, 0, 0, SECCOMP_RET_USER_NOTIF));
            assert(whole[4 + 2 * i] == jump_if(nrs@[i as int], 0, 1));
            assert(whole[5 + 2 * i] == ret(SECCOMP_RET_USER_NOTIF));
            i += 1;
            assert(filter@ =~= whole.take(4 + 2 * i));
        }
        filter.push(insn(RETURN, 0, 0, SECCOMP_RET_ALLOW));
    }
    assert(filter@ =~= deny_program(audit, nrs@));
    proof {
        assert forall|data: seccomp_data| #[trigger]
            run(filter@, data) == Some(deny_verdict(audit, nrs@, data)) by {
            deny_program_decides(audit, nrs@, data);
        }
    }
    filter
}

/// The numbers that the built-in filter denies on the given architecture.
pub open spec fn blacklist_nrs(arch: Arch) -> Seq<u32> {
    Seq::new(BLACKLIST_LEN as nat, |i: int| syscall_table()[BLACKLIST[i] as int].nr_spec(arch))
}

/// The audit number of the architecture and the numbers that the built-in
/// filter denies on it.
pub fn target_arch_config(arch: Arch) -> (r: (u32, Vec<u32>))
    ensures
        r.0 == arch.audit_spec(),
        r.1@ == blacklist_nrs(arch),
{
    let table = syscalls();
    let mut nrs: Vec<u32> = Vec::new();
    let mut i: usize = 0;
    while i < BLACKLIST_LEN
        invariant
            i <= BLACKLIST_LEN,
            table@ == syscall_table(),
            nrs@ == blacklist_nrs(arch).take(i as int),
        decreases BLACKLIST_LEN - i,
    {
        let at: usize = BLACKLIST[i];
        assert(at == BLACKLIST[i as int]);
        assert(at < 13);
        nrs.push(table[at].nr(arch));
        i += 1;
        assert(nrs@ =~= blacklist_nrs(arch).take(i as int));
    }
    assert(nrs@ =~= blacklist_nrs(arch));
    (arch.audit(), nrs)
}

/// Builds the filter that denies the built-in list.
pub fn build_blacklist_filter(arch: Arch) -> (r: Vec<sock_filter>)
    ensures
        r@ == deny_program(arch.audit_spec(), blacklist_nrs(arch)),
        r@.len() == BLACKLIST_LEN + 6,
        forall|data: seccomp_data| #[trigger]
            run(r@, data) == Some(deny_verdict(arch.audit_spec(), blacklist_nrs(arch), data)),
{
    let (_audit, nrs) = target_arch_config(arch);
    build_deny_filter(arch, &nrs)
}

/// No two entries of the built-in list share a number on an architecture.
pub proof fn syscall_numbers_are_unique(arch: Arch, i: int, j: int)
    requires
        0 <= i < j < syscall_table().len(),
    ensures
        syscall_table()[i].nr_spec(arch) != syscall_table()[j].nr_spec(arch),
{
}

/// The built-in filter denies every entry of the built-in list, and nothing else.
pub proof fn whole_list_is_denied(arch: Arch, nr: u32)
    ensures
        blacklist_nrs(arch).contains(nr) <==> exists|i: int|
            0 <= i < syscall_table().len() && (#[trigger] syscall_table()[i]).nr_spec(arch) == nr,
{
    let nrs = blacklist_nrs(arch);
    assert forall|i: int| 0 <= i < 13 implies #[trigger] nrs[i] == syscall_table()[i].nr_spec(
        arch,
    ) by {
        assert(BLACKLIST[i] == i);
    }
    if nrs.contains(nr) {
        let i = choose|i: int| 0 <= i < nrs.len() && nrs[i] == nr;
        assert(syscall_table()[i].nr_spec(arch) == nr);
    }
    if exists|i: int|
        0 <= i < syscall_table().len() && (#[trigger] syscall_table()[i]).nr_spec(arch) == nr {
        let i = choose|i: int|
            0 <= i < syscall_table().len() && (#[trigger] syscall_table()[i]).nr_spec(arch) == nr;
        assert(nrs[i] == nr);
    }
}

/// The system calls of the built-in list, with their categories and their
/// numbers on the two architectures.
pub proof fn listed_calls()
    ensures
        syscall_table().len() == 13,
        lists("mount", SyscallCategory::MountFilesystem, 165, 40),
        lists("umount2", SyscallCategory::MountFilesystem, 166, 39),
        lists("pivot_root", SyscallCategory::MountFilesystem, 155, 41),
        lists("chroot", SyscallCategory::MountFilesystem, 161, 51),
        lists("ptrace", SyscallCategory::DebugTrace, 101, 117),
        lists("kexec_load", SyscallCategory::Boot, 246, 104),
        lists("kexec_file_load", SyscallCategory::Boot, 320, 294),
        lists("reboot", SyscallCategory::Boot, 169, 142),
        lists("init_module", SyscallCategory::KernelModule, 175, 105),
        lists("finit_module", SyscallCategory::KernelModule, 313, 106),
        lists("delete_module", SyscallCategory::KernelModule, 176, 107),
        lists("unshare", SyscallCategory::Namespace, 97, 97),
        lists("bpf", SyscallCategory::BpfLoader, 357, 280),
{
    let table = syscall_table();
    assert forall|i: int| 0 <= i < 13 implies table.contains(#[trigger] table[i]) by {}
    assert(table[0].name == "mount" && table[1].name == "umount2" && table[2].name == "pivot_root"
        && table[3].name == "chroot" && table[4].name == "ptrace" && table[5].name == "kexec_load"
        && table[6].name == "kexec_file_load" && table[7].name == "reboot" && table[8].name
        == "init_module" && table[9].name == "finit_module" && table[10].name == "delete_module"
        && table[11].name == "unshare" && table[12].name == "bpf");
}

/// Whether the built-in list holds a system call of this name, with this
/// category and these numbers on x86_64 and aarch64.
pub open spec fn lists(name: &'static str, category: SyscallCategory, first: u32, second: u32) -> bool {
    exists|found: Syscall| #[trigger]
        syscall_table().contains(found) && found.name == name && found.category == category
            && found.nr_spec(Arch::X86_64) == first && found.nr_spec(Arch::Aarch64) == second
}

/// The words for the categories.
pub proof fn category_words()
    ensures
        SyscallCategory::MountFilesystem.tag_spec() == "mount",
        SyscallCategory::DebugTrace.tag_spec() == "debug",
        SyscallCategory::Boot.tag_spec() == "boot",
        SyscallCategory::KernelModule.tag_spec() == "module",
        SyscallCategory::Namespace.tag_spec() == "namespace",
        SyscallCategory::BpfLoader.tag_spec() == "bpf",
{
}

/// The entry of the built-in list with the given number.
pub open spec fn entry_with_nr(arch: Arch, nr: u32, found: Syscall) -> bool {
    syscall_table().contains(found) && found.nr_spec(arch) == nr
}

/// Finds the entry of the built-in list with the given number.
pub fn syscall_by_nr(arch: Arch, nr: u32) -> (r: Option<Syscall>)
    ensures
        match r {
            Some(found) => entry_with_nr(arch, nr, found),
            None => forall|other: Syscall| !entry_with_nr(arch, nr, other),
        },
{
    let table = syscalls();
    let mut i: usize = 0;
    while i < table.len()
        invariant
            i <= table@.len(),
            table@ == syscall_table(),
            forall|j: int| 0 <= j < i ==> table@[j].nr_spec(arch) != nr,
        decreases table.len() - i,
    {
        if table[i].nr(arch) == nr {
            assert(syscall_table().contains(table@[i as int]));
            return Some(table[i]);
        }
        i += 1;
    }
    None
}

/// The name of the system call with the given number, where it is on the
/// built-in list.
pub fn syscall_name(arch: Arch, nr: u32) -> (r: Option<&'static str>)
    ensures
        match r {
            Some(name) => exists|found: Syscall|
                entry_with_nr(arch, nr, found) && name == found.name,
            None => forall|other: Syscall| !entry_with_nr(arch, nr, other),
        },
{
    match syscall_by_nr(arch, nr) {
        Some(found) => Some(found.name),
        None => None,
    }
}

/// The entry of the built-in list with the given name.
pub open spec fn entry_with_name(name: Seq<char>, found: Syscall) -> bool {
    syscall_table().contains(found) && found.name@ == name
}

/// Finds the entry of the built-in list with the given name.
pub fn syscall_by_name(name: &str) -> (r: Option<Syscall>)
    ensures
        match r {
            Some(found) => entry_with_name(name@, found),
            None => forall|other: Syscall| !entry_with_name(name@, other),
        },
{
    let table = syscalls();
    let mut i: usize = 0;
    while i < table.len()
        invariant
            i <= table@.len(),
            table@ == syscall_table(),
            forall|j: int| 0 <= j < i ==> table@[j].name@ != name@,
        decreases table.len() - i,
    {
        if text::same(table[i].name, name) {
            assert(syscall_table().contains(table@[i as int]));
            return Some(table[i]);
        }
        i += 1;
    }
    None
}

/// A number picks at most one entry of the built-in list.
pub proof fn entry_with_nr_is_unique(arch: Arch, nr: u32, a: Syscall, b: Syscall)
    requires
        entry_with_nr(arch, nr, a),
        entry_with_nr(arch, nr, b),
    ensures
        a == b,
{
    let i = choose|i: int| 0 <= i < syscall_table().len() && syscall_table()[i] == a;
    let j = choose|j: int| 0 <= j < syscall_table().len() && syscall_table()[j] == b;
    if i < j {
        syscall_numbers_are_unique(arch, i, j);
    } else if j < i {
        syscall_numbers_are_unique(arch, j, i);
    }
}

/// A name picks at most one entry of the built-in list.
pub proof fn entry_with_name_is_unique(name: Seq<char>, a: Syscall, b: Syscall)
    requires
        entry_with_name(name, a),
        entry_with_name(name, b),
    ensures
        a == b,
{
    reveal_strlit("mount");
    reveal_strlit("umount2");
    reveal_strlit("pivot_root");
    reveal_strlit("chroot");
    reveal_strlit("ptrace");
    reveal_strlit("kexec_load");
    reveal_strlit("kexec_file_load");
    reveal_strlit("reboot");
    reveal_strlit("init_module");
    reveal_strlit("finit_module");
    reveal_strlit("delete_module");
    reveal_strlit("unshare");
    reveal_strlit("bpf");
    let i = choose|i: int| 0 <= i < syscall_table().len() && syscall_table()[i] == a;
    let j = choose|j: int| 0 <= j < syscall_table().len() && syscall_table()[j] == b;
    assert(syscall_table()[i].name@.len() == syscall_table()[j].name@.len());
    assert(syscall_table()[i].name@[0] == syscall_table()[j].name@[0]);
    assert(syscall_table()[i].name@[1] == syscall_table()[j].name@[1]);
    assert(i == j);
}

impl sock_fprog {
    /// A filter as it is announced to the kernel, which counts instructions
    /// in sixteen bits.
    pub fn new(filter: Vec<sock_filter>) -> (r: sock_fprog)
        ensures
            r.filter == filter,
            r.len as int == filter@.len() % 0x1_0000,
    {
        let count: usize = filter.len() % 0x1_0000;
        sock_fprog { len: count as u16, filter }
    }
}

/// `prctl(2)` option: give up new privileges.
pub const PR_SET_NO_NEW_PRIVS: i32 = 38;

/// `seccomp(2)` operation: install a filter.
pub const SECCOMP_SET_MODE_FILTER: u32 = 1;

/// `seccomp(2)` flag: return a listener.
pub const SECCOMP_FILTER_FLAG_NEW_LISTENER: u64 = 8;

/// The numbers of the calls that install a filter and serve its listener.
pub proof fn calls_of_the_kernel()
    ensures
        PR_SET_NO_NEW_PRIVS == 38,
        SECCOMP_SET_MODE_FILTER == 1,
        SECCOMP_FILTER_FLAG_NEW_LISTENER == 8,
        SECCOMP_IOCTL_NOTIF_RECV == 0xC050_2100,
        SECCOMP_IOCTL_NOTIF_SEND == 0xC018_2101,
        INSN_SIZE == 8,
{
}

/// Why a filter was not installed.
#[derive(Debug, Clone, Copy, PartialEq, Eq, Structural)]
pub enum InstallError {
    /// New privileges could not be given up.
    NoNewPrivs,
    /// The kernel refused the filter.
    Seccomp,
}

impl InstallError {
    /// The words for the error.
    pub open spec fn text_spec(self) -> &'static str {
        match self {
            InstallError::NoNewPrivs => "prctl(PR_SET_NO_NEW_PRIVS) failed",
            InstallError::Seccomp => "seccomp(SECCOMP_SET_MODE_FILTER, NEW_LISTENER) failed",
        }
    }

    /// The words for the error.
    pub fn text(&self) -> (r: &'static str)
        ensures
            r == self.text_spec(),
    {
        match self {
            InstallError::NoNewPrivs => "prctl(PR_SET_NO_NEW_PRIVS) failed",
            InstallError::Seccomp => "seccomp(SECCOMP_SET_MODE_FILTER, NEW_LISTENER) failed",
        }
    }
}

/// The listener of a filter: `privileges` is the result of giving up new
/// privileges and `installed` that of installing the filter, asked for where
/// the first succeeds.
pub fn install_user_notif_filter(privileges: i32, installed: i64) -> (r: Result<i32, InstallError>)
    requires
        installed <= i32::MAX,
    ensures
        r == if privileges != 0 {
            Err(InstallError::NoNewPrivs)
        } else if installed < 0 {
            Err(InstallError::Seccomp)
        } else {
            Ok(installed as i32)
        },
{
    if privileges != 0 {
        return Err(InstallError::NoNewPrivs);
    }
    if installed < 0 {
        return Err(InstallError::Seccomp);
    }
    Ok(installed as i32)
}

/// The number whose little-endian bytes are `b[at]`, `b[at + 1]`.
pub open spec fn le16(b: Seq<u8>, at: int) -> int {
    b[at] + 0x100 * b[at + 1]
}

/// The number whose little-endian bytes are `b[at..at + 4]`.
pub open spec fn le32(b: Seq<u8>, at: int) -> int {
    b[at] + 0x100 * b[at + 1] + 0x1_0000 * b[at + 2] + 0x100_0000 * b[at + 3]
}

/// The instruction whose eight bytes start at `at`, in the byte order of the
/// supported machines.
pub open spec fn decoded(b: Seq<u8>, at: int) -> sock_filter {
    sock_filter { code: le16(b, at) as u16, jt: b[at + 2], jf: b[at + 3], k: le32(b, at + 4) as u32 }
}

/// An instruction is read from its eight bytes: two for the operation code and
/// four for the operand, the low ones first, and one for each jump between them.
pub proof fn instructions_read_back(b: Seq<u8>, insn: sock_filter)
    requires
        b.len() == 8,
        b[0] + 256 * b[1] == insn.code,
        b[2] == insn.jt,
        b[3] == insn.jf,
        b[4] + 256 * b[5] + 65536 * b[6] + 16777216 * b[7] == insn.k,
    ensures
        decoded(b, 0) == insn,
{
}

/// Number of bytes of one instruction.
pub const INSN_SIZE: usize = 8;

/// Reads the instructions of a filter from its bytes.
pub fn decode_filter(bytes: &Vec<u8>) -> (r: Vec<sock_filter>)
    requires
        bytes@.len() % (INSN_SIZE as nat) == 0,
    ensures
        r@ == Seq::new(bytes@.len() / (INSN_SIZE as nat), |i: int| decoded(bytes@, INSN_SIZE * i)),
{
    let count: usize = bytes.len() / INSN_SIZE;
    let ghost whole = Seq::new(
        bytes@.len() / (INSN_SIZE as nat),
        |i: int| decoded(bytes@, INSN_SIZE * i),
    );
    let mut out: Vec<sock_filter> = Vec::new();
    let mut i: usize = 0;
    while i < count
        invariant
            i <= count,
            count == bytes@.len() / (INSN_SIZE as nat),
            whole == Seq::new(
                bytes@.len() / (INSN_SIZE as nat),
                |i: int| decoded(bytes@, INSN_SIZE * i),
            ),
            bytes@.len() <= usize::MAX,
            out@ == whole.take(i as int),
        decreases count - i,
    {
        let at: usize = INSN_SIZE * i;
        let code: u16 = bytes[at] as u16 + 0x100 * bytes[at + 1] as u16;
        let k: u32 = bytes[at + 4] as u32 + 0x100 * bytes[at + 5] as u32 + 0x1_0000 * bytes[at
            + 6] as u32 + 0x100_0000 * bytes[at + 7] as u32;
        out.push(insn(code, bytes[at + 2], bytes[at + 3], k));
        i += 1;
        assert(out@ =~= whole.take(i as int));
    }
    assert(whole.take(count as int) =~= whole);
    out
}

/// What happened to the listener of a sandboxed process.
#[derive(Debug, Clone, Copy)]
pub enum NotifEvent {
    /// The child handed its listener over, or ended without doing so.
    Listener { arrived: bool },
    /// `poll` returned `result`, with `revents` for the listener.
    Polled { result: i32, revents: i16 },
    /// Reading a report returned `result`.
    Received { result: i32, notif: seccomp_notif },
    /// Answering a report returned `result`.
    Answered { result: i32 },
}

/// What to do with the listener next.
#[derive(Debug, Clone, Copy, PartialEq, Eq, Structural)]
pub enum NotifAction {
    /// Wait until the listener has something to say.
    Poll,
    /// Read one report.
    Receive,
    /// Answer the report that was read.
    Answer(seccomp_notif_resp),
    /// Give the listener up.
    Stop,
}

/// The answer that refuses a reported call.
pub open spec fn refusal(id: u64) -> seccomp_notif_resp {
    seccomp_notif_resp { id, val: 0, error: EPERM, flags: 0 }
}

/// What follows an event.
pub open spec fn notif_action(event: NotifEvent) -> NotifAction {
    match event {
        NotifEvent::Listener { arrived } => if arrived {
            NotifAction::Poll
        } else {
            NotifAction::Stop
        },
        NotifEvent::Polled { result, revents } => if result < 0 {
            NotifAction::Stop
        } else if revents == 0 {
            NotifAction::Poll
        } else {
            NotifAction::Receive
        },
        NotifEvent::Received { result, notif } => if result != 0 {
            NotifAction::Stop
        } else {
            NotifAction::Answer(refusal(notif.id))
        },
        NotifEvent::Answered { result } => if result != 0 {
            NotifAction::Stop
        } else {
            NotifAction::Poll
        },
    }
}

/// The call that an event reports, as number and architecture.
pub open spec fn reported(event: NotifEvent) -> Option<(u32, u32)> {
    match event {
        NotifEvent::Received { result, notif } => if result == 0 {
            Some((notif.data.nr as u32, notif.data.arch))
        } else {
            None
        },
        _ => None,
    }
}

/// The last call that a run of events reports.
pub open spec fn last_reported(events: Seq<NotifEvent>) -> Option<(u32, u32)>
    decreases events.len(),
{
    if events.len() == 0 {
        None
    } else {
        match reported(events.last()) {
            Some(call) => Some(call),
            None => last_reported(events.drop_last()),
        }
    }
}

/// A report that is read tells the number and the architecture of the call;
/// nothing else is a report.
pub proof fn reports_tell_the_call(event: NotifEvent)
    ensures
        event matches NotifEvent::Received { result, notif } ==> (result == 0 ==> reported(event)
            == Some((notif.data.nr as u32, notif.data.arch))),
        !(event is Received) ==> reported(event) is None,
        event matches NotifEvent::Received { result, .. } && result != 0 ==> reported(
            event,
        ) is None,
{
}

/// What is remembered is the last report: nothing that follows without a report
/// changes it.
pub proof fn last_report_is_remembered(events: Seq<NotifEvent>, i: int)
    requires
        0 <= i < events.len(),
        reported(events[i]) is Some,
        forall|j: int| i < j < events.len() ==> reported(#[trigger] events[j]) is None,
    ensures
        last_reported(events) == reported(events[i]),
    decreases events.len(),
{
    if i < events.len() - 1 {
        let rest = events.drop_last();
        assert forall|j: int| i < j < rest.len() implies reported(#[trigger] rest[j]) is None by {
            assert(rest[j] == events[j]);
        }
        assert(reported(events[events.len() - 1]) is None);
        last_report_is_remembered(rest, i);
    }
}

/// A listener without reports remembers none.
pub proof fn silence_is_remembered(events: Seq<NotifEvent>)
    requires
        forall|j: int| 0 <= j < events.len() ==> reported(#[trigger] events[j]) is None,
    ensures
        last_reported(events) is None,
    decreases events.len(),
{
    if events.len() > 0 {
        let rest = events.drop_last();
        assert forall|j: int| 0 <= j < rest.len() implies reported(#[trigger] rest[j]) is None by {
            assert(rest[j] == events[j]);
        }
        assert(reported(events[events.len() - 1]) is None);
        silence_is_remembered(rest);
    }
}

/// A listener waits, reads what there is, answers what it read and waits again.
/// It is given up only where it never arrived, or where waiting, reading or
/// answering failed. An answer goes to the report that was read, makes the call
/// fail with the error 1, no permission, and does not let it be carried out.
pub proof fn listener_goes_on(event: NotifEvent)
    ensures
        notif_action(event) is Stop <==> match event {
            NotifEvent::Listener { arrived } => !arrived,
            NotifEvent::Polled { result, .. } => result < 0,
            NotifEvent::Received { result, .. } => result != 0,
            NotifEvent::Answered { result } => result != 0,
        },
        notif_action(event) is Receive <==> (event matches NotifEvent::Polled { result, revents }
            && result >= 0 && revents != 0),
        notif_action(event) matches NotifAction::Answer(answer) ==> (event matches NotifEvent::Received {
            notif,
            ..
        } && answer.id == notif.id && answer.error == 1 && answer.val == 0 && answer.flags == 0),
{
}

/// The memory of a listener: the last call that it reported.
#[derive(Debug, Clone, Copy)]
pub struct UserNotifWorker {
    /// Number and architecture of the last reported call.
    pub blocked: Option<(u32, u32)>,
}

impl UserNotifWorker {
    /// A listener that has reported nothing.
    pub fn new() -> (r: UserNotifWorker)
        ensures
            r.blocked == last_reported(Seq::empty()),
    {
        UserNotifWorker { blocked: None }
    }

    /// Takes note of an event and says what to do next.
    pub fn step(&mut self, event: NotifEvent) -> (action: NotifAction)
        ensures
            action == notif_action(event),
            final(self).blocked == match reported(event) {
                Some(call) => Some(call),
                None => old(self).blocked,
            },
    {
        match event {
            NotifEvent::Listener { arrived } => if arrived {
                NotifAction::Poll
            } else {
                NotifAction::Stop
            },
            NotifEvent::Polled { result, revents } => if result < 0 {
                NotifAction::Stop
            } else if revents == 0 {
                NotifAction::Poll
            } else {
                NotifAction::Receive
            },
            NotifEvent::Received { result, notif } => if result != 0 {
                NotifAction::Stop
            } else {
                self.blocked = Some((notif.data.nr as u32, notif.data.arch));
                NotifAction::Answer(
                    seccomp_notif_resp { id: notif.id, val: 0, error: EPERM, flags: 0 },
                )
            },
            NotifEvent::Answered { result } => if result != 0 {
                NotifAction::Stop
            } else {
                NotifAction::Poll
            },
        }
    }
}

/// A listener that remembers the last call of a run of events remembers the
/// last call of the longer run after its next step.
pub proof fn worker_remembers_last(
    events: Seq<NotifEvent>,
    event: NotifEvent,
    before: UserNotifWorker,
    after: UserNotifWorker,
)
    requires
        before.blocked == last_reported(events),
        after.blocked == match reported(event) {
            Some(call) => Some(call),
            None => before.blocked,
        },
    ensures
        after.blocked == last_reported(events.push(event)),
{
    assert(events.push(event).drop_last() =~= events);
}

/// Once a run of events holds a report, something is remembered whatever
/// follows.
pub proof fn reports_are_not_forgotten(events: Seq<NotifEvent>, i: int)
    requires
        0 <= i < events.len(),
        reported(events[i]) is Some,
    ensures
        last_reported(events) is Some,
    decreases events.len(),
{
    if reported(events.last()) is None {
        reports_are_not_forgotten(events.drop_last(), i);
    }
}

/// Every report that is read is refused, and nothing else is ever answered.
pub proof fn reports_are_refused(event: NotifEvent)
    ensures
        notif_action(event) is Answer <==> (reported(event) is Some),
        notif_action(event) matches NotifAction::Answer(resp) ==> (event matches NotifEvent::Received {
            notif,
            ..
        } && resp == refusal(notif.id)),
{
}

} // verus!
