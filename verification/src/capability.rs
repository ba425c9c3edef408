//! Linux capabilities by name and number, and the operations on them.

use crate::text;
use vstd::prelude::*;

verus! {

/// A capability of the kernel.
#[allow(non_camel_case_types)]
#[derive(Debug, Clone, Copy, PartialEq, Eq, Structural, Hash)]
pub enum Capability {
    CHOWN,
    DAC_OVERRIDE,
    DAC_READ_SEARCH,
    FOWNER,
    FSETID,
    KILL,
    SETGID,
    SETUID,
    SETPCAP,
    LINUX_IMMUTABLE,
    NET_BIND_SERVICE,
    NET_BROADCAST,
    NET_ADMIN,
    NET_RAW,
    IPC_LOCK,
    IPC_OWNER,
    SYS_MODULE,
    SYS_RAWIO,
    SYS_CHROOT,
    SYS_PTRACE,
    SYS_PACCT,
    SYS_ADMIN,
    SYS_BOOT,
    SYS_NICE,
    SYS_RESOURCE,
    SYS_TIME,
    SYS_TTY_CONFIG,
    MKNOD,
    LEASE,
    AUDIT_WRITE,
    AUDIT_CONTROL,
    SETFCAP,
    MAC_OVERRIDE,
    MAC_ADMIN,
    SYSLOG,
    WAKE_ALARM,
    BLOCK_SUSPEND,
    AUDIT_READ,
    PERFMON,
    BPF,
    CHECKPOINT_RESTORE,
}

/// The highest capability number.
pub const CAP_LAST_CAP: u32 = 40;

impl Capability {
    /// The number of the capability.
    pub open spec fn number(self) -> u16 {
        match self {
            Capability::CHOWN => 0,
            Capability::DAC_OVERRIDE => 1,
            Capability::DAC_READ_SEARCH => 2,
            Capability::FOWNER => 3,
            Capability::FSETID => 4,
            Capability::KILL => 5,
            Capability::SETGID => 6,
            Capability::SETUID => 7,
            Capability::SETPCAP => 8,
            Capability::LINUX_IMMUTABLE => 9,
            Capability::NET_BIND_SERVICE => 10,
            Capability::NET_BROADCAST => 11,
            Capability::NET_ADMIN => 12,
            Capability::NET_RAW => 13,
            Capability::IPC_LOCK => 14,
            Capability::IPC_OWNER => 15,
            Capability::SYS_MODULE => 16,
            Capability::SYS_RAWIO => 17,
            Capability::SYS_CHROOT => 18,
            Capability::SYS_PTRACE => 19,
            Capability::SYS_PACCT => 20,
            Capability::SYS_ADMIN => 21,
            Capability::SYS_BOOT => 22,
            Capability::SYS_NICE => 23,
            Capability::SYS_RESOURCE => 24,
            Capability::SYS_TIME => 25,
            Capability::SYS_TTY_CONFIG => 26,
            Capability::MKNOD => 27,
            Capability::LEASE => 28,
            Capability::AUDIT_WRITE => 29,
            Capability::AUDIT_CONTROL => 30,
            Capability::SETFCAP => 31,
            Capability::MAC_OVERRIDE => 32,
            Capability::MAC_ADMIN => 33,
            Capability::SYSLOG => 34,
            Capability::WAKE_ALARM => 35,
            Capability::BLOCK_SUSPEND => 36,
            Capability::AUDIT_READ => 37,
            Capability::PERFMON => 38,
            Capability::BPF => 39,
            Capability::CHECKPOINT_RESTORE => 40,
        }
    }

    /// The name of the capability, without a prefix.
    pub open spec fn name_spec(self) -> Seq<char> {
        match self {
            Capability::CHOWN => "CHOWN"@,
            Capability::DAC_OVERRIDE => "DAC_OVERRIDE"@,
            Capability::DAC_READ_SEARCH => "DAC_READ_SEARCH"@,
            Capability::FOWNER => "FOWNER"@,
            Capability::FSETID => "FSETID"@,
            Capability::KILL => "KILL"@,
            Capability::SETGID => "SETGID"@,
            Capability::SETUID => "SETUID"@,
            Capability::SETPCAP => "SETPCAP"@,
            Capability::LINUX_IMMUTABLE => "LINUX_IMMUTABLE"@,
            Capability::NET_BIND_SERVICE => "NET_BIND_SERVICE"@,
            Capability::NET_BROADCAST => "NET_BROADCAST"@,
            Capability::NET_ADMIN => "NET_ADMIN"@,
            Capability::NET_RAW => "NET_RAW"@,
            Capability::IPC_LOCK => "IPC_LOCK"@,
            Capability::IPC_OWNER => "IPC_OWNER"@,
            Capability::SYS_MODULE => "SYS_MODULE"@,
            Capability::SYS_RAWIO => "SYS_RAWIO"@,
            Capability::SYS_CHROOT => "SYS_CHROOT"@,
            Capability::SYS_PTRACE => "SYS_PTRACE"@,
            Capability::SYS_PACCT => "SYS_PACCT"@,
            Capability::SYS_ADMIN => "SYS_ADMIN"@,
            Capability::SYS_BOOT => "SYS_BOOT"@,
            Capability::SYS_NICE => "SYS_NICE"@,
            Capability::SYS_RESOURCE => "SYS_RESOURCE"@,
            Capability::SYS_TIME => "SYS_TIME"@,
            Capability::SYS_TTY_CONFIG => "SYS_TTY_CONFIG"@,
            Capability::MKNOD => "MKNOD"@,
            Capability::LEASE => "LEASE"@,
            Capability::AUDIT_WRITE => "AUDIT_WRITE"@,
            Capability::AUDIT_CONTROL => "AUDIT_CONTROL"@,
            Capability::SETFCAP => "SETFCAP"@,
            Capability::MAC_OVERRIDE => "MAC_OVERRIDE"@,
            Capability::MAC_ADMIN => "MAC_ADMIN"@,
            Capability::SYSLOG => "SYSLOG"@,
            Capability::WAKE_ALARM => "WAKE_ALARM"@,
            Capability::BLOCK_SUSPEND => "BLOCK_SUSPEND"@,
            Capability::AUDIT_READ => "AUDIT_READ"@,
            Capability::PERFMON => "PERFMON"@,
            Capability::BPF => "BPF"@,
            Capability::CHECKPOINT_RESTORE => "CHECKPOINT_RESTORE"@,
        }
    }

    /// The number of the capability.
    pub fn as_u16(self) -> (r: u16)
        ensures
            r == self.number(),
            r <= CAP_LAST_CAP,
    {
        match self {
            Capability::CHOWN => 0,
            Capability::DAC_OVERRIDE => 1,
            Capability::DAC_READ_SEARCH => 2,
            Capability::FOWNER => 3,
            Capability::FSETID => 4,
            Capability::KILL => 5,
            Capability::SETGID => 6,
            Capability::SETUID => 7,
            Capability::SETPCAP => 8,
            Capability::LINUX_IMMUTABLE => 9,
            Capability::NET_BIND_SERVICE => 10,
            Capability::NET_BROADCAST => 11,
            Capability::NET_ADMIN => 12,
            Capability::NET_RAW => 13,
            Capability::IPC_LOCK => 14,
            Capability::IPC_OWNER => 15,
            Capability::SYS_MODULE => 16,
            Capability::SYS_RAWIO => 17,
            Capability::SYS_CHROOT => 18,
            Capability::SYS_PTRACE => 19,
            Capability::SYS_PACCT => 20,
            Capability::SYS_ADMIN => 21,
            Capability::SYS_BOOT => 22,
            Capability::SYS_NICE => 23,
            Capability::SYS_RESOURCE => 24,
            Capability::SYS_TIME => 25,
            Capability::SYS_TTY_CONFIG => 26,
            Capability::MKNOD => 27,
            Capability::LEASE => 28,
            Capability::AUDIT_WRITE => 29,
            Capability::AUDIT_CONTROL => 30,
            Capability::SETFCAP => 31,
            Capability::MAC_OVERRIDE => 32,
            Capability::MAC_ADMIN => 33,
            Capability::SYSLOG => 34,
            Capability::WAKE_ALARM => 35,
            Capability::BLOCK_SUSPEND => 36,
            Capability::AUDIT_READ => 37,
            Capability::PERFMON => 38,
            Capability::BPF => 39,
            Capability::CHECKPOINT_RESTORE => 40,
        }
    }
}

/// Length and some characters of a capability's name, enough to tell all
/// names apart.
proof fn lemma_name_shape(cap: Capability)
    ensures
        ({
            let name = cap.name_spec();
            (
                name.len(),
                if name.len() > 0 {
                    name[0]
                } else {
                    ' '
                },
                if name.len() > 3 {
                    name[3]
                } else {
                    ' '
                },
                if name.len() > 4 {
                    name[4]
                } else {
                    ' '
                },
            )
        }) == match cap {
            Capability::CHOWN => (5nat, 'C', 'W', 'N'),
            Capability::DAC_OVERRIDE => (12nat, 'D', '_', 'O'),
            Capability::DAC_READ_SEARCH => (15nat, 'D', '_', 'R'),
            Capability::FOWNER => (6nat, 'F', 'N', 'E'),
            Capability::FSETID => (6nat, 'F', 'T', 'I'),
            Capability::KILL => (4nat, 'K', 'L', ' '),
            Capability::SETGID => (6nat, 'S', 'G', 'I'),
            Capability::SETUID => (6nat, 'S', 'U', 'I'),
            Capability::SETPCAP => (7nat, 'S', 'P', 'C'),
            Capability::LINUX_IMMUTABLE => (15nat, 'L', 'U', 'X'),
            Capability::NET_BIND_SERVICE => (16nat, 'N', '_', 'B'),
            Capability::NET_BROADCAST => (13nat, 'N', '_', 'B'),
            Capability::NET_ADMIN => (9nat, 'N', '_', 'A'),
            Capability::NET_RAW => (7nat, 'N', '_', 'R'),
            Capability::IPC_LOCK => (8nat, 'I', '_', 'L'),
            Capability::IPC_OWNER => (9nat, 'I', '_', 'O'),
            Capability::SYS_MODULE => (10nat, 'S', '_', 'M'),
            Capability::SYS_RAWIO => (9nat, 'S', '_', 'R'),
            Capability::SYS_CHROOT => (10nat, 'S', '_', 'C'),
            Capability::SYS_PTRACE => (10nat, 'S', '_', 'P'),
            Capability::SYS_PACCT => (9nat, 'S', '_', 'P'),
            Capability::SYS_ADMIN => (9nat, 'S', '_', 'A'),
            Capability::SYS_BOOT => (8nat, 'S', '_', 'B'),
            Capability::SYS_NICE => (8nat, 'S', '_', 'N'),
            Capability::SYS_RESOURCE => (12nat, 'S', '_', 'R'),
            Capability::SYS_TIME => (8nat, 'S', '_', 'T'),
            Capability::SYS_TTY_CONFIG => (14nat, 'S', '_', 'T'),
            Capability::MKNOD => (5nat, 'M', 'O', 'D'),
            Capability::LEASE => (5nat, 'L', 'S', 'E'),
            Capability::AUDIT_WRITE => (11nat, 'A', 'I', 'T'),
            Capability::AUDIT_CONTROL => (13nat, 'A', 'I', 'T'),
            Capability::SETFCAP => (7nat, 'S', 'F', 'C'),
            Capability::MAC_OVERRIDE => (12nat, 'M', '_', 'O'),
            Capability::MAC_ADMIN => (9nat, 'M', '_', 'A'),
            Capability::SYSLOG => (6nat, 'S', 'L', 'O'),
            Capability::WAKE_ALARM => (10nat, 'W', 'E', '_'),
            Capability::BLOCK_SUSPEND => (13nat, 'B', 'C', 'K'),
            Capability::AUDIT_READ => (10nat, 'A', 'I', 'T'),
            Capability::PERFMON => (7nat, 'P', 'F', 'M'),
            Capability::BPF => (3nat, 'B', ' ', ' '),
            Capability::CHECKPOINT_RESTORE => (18nat, 'C', 'C', 'K'),
        },
{
    match cap {
        Capability::CHOWN => {
            reveal_strlit("CHOWN");
        },
        Capability::DAC_OVERRIDE => {
            reveal_strlit("DAC_OVERRIDE");
        },
        Capability::DAC_READ_SEARCH => {
            reveal_strlit("DAC_READ_SEARCH");
        },
        Capability::FOWNER => {
            reveal_strlit("FOWNER");
        },
        Capability::FSETID => {
            reveal_strlit("FSETID");
        },
        Capability::KILL => {
            reveal_strlit("KILL");
        },
        Capability::SETGID => {
            reveal_strlit("SETGID");
        },
        Capability::SETUID => {
            reveal_strlit("SETUID");
        },
        Capability::SETPCAP => {
            reveal_strlit("SETPCAP");
        },
        Capability::LINUX_IMMUTABLE => {
            reveal_strlit("LINUX_IMMUTABLE");
        },
        Capability::NET_BIND_SERVICE => {
            reveal_strlit("NET_BIND_SERVICE");
        },
        Capability::NET_BROADCAST => {
            reveal_strlit("NET_BROADCAST");
        },
        Capability::NET_ADMIN => {
            reveal_strlit("NET_ADMIN");
        },
        Capability::NET_RAW => {
            reveal_strlit("NET_RAW");
        },
        Capability::IPC_LOCK => {
            reveal_strlit("IPC_LOCK");
        },
        Capability::IPC_OWNER => {
            reveal_strlit("IPC_OWNER");
        },
        Capability::SYS_MODULE => {
            reveal_strlit("SYS_MODULE");
        },
        Capability::SYS_RAWIO => {
            reveal_strlit("SYS_RAWIO");
        },
        Capability::SYS_CHROOT => {
            reveal_strlit("SYS_CHROOT");
        },
        Capability::SYS_PTRACE => {
            reveal_strlit("SYS_PTRACE");
        },
        Capability::SYS_PACCT => {
            reveal_strlit("SYS_PACCT");
        },
        Capability::SYS_ADMIN => {
            reveal_strlit("SYS_ADMIN");
        },
        Capability::SYS_BOOT => {
            reveal_strlit("SYS_BOOT");
        },
        Capability::SYS_NICE => {
            reveal_strlit("SYS_NICE");
        },
        Capability::SYS_RESOURCE => {
            reveal_strlit("SYS_RESOURCE");
        },
        Capability::SYS_TIME => {
            reveal_strlit("SYS_TIME");
        },
        Capability::SYS_TTY_CONFIG => {
            reveal_strlit("SYS_TTY_CONFIG");
        },
        Capability::MKNOD => {
            reveal_strlit("MKNOD");
        },
        Capability::LEASE => {
            reveal_strlit("LEASE");
        },
        Capability::AUDIT_WRITE => {
            reveal_strlit("AUDIT_WRITE");
        },
        Capability::AUDIT_CONTROL => {
            reveal_strlit("AUDIT_CONTROL");
        },
        Capability::SETFCAP => {
            reveal_strlit("SETFCAP");
        },
        Capability::MAC_OVERRIDE => {
            reveal_strlit("MAC_OVERRIDE");
        },
        Capability::MAC_ADMIN => {
            reveal_strlit("MAC_ADMIN");
        },
        Capability::SYSLOG => {
            reveal_strlit("SYSLOG");
        },
        Capability::WAKE_ALARM => {
            reveal_strlit("WAKE_ALARM");
        },
        Capability::BLOCK_SUSPEND => {
            reveal_strlit("BLOCK_SUSPEND");
        },
        Capability::AUDIT_READ => {
            reveal_strlit("AUDIT_READ");
        },
        Capability::PERFMON => {
            reveal_strlit("PERFMON");
        },
        Capability::BPF => {
            reveal_strlit("BPF");
        },
        Capability::CHECKPOINT_RESTORE => {
            reveal_strlit("CHECKPOINT_RESTORE");
        },
    }
}

/// No two capabilities share a name.
pub proof fn capability_names_are_unique(a: Capability, b: Capability)
    requires
        a.name_spec() == b.name_spec(),
    ensures
        a == b,
{
    lemma_name_shape(a);
    lemma_name_shape(b);
}

/// No two capabilities share a number.
pub proof fn capability_numbers_are_unique(a: Capability, b: Capability)
    requires
        a.number() == b.number(),
    ensures
        a == b,
{
}

/// The capabilities by the numbers and names that the kernel gives them.
pub proof fn capabilities_of_the_kernel()
    ensures
        Capability::CHOWN.number() == 0,
        Capability::CHOWN.name_spec() == "CHOWN"@,
        Capability::DAC_OVERRIDE.number() == 1,
        Capability::DAC_OVERRIDE.name_spec() == "DAC_OVERRIDE"@,
        Capability::DAC_READ_SEARCH.number() == 2,
        Capability::DAC_READ_SEARCH.name_spec() == "DAC_READ_SEARCH"@,
        Capability::FOWNER.number() == 3,
        Capability::FOWNER.name_spec() == "FOWNER"@,
        Capability::FSETID.number() == 4,
        Capability::FSETID.name_spec() == "FSETID"@,
        Capability::KILL.number() == 5,
        Capability::KILL.name_spec() == "KILL"@,
        Capability::SETGID.number() == 6,
        Capability::SETGID.name_spec() == "SETGID"@,
        Capability::SETUID.number() == 7,
        Capability::SETUID.name_spec() == "SETUID"@,
        Capability::SETPCAP.number() == 8,
        Capability::SETPCAP.name_spec() == "SETPCAP"@,
        Capability::LINUX_IMMUTABLE.number() == 9,
        Capability::LINUX_IMMUTABLE.name_spec() == "LINUX_IMMUTABLE"@,
        Capability::NET_BIND_SERVICE.number() == 10,
        Capability::NET_BIND_SERVICE.name_spec() == "NET_BIND_SERVICE"@,
        Capability::NET_BROADCAST.number() == 11,
        Capability::NET_BROADCAST.name_spec() == "NET_BROADCAST"@,
        Capability::NET_ADMIN.number() == 12,
        Capability::NET_ADMIN.name_spec() == "NET_ADMIN"@,
        Capability::NET_RAW.number() == 13,
        Capability::NET_RAW.name_spec() == "NET_RAW"@,
        Capability::IPC_LOCK.number() == 14,
        Capability::IPC_LOCK.name_spec() == "IPC_LOCK"@,
        Capability::IPC_OWNER.number() == 15,
        Capability::IPC_OWNER.name_spec() == "IPC_OWNER"@,
        Capability::SYS_MODULE.number() == 16,
        Capability::SYS_MODULE.name_spec() == "SYS_MODULE"@,
        Capability::SYS_RAWIO.number() == 17,
        Capability::SYS_RAWIO.name_spec() == "SYS_RAWIO"@,
        Capability::SYS_CHROOT.number() == 18,
        Capability::SYS_CHROOT.name_spec() == "SYS_CHROOT"@,
        Capability::SYS_PTRACE.number() == 19,
        Capability::SYS_PTRACE.name_spec() == "SYS_PTRACE"@,
        Capability::SYS_PACCT.number() == 20,
        Capability::SYS_PACCT.name_spec() == "SYS_PACCT"@,
        Capability::SYS_ADMIN.number() == 21,
        Capability::SYS_ADMIN.name_spec() == "SYS_ADMIN"@,
        Capability::SYS_BOOT.number() == 22,
        Capability::SYS_BOOT.name_spec() == "SYS_BOOT"@,
        Capability::SYS_NICE.number() == 23,
        Capability::SYS_NICE.name_spec() == "SYS_NICE"@,
        Capability::SYS_RESOURCE.number() == 24,
        Capability::SYS_RESOURCE.name_spec() == "SYS_RESOURCE"@,
        Capability::SYS_TIME.number() == 25,
        Capability::SYS_TIME.name_spec() == "SYS_TIME"@,
        Capability::SYS_TTY_CONFIG.number() == 26,
        Capability::SYS_TTY_CONFIG.name_spec() == "SYS_TTY_CONFIG"@,
        Capability::MKNOD.number() == 27,
        Capability::MKNOD.name_spec() == "MKNOD"@,
        Capability::LEASE.number() == 28,
        Capability::LEASE.name_spec() == "LEASE"@,
        Capability::AUDIT_WRITE.number() == 29,
        Capability::AUDIT_WRITE.name_spec() == "AUDIT_WRITE"@,
        Capability::AUDIT_CONTROL.number() == 30,
        Capability::AUDIT_CONTROL.name_spec() == "AUDIT_CONTROL"@,
        Capability::SETFCAP.number() == 31,
        Capability::SETFCAP.name_spec() == "SETFCAP"@,
        Capability::MAC_OVERRIDE.number() == 32,
        Capability::MAC_OVERRIDE.name_spec() == "MAC_OVERRIDE"@,
        Capability::MAC_ADMIN.number() == 33,
        Capability::MAC_ADMIN.name_spec() == "MAC_ADMIN"@,
        Capability::SYSLOG.number() == 34,
        Capability::SYSLOG.name_spec() == "SYSLOG"@,
        Capability::WAKE_ALARM.number() == 35,
        Capability::WAKE_ALARM.name_spec() == "WAKE_ALARM"@,
        Capability::BLOCK_SUSPEND.number() == 36,
        Capability::BLOCK_SUSPEND.name_spec() == "BLOCK_SUSPEND"@,
        Capability::AUDIT_READ.number() == 37,
        Capability::AUDIT_READ.name_spec() == "AUDIT_READ"@,
        Capability::PERFMON.number() == 38,
        Capability::PERFMON.name_spec() == "PERFMON"@,
        Capability::BPF.number() == 39,
        Capability::BPF.name_spec() == "BPF"@,
        Capability::CHECKPOINT_RESTORE.number() == 40,
        Capability::CHECKPOINT_RESTORE.name_spec() == "CHECKPOINT_RESTORE"@,
{
}

/// `c` with the letters `a` to `z` made upper case.
pub open spec fn ascii_upper_char(c: char) -> char {
    if 'a' <= c <= 'z' {
        (c as int - 'a' as int + 'A' as int) as char
    } else {
        c
    }
}

/// The letters `a` to `z` become those that stand 32 places before them; no
/// other character changes.
pub proof fn small_letters_are_raised(c: char)
    ensures
        'a' <= c <= 'z' ==> ascii_upper_char(c) as int == c as int - 32,
        !('a' <= c <= 'z') ==> ascii_upper_char(c) == c,
{
}

/// `s` with the letters `a` to `z` made upper case.
pub open spec fn ascii_upper(s: Seq<char>) -> Seq<char> {
    s.map_values(|c: char| ascii_upper_char(c))
}

/// Whether all characters of `s` are ASCII.
pub open spec fn all_ascii(s: Seq<char>) -> bool {
    forall|i: int| 0 <= i < s.len() ==> (#[trigger] s[i]) as int <= 0x7f
}

/// The text in upper case after the rules of Unicode.
pub uninterp spec fn unicode_upper(s: Seq<char>) -> Seq<char>;

/// `str::to_uppercase`: the text in upper case after the rules of Unicode,
/// here a name; of ASCII text it changes the letters `a` to `z` alone.
#[verifier::external_body]
fn to_uppercase(s: &str) -> (r: String)
    ensures
        r@ == unicode_upper(s@),
        all_ascii(s@) ==> r@ == ascii_upper(s@),
{
    s.to_uppercase()
}

/// The name without the prefix `CAP_` or `CAP.`, where it has one.
pub open spec fn without_cap_prefix(s: Seq<char>) -> Seq<char> {
    if text::begins(s, "CAP_"@) || text::begins(s, "CAP."@) {
        s.skip(4)
    } else {
        s
    }
}

/// Whether `cap` is the capability that an upper-case name stands for.
pub open spec fn is_named(upper: Seq<char>, cap: Option<Capability>) -> bool {
    match cap {
        Some(cap) => cap.name_spec() == without_cap_prefix(upper),
        None => forall|other: Capability| other.name_spec() != without_cap_prefix(upper),
    }
}

/// An upper-case name stands for at most one capability.
pub proof fn named_capability_is_unique(
    upper: Seq<char>,
    a: Option<Capability>,
    b: Option<Capability>,
)
    requires
        is_named(upper, a),
        is_named(upper, b),
    ensures
        a == b,
{
    match (a, b) {
        (Some(x), Some(y)) => capability_names_are_unique(x, y),
        (Some(x), None) => {
            assert(x.name_spec() != without_cap_prefix(upper));
        },
        (None, Some(y)) => {
            assert(y.name_spec() != without_cap_prefix(upper));
        },
        (None, None) => {},
    }
}

fn exact_name(s: &str) -> (r: Option<Capability>)
    ensures
        match r {
            Some(cap) => cap.name_spec() == s@,
            None => forall|other: Capability| other.name_spec() != s@,
        },
{
    if text::same(s, "CHOWN") {
        Some(Capability::CHOWN)
    } else if text::same(s, "DAC_OVERRIDE") {
        Some(Capability::DAC_OVERRIDE)
    } else if text::same(s, "DAC_READ_SEARCH") {
        Some(Capability::DAC_READ_SEARCH)
    } else if text::same(s, "FOWNER") {
        Some(Capability::FOWNER)
    } else if text::same(s, "FSETID") {
        Some(Capability::FSETID)
    } else if text::same(s, "KILL") {
        Some(Capability::KILL)
    } else if text::same(s, "SETGID") {
        Some(Capability::SETGID)
    } else if text::same(s, "SETUID") {
        Some(Capability::SETUID)
    } else if text::same(s, "SETPCAP") {
        Some(Capability::SETPCAP)
    } else if text::same(s, "LINUX_IMMUTABLE") {
        Some(Capability::LINUX_IMMUTABLE)
    } else if text::same(s, "NET_BIND_SERVICE") {
        Some(Capability::NET_BIND_SERVICE)
    } else if text::same(s, "NET_BROADCAST") {
        Some(Capability::NET_BROADCAST)
    } else if text::same(s, "NET_ADMIN") {
        Some(Capability::NET_ADMIN)
    } else if text::same(s, "NET_RAW") {
        Some(Capability::NET_RAW)
    } else if text::same(s, "IPC_LOCK") {
        Some(Capability::IPC_LOCK)
    } else if text::same(s, "IPC_OWNER") {
        Some(Capability::IPC_OWNER)
    } else if text::same(s, "SYS_MODULE") {
        Some(Capability::SYS_MODULE)
    } else if text::same(s, "SYS_RAWIO") {
        Some(Capability::SYS_RAWIO)
    } else if text::same(s, "SYS_CHROOT") {
        Some(Capability::SYS_CHROOT)
    } else if text::same(s, "SYS_PTRACE") {
        Some(Capability::SYS_PTRACE)
    } else if text::same(s, "SYS_PACCT") {
        Some(Capability::SYS_PACCT)
    } else if text::same(s, "SYS_ADMIN") {
        Some(Capability::SYS_ADMIN)
    } else if text::same(s, "SYS_BOOT") {
        Some(Capability::SYS_BOOT)
    } else if text::same(s, "SYS_NICE") {
        Some(Capability::SYS_NICE)
    } else if text::same(s, "SYS_RESOURCE") {
        Some(Capability::SYS_RESOURCE)
    } else if text::same(s, "SYS_TIME") {
        Some(Capability::SYS_TIME)
    } else if text::same(s, "SYS_TTY_CONFIG") {
        Some(Capability::SYS_TTY_CONFIG)
    } else if text::same(s, "MKNOD") {
        Some(Capability::MKNOD)
    } else if text::same(s, "LEASE") {
        Some(Capability::LEASE)
    } else if text::same(s, "AUDIT_WRITE") {
        Some(Capability::AUDIT_WRITE)
    } else if text::same(s, "AUDIT_CONTROL") {
        Some(Capability::AUDIT_CONTROL)
    } else if text::same(s, "SETFCAP") {
        Some(Capability::SETFCAP)
    } else if text::same(s, "MAC_OVERRIDE") {
        Some(Capability::MAC_OVERRIDE)
    } else if text::same(s, "MAC_ADMIN") {
        Some(Capability::MAC_ADMIN)
    } else if text::same(s, "SYSLOG") {
        Some(Capability::SYSLOG)
    } else if text::same(s, "WAKE_ALARM") {
        Some(Capability::WAKE_ALARM)
    } else if text::same(s, "BLOCK_SUSPEND") {
        Some(Capability::BLOCK_SUSPEND)
    } else if text::same(s, "AUDIT_READ") {
        Some(Capability::AUDIT_READ)
    } else if text::same(s, "PERFMON") {
        Some(Capability::PERFMON)
    } else if text::same(s, "BPF") {
        Some(Capability::BPF)
    } else if text::same(s, "CHECKPOINT_RESTORE") {
        Some(Capability::CHECKPOINT_RESTORE)
    } else {
        None
    }
}

impl Capability {
    /// The capability that an upper-case name stands for.
    pub fn from_upper_name(upper: &str) -> (r: Option<Capability>)
        ensures
            is_named(upper@, r),
    {
        proof {
            reveal_strlit("CAP_");
            reveal_strlit("CAP.");
        }
        if text::starts_with(upper, "CAP_") || text::starts_with(upper, "CAP.") {
            let chars = text::chars_of(upper);
            let rest = text::string_from(&chars, 4, chars.len());
            assert(rest@ =~= upper@.skip(4));
            exact_name(rest.as_str())
        } else {
            exact_name(upper)
        }
    }

    /// The capability that a name stands for: in upper or lower case, with or
    /// without the prefix `CAP_` or `CAP.`.
    pub fn from_name(name: &str) -> (r: Option<Capability>)
        ensures
            is_named(unicode_upper(name@), r),
            all_ascii(name@) ==> is_named(ascii_upper(name@), r),
    {
        let upper = to_uppercase(name);
        Capability::from_upper_name(upper.as_str())
    }
}

proof fn lemma_name_has_no_prefix(cap: Capability)
    ensures
        without_cap_prefix(cap.name_spec()) == cap.name_spec(),
        without_cap_prefix("CAP_"@ + cap.name_spec()) == cap.name_spec(),
        without_cap_prefix("CAP."@ + cap.name_spec()) == cap.name_spec(),
{
    reveal_strlit("CAP_");
    reveal_strlit("CAP.");
    let name = cap.name_spec();
    assert(("CAP_"@ + name).take(4) =~= "CAP_"@);
    assert(("CAP."@ + name).take(4) =~= "CAP."@);
    assert(("CAP_"@ + name).skip(4) =~= name);
    assert(("CAP."@ + name).skip(4) =~= name);
    assert(name.len() >= 2 && (name[0] != 'C' || name[1] != 'A')) by {
        match cap {
            Capability::CHOWN => {
                reveal_strlit("CHOWN");
            },
            Capability::DAC_OVERRIDE => {
                reveal_strlit("DAC_OVERRIDE");
            },
            Capability::DAC_READ_SEARCH => {
                reveal_strlit("DAC_READ_SEARCH");
            },
            Capability::FOWNER => {
                reveal_strlit("FOWNER");
            },
            Capability::FSETID => {
                reveal_strlit("FSETID");
            },
            Capability::KILL => {
                reveal_strlit("KILL");
            },
            Capability::SETGID => {
                reveal_strlit("SETGID");
            },
            Capability::SETUID => {
                reveal_strlit("SETUID");
            },
            Capability::SETPCAP => {
                reveal_strlit("SETPCAP");
            },
            Capability::LINUX_IMMUTABLE => {
                reveal_strlit("LINUX_IMMUTABLE");
            },
            Capability::NET_BIND_SERVICE => {
                reveal_strlit("NET_BIND_SERVICE");
            },
            Capability::NET_BROADCAST => {
                reveal_strlit("NET_BROADCAST");
            },
            Capability::NET_ADMIN => {
                reveal_strlit("NET_ADMIN");
            },
            Capability::NET_RAW => {
                reveal_strlit("NET_RAW");
            },
            Capability::IPC_LOCK => {
                reveal_strlit("IPC_LOCK");
            },
            Capability::IPC_OWNER => {
                reveal_strlit("IPC_OWNER");
            },
            Capability::SYS_MODULE => {
                reveal_strlit("SYS_MODULE");
            },
            Capability::SYS_RAWIO => {
                reveal_strlit("SYS_RAWIO");
            },
            Capability::SYS_CHROOT => {
                reveal_strlit("SYS_CHROOT");
            },
            Capability::SYS_PTRACE => {
                reveal_strlit("SYS_PTRACE");
            },
            Capability::SYS_PACCT => {
                reveal_strlit("SYS_PACCT");
            },
            Capability::SYS_ADMIN => {
                reveal_strlit("SYS_ADMIN");
            },
            Capability::SYS_BOOT => {
                reveal_strlit("SYS_BOOT");
            },
            Capability::SYS_NICE => {
                reveal_strlit("SYS_NICE");
            },
            Capability::SYS_RESOURCE => {
                reveal_strlit("SYS_RESOURCE");
            },
            Capability::SYS_TIME => {
                reveal_strlit("SYS_TIME");
            },
            Capability::SYS_TTY_CONFIG => {
                reveal_strlit("SYS_TTY_CONFIG");
            },
            Capability::MKNOD => {
                reveal_strlit("MKNOD");
            },
            Capability::LEASE => {
                reveal_strlit("LEASE");
            },
            Capability::AUDIT_WRITE => {
                reveal_strlit("AUDIT_WRITE");
            },
            Capability::AUDIT_CONTROL => {
                reveal_strlit("AUDIT_CONTROL");
            },
            Capability::SETFCAP => {
                reveal_strlit("SETFCAP");
            },
            Capability::MAC_OVERRIDE => {
                reveal_strlit("MAC_OVERRIDE");
            },
            Capability::MAC_ADMIN => {
                reveal_strlit("MAC_ADMIN");
            },
            Capability::SYSLOG => {
                reveal_strlit("SYSLOG");
            },
            Capability::WAKE_ALARM => {
                reveal_strlit("WAKE_ALARM");
            },
            Capability::BLOCK_SUSPEND => {
                reveal_strlit("BLOCK_SUSPEND");
            },
            Capability::AUDIT_READ => {
                reveal_strlit("AUDIT_READ");
            },
            Capability::PERFMON => {
                reveal_strlit("PERFMON");
            },
            Capability::BPF => {
                reveal_strlit("BPF");
            },
            Capability::CHECKPOINT_RESTORE => {
                reveal_strlit("CHECKPOINT_RESTORE");
            },
        }
    }
    if text::begins(name, "CAP_"@) {
        assert(name.take(4)[0] == 'C');
        assert(name.take(4)[1] == 'A');
    }
    if text::begins(name, "CAP."@) {
        assert(name.take(4)[0] == 'C');
        assert(name.take(4)[1] == 'A');
    }
}

/// A name in any mixture of upper and lower case stands for its capability,
/// alone and behind either prefix.
pub proof fn names_ignore_case_and_prefix(cap: Capability, name: Seq<char>)
    requires
        ascii_upper(name) == cap.name_spec() || ascii_upper(name) == "CAP_"@ + cap.name_spec()
            || ascii_upper(name) == "CAP."@ + cap.name_spec(),
    ensures
        is_named(ascii_upper(name), Some(cap)),
{
    lemma_name_has_no_prefix(cap);
}

/// A name stands for a capability only where it is its name, alone or behind
/// one of the two prefixes.
pub proof fn only_names_stand_for_capabilities(upper: Seq<char>, cap: Capability)
    requires
        is_named(upper, Some(cap)),
    ensures
        upper == cap.name_spec() || upper == "CAP_"@ + cap.name_spec() || upper == "CAP."@
            + cap.name_spec(),
{
    reveal_strlit("CAP_");
    reveal_strlit("CAP.");
    if text::begins(upper, "CAP_"@) {
        assert(upper =~= "CAP_"@ + upper.skip(4));
    } else if text::begins(upper, "CAP."@) {
        assert(upper =~= "CAP."@ + upper.skip(4));
    }
}

/// Makes the letters `a` to `z` upper case.
pub fn to_ascii_upper(s: &str) -> (r: String)
    ensures
        r@ == ascii_upper(s@),
{
    let chars = text::chars_of(s);
    let mut out = String::new();
    let mut i: usize = 0;
    while i < chars.len()
        invariant
            i <= chars@.len(),
            chars@ == s@,
            out@ == ascii_upper(s@.take(i as int)),
        decreases chars.len() - i,
    {
        let c = chars[i];
        if 'a' <= c && c <= 'z' {
            out.push((c as u8 - 32) as char);
        } else {
            out.push(c);
        }
        i += 1;
        assert(out@ =~= ascii_upper(s@.take(i as int)));
    }
    assert(s@.take(s@.len() as int) =~= s@);
    out
}

/// One step in the making of a capability set.
#[derive(Debug, Clone, Copy, PartialEq, Eq, Structural)]
pub enum CapOp {
    /// Add one capability.
    Add(Capability),
    /// Drop one capability.
    Drop(Capability),
    /// Add all capabilities.
    AddAll,
    /// Drop all capabilities.
    DropAll,
}

/// A name that no capability has.
#[derive(Debug, Clone, PartialEq, Eq)]
pub struct UnknownCapability {
    /// The name.
    pub name: String,
}

impl UnknownCapability {
    /// What the error says to a reader.
    pub open spec fn message_spec(name: Seq<char>) -> Seq<char> {
        "unknown capability name: '"@ + name + "'"@
    }

    /// The error as a sentence.
    pub fn message(&self) -> (r: String)
        ensures
            r@ == Self::message_spec(self.name@),
    {
        let mut out = "unknown capability name: '".to_owned();
        out.append(self.name.as_str());
        out.append("'");
        out
    }
}

/// Whether a name stands for all capabilities: `ALL` in any mixture of upper
/// and lower case.
pub open spec fn means_all(name: Seq<char>) -> bool {
    ascii_upper(name) == "ALL"@
}

impl CapOp {
    /// The operation on a capability.
    pub open spec fn on(cap: Capability, is_add: bool) -> CapOp {
        if is_add {
            CapOp::Add(cap)
        } else {
            CapOp::Drop(cap)
        }
    }

    /// The operation on all capabilities.
    pub open spec fn on_all(is_add: bool) -> CapOp {
        if is_add {
            CapOp::AddAll
        } else {
            CapOp::DropAll
        }
    }

    /// Whether `r` is the operation that a name on the command line asks for,
    /// or the error where `cap`, the capability so named, is none.
    pub open spec fn asked(
        name: Seq<char>,
        is_add: bool,
        cap: Option<Capability>,
        r: Result<CapOp, UnknownCapability>,
    ) -> bool {
        if means_all(name) {
            r == Ok::<CapOp, UnknownCapability>(CapOp::on_all(is_add))
        } else {
            match cap {
                Some(cap) => r == Ok::<CapOp, UnknownCapability>(CapOp::on(cap, is_add)),
                None => r matches Err(e) && e.name@ == name,
            }
        }
    }

    /// Whether `r` is the operation that a name on the command line asks for,
    /// or the error where it names no capability.
    pub open spec fn read_from(
        name: Seq<char>,
        is_add: bool,
        r: Result<CapOp, UnknownCapability>,
    ) -> bool {
        &&& exists|cap: Option<Capability>| #[trigger]
            is_named(unicode_upper(name), cap) && CapOp::asked(name, is_add, cap, r)
        &&& all_ascii(name) ==> exists|cap: Option<Capability>| #[trigger]
            is_named(ascii_upper(name), cap) && CapOp::asked(name, is_add, cap, r)
    }

    /// The operation that a name on the command line asks for.
    pub fn from_cli(name: &str, is_add: bool) -> (r: Result<CapOp, UnknownCapability>)
        ensures
            CapOp::read_from(name@, is_add, r),
    {
        let upper = to_ascii_upper(name);
        let cap = Capability::from_name(name);
        if text::same(upper.as_str(), "ALL") {
            return if is_add {
                Ok(CapOp::AddAll)
            } else {
                Ok(CapOp::DropAll)
            };
        }
        let r = match cap {
            None => Err(UnknownCapability { name: name.to_owned() }),
            Some(cap) => if is_add {
                Ok(CapOp::Add(cap))
            } else {
                Ok(CapOp::Drop(cap))
            },
        };
        assert(CapOp::asked(name@, is_add, cap, r));
        r
    }
}

/// All capabilities are meant by the three letters of `ALL`, each in upper or
/// lower case, and by nothing else.
pub proof fn three_letters_mean_all(name: Seq<char>)
    ensures
        means_all(name) <==> name.len() == 3 && (name[0] == 'A' || name[0] == 'a') && (name[1] == 'L'
            || name[1] == 'l') && (name[2] == 'L' || name[2] == 'l'),
{
    reveal_strlit("ALL");
    let upper = ascii_upper(name);
    assert(upper.len() == name.len() && "ALL"@.len() == 3);
    if name.len() == 3 {
        assert(upper[0] == ascii_upper_char(name[0]));
        assert(upper[1] == ascii_upper_char(name[1]));
        assert(upper[2] == ascii_upper_char(name[2]));
        small_letters_are_raised(name[0]);
        small_letters_are_raised(name[1]);
        small_letters_are_raised(name[2]);
        if means_all(name) {
            assert(upper[0] == 'A' && upper[1] == 'L' && upper[2] == 'L');
        }
        if (name[0] == 'A' || name[0] == 'a') && (name[1] == 'L' || name[1] == 'l') && (name[2]
            == 'L' || name[2] == 'l') {
            assert(upper =~= "ALL"@);
        }
    }
}

/// An option that adds makes an operation that adds and one that drops makes one
/// that drops, on all capabilities exactly where all are meant.
pub proof fn options_keep_their_sense(
    name: Seq<char>,
    is_add: bool,
    r: Result<CapOp, UnknownCapability>,
)
    requires
        CapOp::read_from(name, is_add, r),
    ensures
        r matches Ok(op) ==> {
            &&& (op is Add || op is AddAll) <==> is_add
            &&& (op is AddAll || op is DropAll) <==> means_all(name)
        },
        r matches Err(e) ==> e.name@ == name && !means_all(name),
{
}

/// A name of ASCII letters that stands for a capability, in any case and behind
/// either prefix, makes the operation on that capability.
pub proof fn named_capability_is_meant(
    cap: Capability,
    name: Seq<char>,
    is_add: bool,
    r: Result<CapOp, UnknownCapability>,
)
    requires
        all_ascii(name),
        ascii_upper(name) == cap.name_spec() || ascii_upper(name) == "CAP_"@ + cap.name_spec()
            || ascii_upper(name) == "CAP."@ + cap.name_spec(),
        CapOp::read_from(name, is_add, r),
    ensures
        is_add ==> r == Ok::<CapOp, UnknownCapability>(CapOp::Add(cap)),
        !is_add ==> r == Ok::<CapOp, UnknownCapability>(CapOp::Drop(cap)),
{
    names_ignore_case_and_prefix(cap, name);
    let found = choose|found: Option<Capability>| #[trigger]
        is_named(ascii_upper(name), found) && CapOp::asked(name, is_add, found, r);
    named_capability_is_unique(ascii_upper(name), found, Some(cap));
    lemma_name_has_no_prefix(cap);
    lemma_name_shape(cap);
    reveal_strlit("ALL");
    reveal_strlit("CAP_");
    reveal_strlit("CAP.");
    if means_all(name) {
        assert("ALL"@.len() == 3);
        assert(cap == Capability::BPF);
        reveal_strlit("BPF");
        assert("ALL"@[0] != "BPF"@[0]);
    }
}

/// What is done to the capabilities of a sandboxed process.
#[derive(Debug, Clone)]
pub struct CapabilityConfig {
    /// The operations, in order.
    pub ops: Vec<CapOp>,
    /// Whether to start from the capabilities of the caller and not from none.
    pub inherit_base: bool,
}

impl Default for CapabilityConfig {
    /// No operation, and no capability to start from.
    fn default() -> (r: CapabilityConfig)
        ensures
            r.ops@ == Seq::<CapOp>::empty(),
            !r.inherit_base,
    {
        CapabilityConfig { ops: Vec::new(), inherit_base: false }
    }
}

/// A configuration adds capabilities where one of its operations does, on one
/// capability or on all; dropping adds nothing.
pub proof fn adding_is_told(config: CapabilityConfig, cap: Capability)
    ensures
        config.ops@.contains(CapOp::Add(cap)) ==> config.adds(),
        config.ops@.contains(CapOp::AddAll) ==> config.adds(),
        (forall|i: int|
            0 <= i < config.ops@.len() ==> (#[trigger] config.ops@[i] is Drop
                || config.ops@[i] is DropAll)) ==> !config.adds(),
{
    if config.ops@.contains(CapOp::Add(cap)) {
        let i = choose|i: int|
            0 <= i < config.ops@.len() && config.ops@[i] == CapOp::Add(cap);
        assert(config.ops@[i] is Add);
    }
    if config.ops@.contains(CapOp::AddAll) {
        let i = choose|i: int| 0 <= i < config.ops@.len() && config.ops@[i] == CapOp::AddAll;
        assert(config.ops@[i] is AddAll);
    }
}

impl CapabilityConfig {
    /// Whether some operation adds a capability.
    pub open spec fn adds(self) -> bool {
        exists|i: int|
            0 <= i < self.ops@.len() && (#[trigger] self.ops@[i] is Add || self.ops@[i] is AddAll)
    }

    /// Whether some operation adds a capability.
    pub fn has_add(&self) -> (r: bool)
        ensures
            r == self.adds(),
    {
        let mut i: usize = 0;
        while i < self.ops.len()
            invariant
                i <= self.ops@.len(),
                forall|j: int|
                    0 <= j < i ==> !(#[trigger] self.ops@[j] is Add || self.ops@[j] is AddAll),
            decreases self.ops.len() - i,
        {
            if matches!(self.ops[i], CapOp::Add(_) | CapOp::AddAll) {
                assert(self.ops@[i as int] is Add || self.ops@[i as int] is AddAll);
                return true;
            }
            i += 1;
        }
        false
    }
}

} // verus!
