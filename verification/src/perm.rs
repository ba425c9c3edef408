//! Landlock permissions by name, and rules that grant them on paths.

use crate::text;
use vstd::prelude::*;

verus! {

/// One permission on a file hierarchy.
#[derive(Debug, Clone, Copy, PartialEq, Eq, Structural)]
pub enum LandlockPerm {
    Execute,
    ReadFile,
    ReadDir,
    WriteFile,
    RemoveDir,
    RemoveFile,
    MakeChar,
    MakeDir,
    MakeReg,
    MakeSock,
    MakeFifo,
    MakeBlock,
    MakeSym,
    Refer,
    Truncate,
    IoctlDev,
}

/// A name that no permission has.
#[derive(Debug, Clone, PartialEq, Eq)]
pub struct UnknownPerm {
    /// The name.
    pub name: String,
}

impl UnknownPerm {
    /// What the error says to a reader.
    pub open spec fn message_spec(name: Seq<char>) -> Seq<char> {
        "unknown landlock perm '"@ + name + "'"@
    }

    /// The error as a sentence.
    pub fn message(&self) -> (r: String)
        ensures
            r@ == Self::message_spec(self.name@),
    {
        let mut out = "unknown landlock perm '".to_owned();
        out.append(self.name.as_str());
        out.append("'");
        out
    }
}

impl LandlockPerm {
    /// The name of the permission.
    pub open spec fn name_spec(self) -> Seq<char> {
        match self {
            LandlockPerm::Execute => "execute"@,
            LandlockPerm::ReadFile => "read-file"@,
            LandlockPerm::ReadDir => "read-dir"@,
            LandlockPerm::WriteFile => "write-file"@,
            LandlockPerm::RemoveDir => "remove-dir"@,
            LandlockPerm::RemoveFile => "remove-file"@,
            LandlockPerm::MakeChar => "make-char"@,
            LandlockPerm::MakeDir => "make-dir"@,
            LandlockPerm::MakeReg => "make-reg"@,
            LandlockPerm::MakeSock => "make-sock"@,
            LandlockPerm::MakeFifo => "make-fifo"@,
            LandlockPerm::MakeBlock => "make-block"@,
            LandlockPerm::MakeSym => "make-sym"@,
            LandlockPerm::Refer => "refer"@,
            LandlockPerm::Truncate => "truncate"@,
            LandlockPerm::IoctlDev => "ioctl-dev"@,
        }
    }

    /// Reads a permission from its name.
    pub fn parse(s: &str) -> (r: Result<LandlockPerm, UnknownPerm>)
        ensures
            match r {
                Ok(perm) => perm.name_spec() == s@,
                Err(e) => e.name@ == s@ && forall|perm: LandlockPerm| perm.name_spec() != s@,
            },
    {
        if text::same(s, "execute") {
            Ok(LandlockPerm::Execute)
        } else if text::same(s, "read-file") {
            Ok(LandlockPerm::ReadFile)
        } else if text::same(s, "read-dir") {
            Ok(LandlockPerm::ReadDir)
        } else if text::same(s, "write-file") {
            Ok(LandlockPerm::WriteFile)
        } else if text::same(s, "remove-dir") {
            Ok(LandlockPerm::RemoveDir)
        } else if text::same(s, "remove-file") {
            Ok(LandlockPerm::RemoveFile)
        } else if text::same(s, "make-char") {
            Ok(LandlockPerm::MakeChar)
        } else if text::same(s, "make-dir") {
            Ok(LandlockPerm::MakeDir)
        } else if text::same(s, "make-reg") {
            Ok(LandlockPerm::MakeReg)
        } else if text::same(s, "make-sock") {
            Ok(LandlockPerm::MakeSock)
        } else if text::same(s, "make-fifo") {
            Ok(LandlockPerm::MakeFifo)
        } else if text::same(s, "make-block") {
            Ok(LandlockPerm::MakeBlock)
        } else if text::same(s, "make-sym") {
            Ok(LandlockPerm::MakeSym)
        } else if text::same(s, "refer") {
            Ok(LandlockPerm::Refer)
        } else if text::same(s, "truncate") {
            Ok(LandlockPerm::Truncate)
        } else if text::same(s, "ioctl-dev") {
            Ok(LandlockPerm::IoctlDev)
        } else {
            Err(UnknownPerm { name: s.to_owned() })
        }
    }
}

/// Length, first and sixth character of a permission's name.
proof fn lemma_name_shape(perm: LandlockPerm)
    ensures
        ({
            let name = perm.name_spec();
            (name.len(), name[0], if name.len() > 5 {
                name[5]
            } else {
                ' '
            })
        }) == match perm {
            LandlockPerm::Execute => (7nat, 'e', 't'),
            LandlockPerm::ReadFile => (9nat, 'r', 'f'),
            LandlockPerm::ReadDir => (8nat, 'r', 'd'),
            LandlockPerm::WriteFile => (10nat, 'w', '-'),
            LandlockPerm::RemoveDir => (10nat, 'r', 'e'),
            LandlockPerm::RemoveFile => (11nat, 'r', 'e'),
            LandlockPerm::MakeChar => (9nat, 'm', 'c'),
            LandlockPerm::MakeDir => (8nat, 'm', 'd'),
            LandlockPerm::MakeReg => (8nat, 'm', 'r'),
            LandlockPerm::MakeSock => (9nat, 'm', 's'),
            LandlockPerm::MakeFifo => (9nat, 'm', 'f'),
            LandlockPerm::MakeBlock => (10nat, 'm', 'b'),
            LandlockPerm::MakeSym => (8nat, 'm', 's'),
            LandlockPerm::Refer => (5nat, 'r', ' '),
            LandlockPerm::Truncate => (8nat, 't', 'a'),
            LandlockPerm::IoctlDev => (9nat, 'i', '-'),
        },
{
    match perm {
        LandlockPerm::Execute => {
            reveal_strlit("execute");
        },
        LandlockPerm::ReadFile => {
            reveal_strlit("read-file");
        },
        LandlockPerm::ReadDir => {
            reveal_strlit("read-dir");
        },
        LandlockPerm::WriteFile => {
            reveal_strlit("write-file");
        },
        LandlockPerm::RemoveDir => {
            reveal_strlit("remove-dir");
        },
        LandlockPerm::RemoveFile => {
            reveal_strlit("remove-file");
        },
        LandlockPerm::MakeChar => {
            reveal_strlit("make-char");
        },
        LandlockPerm::MakeDir => {
            reveal_strlit("make-dir");
        },
        LandlockPerm::MakeReg => {
            reveal_strlit("make-reg");
        },
        LandlockPerm::MakeSock => {
            reveal_strlit("make-sock");
        },
        LandlockPerm::MakeFifo => {
            reveal_strlit("make-fifo");
        },
        LandlockPerm::MakeBlock => {
            reveal_strlit("make-block");
        },
        LandlockPerm::MakeSym => {
            reveal_strlit("make-sym");
        },
        LandlockPerm::Refer => {
            reveal_strlit("refer");
        },
        LandlockPerm::Truncate => {
            reveal_strlit("truncate");
        },
        LandlockPerm::IoctlDev => {
            reveal_strlit("ioctl-dev");
        },
    }
}

/// The names of the permissions.
pub proof fn permission_names()
    ensures
        LandlockPerm::Execute.name_spec() == "execute"@,
        LandlockPerm::ReadFile.name_spec() == "read-file"@,
        LandlockPerm::ReadDir.name_spec() == "read-dir"@,
        LandlockPerm::WriteFile.name_spec() == "write-file"@,
        LandlockPerm::RemoveDir.name_spec() == "remove-dir"@,
        LandlockPerm::RemoveFile.name_spec() == "remove-file"@,
        LandlockPerm::MakeChar.name_spec() == "make-char"@,
        LandlockPerm::MakeDir.name_spec() == "make-dir"@,
        LandlockPerm::MakeReg.name_spec() == "make-reg"@,
        LandlockPerm::MakeSock.name_spec() == "make-sock"@,
        LandlockPerm::MakeFifo.name_spec() == "make-fifo"@,
        LandlockPerm::MakeBlock.name_spec() == "make-block"@,
        LandlockPerm::MakeSym.name_spec() == "make-sym"@,
        LandlockPerm::Refer.name_spec() == "refer"@,
        LandlockPerm::Truncate.name_spec() == "truncate"@,
        LandlockPerm::IoctlDev.name_spec() == "ioctl-dev"@,
{
}

/// Names of permissions are longer than those of presets.
pub(crate) proof fn lemma_names_are_long(perm: LandlockPerm)
    ensures
        perm.name_spec().len() > 3,
{
    lemma_name_shape(perm);
}

/// No two permissions share a name, so a name reads back as the permission
/// that has it.
pub proof fn perm_names_are_unique(a: LandlockPerm, b: LandlockPerm)
    requires
        a.name_spec() == b.name_spec(),
    ensures
        a == b,
{
    lemma_name_shape(a);
    lemma_name_shape(b);
}

impl std::str::FromStr for LandlockPerm {
    type Err = UnknownPerm;

    fn from_str(s: &str) -> (r: Result<LandlockPerm, UnknownPerm>)
        ensures
            match r {
                Ok(perm) => perm.name_spec() == s@,
                Err(e) => e.name@ == s@ && forall|perm: LandlockPerm| perm.name_spec() != s@,
            },
    {
        LandlockPerm::parse(s)
    }
}

/// Grants permissions on the hierarchy below a path.
#[derive(Debug, Clone)]
pub struct LandlockRule {
    /// The path.
    pub path: String,
    /// The permissions.
    pub perms: Vec<LandlockPerm>,
}

} // verus!
