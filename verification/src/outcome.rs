//! What became of a sandboxed command.

use vstd::prelude::*;

verus! {

/// The mechanism that denied an operation.
#[derive(Debug, Clone, Copy, PartialEq, Eq, Structural)]
pub enum DenyMechanism {
    /// Landlock, the file system rules.
    Landlock,
    /// Seccomp, the system call filter.
    Seccomp,
    /// Not known.
    Unknown,
}

impl DenyMechanism {
    /// The name of the mechanism.
    pub open spec fn name_spec(self) -> Seq<char> {
        match self {
            DenyMechanism::Landlock => "Landlock"@,
            DenyMechanism::Seccomp => "Seccomp"@,
            DenyMechanism::Unknown => "Unknown"@,
        }
    }

    /// The name of the mechanism.
    pub fn name(&self) -> (r: &'static str)
        ensures
            r@ == self.name_spec(),
    {
        match self {
            DenyMechanism::Landlock => "Landlock",
            DenyMechanism::Seccomp => "Seccomp",
            DenyMechanism::Unknown => "Unknown",
        }
    }
}

/// Why a sandboxed command ended.
#[derive(Debug, Clone, PartialEq, Eq)]
pub enum ExitReason {
    /// It ended with exit code zero.
    Success,
    /// The sandbox denied it something.
    Denied {
        /// The mechanism that did.
        mechanism: DenyMechanism,
        /// What is known about it.
        message: String,
    },
    /// It ended with another exit code of its own accord.
    Program(i32),
    /// The sandbox itself failed, or the time was up.
    InternalError(String),
}

/// An [`ExitReason`] with its texts as sequences of characters.
pub enum ReasonView {
    Success,
    Denied { mechanism: DenyMechanism, message: Seq<char> },
    Program(i32),
    InternalError(Seq<char>),
}

impl View for ExitReason {
    type V = ReasonView;

    open spec fn view(&self) -> ReasonView {
        match self {
            ExitReason::Success => ReasonView::Success,
            ExitReason::Denied { mechanism, message } => ReasonView::Denied {
                mechanism: *mechanism,
                message: message@,
            },
            ExitReason::Program(code) => ReasonView::Program(*code),
            ExitReason::InternalError(message) => ReasonView::InternalError(message@),
        }
    }
}

impl ExitReason {
    /// Whether the sandbox denied something.
    pub fn is_denied(&self) -> (r: bool)
        ensures
            r == (self@ is Denied),
    {
        matches!(self, ExitReason::Denied { .. })
    }

    /// Whether the command succeeded.
    pub fn is_ok(&self) -> (r: bool)
        ensures
            r == (self@ is Success),
    {
        matches!(self, ExitReason::Success)
    }
}

/// What a finished command left behind.
#[derive(Debug, Clone, Copy, PartialEq, Eq)]
pub struct CommandOutput {
    /// Its exit code.
    pub exit_code: i32,
    /// Number and architecture of the last system call that the filter
    /// reported, where there is one.
    pub blocked_syscall: Option<(u32, u32)>,
}

/// The names of the mechanisms.
pub proof fn mechanism_names()
    ensures
        DenyMechanism::Landlock.name_spec() == "Landlock"@,
        DenyMechanism::Seccomp.name_spec() == "Seccomp"@,
        DenyMechanism::Unknown.name_spec() == "Unknown"@,
{
}

} // verus!
