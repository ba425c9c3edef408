//! Sandbox policy engine: configuration, launch planning and verdicts.

pub mod capability;
pub mod cli;
pub mod command;
pub mod config;
pub mod linux;
pub mod outcome;
pub mod perm;
pub mod probe;
pub mod report;
pub mod sandbox;
pub mod text;

pub use command::{CommandSpec, EnvVars};
pub use outcome::{CommandOutput, DenyMechanism, ExitReason};
pub use perm::{LandlockPerm, LandlockRule};
pub use report::{check_capabilities, Capabilities, NamespaceType};
pub use sandbox::{ExecError, Platform, RunOutcome, Sandbox};
