//! The Linux back end: Landlock rules, seccomp filters, namespaces, mounts,
//! capabilities and the order in which a child process takes them on.

pub mod caps;
pub mod child_setup;
pub mod errno;
pub mod landlock;
pub mod launch;
pub mod mount;
pub mod namespaces;
pub mod net;
pub mod seccomp;

use crate::command::CommandSpec;
use crate::config::SandboxConfig;
use crate::linux::child_setup::ChildPlan;
use crate::linux::launch::{fits_or_faults, HostFacts};
use crate::linux::mount::MountError;
use crate::linux::seccomp::{sock_filter, Arch};
use crate::outcome::ExitReason;
use vstd::prelude::*;

verus! {

/// A sandbox made of Landlock rules, a seccomp filter, namespaces, mounts and
/// capabilities.
#[derive(Debug)]
pub struct LinuxSandbox {
    /// What is asked of it.
    pub config: SandboxConfig,
}

impl LinuxSandbox {
    /// Builds the filter that reports the denied system calls, where some are
    /// denied.
    pub fn build_bpf_filter(&self, arch: Arch) -> (r: Option<Vec<sock_filter>>)
        ensures
            match r {
                Some(filter) => self.config.seccomp_deny_nrs@.len() > 0 && filter@
                    == launch::notif_filter(arch, self.config.seccomp_deny_nrs@),
                None => self.config.seccomp_deny_nrs@.len() == 0,
            },
    {
        launch::build_bpf_filter(arch, &self.config.seccomp_deny_nrs)
    }

    /// Makes the plan of a child that runs a command on a machine of the given
    /// architecture, or says which path of a mount is missing first.
    pub fn prepare(&self, arch: Arch, spec: &CommandSpec, facts: &HostFacts) -> (r: Result<
        ChildPlan,
        MountError,
    >)
        requires
            facts.mount_probes@.len() == self.config.mount.specs@.len(),
            launch::filters_whole(self.config.seccomp_filter_bytes@),
        ensures
            fits_or_faults(arch, self.config, *spec, *facts, r),
    {
        launch::prepare(arch, &self.config, spec, facts)
    }

    /// Classifies the end of a command by its exit code and error output.
    pub fn classify_exit(&self, exit_code: i32, stderr: &str) -> (r: ExitReason)
        ensures
            r@ == launch::verdict(exit_code, stderr@),
    {
        launch::verdict_on(exit_code, stderr)
    }
}

} // verus!
