# seabox

The policy engine of a sandbox for commands on Linux, written in Verus: its
decisions carry contracts that are proved.

A command that runs in a sandbox is confined by Landlock rules, a seccomp
filter, namespaces, mounts and a capability set. What is asked for is a
`SandboxConfig`; what comes out is the plan of a child process, the order in
which the child takes its restrictions on, and a verdict on how it ended.

| Module | What it holds |
|---|---|
| `config`, `perm`, `capability` | configurations, file system rules, capabilities |
| `command` | the command and its environment |
| `cli` | from options to a configuration and a command, and to an exit status |
| `sandbox` | a configuration made consistent, the plan of a run, its conclusion |
| `linux::launch` | from a configuration to the plan of a child, and verdicts |
| `linux::child_setup` | the steps of a child and what each failure leads to |
| `linux::seccomp` | filters, what they decide, and the listener |
| `linux::landlock` | which rights are handled and which are granted where |
| `linux::caps` | which capabilities are left, and by what steps |
| `linux::mount` | mount calls, and the mount table |
| `linux::namespaces`, `linux::net` | namespaces, probes, the loopback interface |
| `report`, `probe`, `outcome`, `text` | the report, the system call helper, outcomes, texts |

What the library promises as a whole stands in its public proof functions: that
a filter reports exactly the denied system calls, that the program starts only
after every mandatory step succeeded, that nothing is granted that no rule
names, that a reported call is a denial whatever the exit code, that the host
keeps its name and its mounts.

The mandatory steps are the namespaces that are not merely tried, the mounts,
the PID namespace, the working directory, giving up new privileges, the Landlock
ruleset, the filters and handing over the listener. A failure to make the mounts
private, to write the maps of users and groups, to bring up loopback, to set the
host name or to change the bounding or ambient capabilities is passed over, and
so is a final `capset` that is refused with `EPERM`; any other failure of it ends
the child.

The program in `app/` parses the command line, makes the system calls and runs
the child; the decisions come from the library.

| Exit status | Meaning |
|---|---|
| 0 | the command succeeded |
| 125 | the sandbox failed, or the time was up |
| 126 | the sandbox denied something |
| any other | the command's own exit status |
