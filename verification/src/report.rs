//! What the machine offers, as text.

use crate::text;
use vstd::prelude::*;

verus! {

/// The kinds of namespaces in the report.
#[derive(Debug, Clone, Copy, PartialEq, Eq, Structural, Hash)]
pub enum NamespaceType {
    User,
    Ipc,
    Pid,
    Net,
    Uts,
    Cgroup,
}

impl NamespaceType {
    /// The short name of the namespace.
    pub open spec fn label_spec(self) -> &'static str {
        match self {
            NamespaceType::User => "user",
            NamespaceType::Ipc => "ipc",
            NamespaceType::Pid => "pid",
            NamespaceType::Net => "net",
            NamespaceType::Uts => "uts",
            NamespaceType::Cgroup => "cgroup",
        }
    }

    /// The short name of the namespace.
    pub fn label(&self) -> (r: &'static str)
        ensures
            r == self.label_spec(),
    {
        match self {
            NamespaceType::User => "user",
            NamespaceType::Ipc => "ipc",
            NamespaceType::Pid => "pid",
            NamespaceType::Net => "net",
            NamespaceType::Uts => "uts",
            NamespaceType::Cgroup => "cgroup",
        }
    }
}

/// What probes of a Linux system found.
#[derive(Debug, Clone, Copy, PartialEq, Eq)]
pub struct Capabilities {
    /// Whether there is Landlock.
    pub landlock: bool,
    /// The version of Landlock, where it is known.
    pub landlock_abi: Option<i32>,
    /// Whether there is seccomp.
    pub seccomp: bool,
    /// Whether there are user namespaces.
    pub user_ns: bool,
    /// Whether there are IPC namespaces.
    pub ipc_ns: bool,
    /// Whether there are PID namespaces.
    pub pid_ns: bool,
    /// Whether there are network namespaces.
    pub net_ns: bool,
    /// Whether there are UTS namespaces.
    pub uts_ns: bool,
    /// Whether there are cgroup namespaces.
    pub cgroup_ns: bool,
}

/// The word for whether something is there.
pub open spec fn status_spec(there: bool) -> Seq<char> {
    if there {
        "available"@
    } else {
        "not available"@
    }
}

/// The words about Landlock.
pub open spec fn landlock_status(found: Capabilities) -> Seq<char> {
    if found.landlock {
        "available (ABI v"@ + text::signed_decimal(
            match found.landlock_abi {
                Some(abi) => abi as int,
                None => 0,
            },
        ) + ")"@
    } else {
        "not available"@
    }
}

/// The report, with the status of each line.
pub open spec fn report_spec(
    landlock: Seq<char>,
    seccomp: Seq<char>,
    user_ns: Seq<char>,
    ipc_ns: Seq<char>,
    pid_ns: Seq<char>,
    net_ns: Seq<char>,
    uts_ns: Seq<char>,
    cgroup_ns: Seq<char>,
) -> Seq<char> {
    "Capability                    Status\n----------------------------- --------------------\n"@
        + "Landlock                      "@ + landlock + "\nSeccomp                       "@
        + seccomp + "\nUser namespace                "@ + user_ns
        + "\nIPC namespace                 "@ + ipc_ns + "\nPID namespace                 "@ + pid_ns
        + "\nNetwork namespace             "@ + net_ns + "\nUTS namespace                 "@ + uts_ns
        + "\nCgroup namespace              "@ + cgroup_ns + "\n"@
}

/// Each line of the report tells the status of what it names.
pub proof fn lines_tell_their_status(
    landlock: Seq<char>,
    seccomp: Seq<char>,
    user_ns: Seq<char>,
    ipc_ns: Seq<char>,
    pid_ns: Seq<char>,
    net_ns: Seq<char>,
    uts_ns: Seq<char>,
    cgroup_ns: Seq<char>,
)
    ensures
        ({
            let r = report_spec(
                landlock,
                seccomp,
                user_ns,
                ipc_ns,
                pid_ns,
                net_ns,
                uts_ns,
                cgroup_ns,
            );
            &&& text::occurs(r, "\nLandlock                      "@ + landlock + "\n"@)
            &&& text::occurs(r, "\nSeccomp                       "@ + seccomp + "\n"@)
            &&& text::occurs(r, "\nUser namespace                "@ + user_ns + "\n"@)
            &&& text::occurs(r, "\nIPC namespace                 "@ + ipc_ns + "\n"@)
            &&& text::occurs(r, "\nPID namespace                 "@ + pid_ns + "\n"@)
            &&& text::occurs(r, "\nNetwork namespace             "@ + net_ns + "\n"@)
            &&& text::occurs(r, "\nUTS namespace                 "@ + uts_ns + "\n"@)
            &&& text::occurs(r, "\nCgroup namespace              "@ + cgroup_ns + "\n"@)
        }),
{
    lemma_heads_break_the_line();
    let title =
        "Capability                    Status\n----------------------------- --------------------\n"@;
    let plain = "Landlock                      "@;
    let first = "\nLandlock                      "@;
    let b = "\nSeccomp                       "@;
    let c = "\nUser namespace                "@;
    let d = "\nIPC namespace                 "@;
    let e = "\nPID namespace                 "@;
    let f = "\nNetwork namespace             "@;
    let g = "\nUTS namespace                 "@;
    let h = "\nCgroup namespace              "@;
    let n = "\n"@;
    let s0 = title + plain + landlock;
    let s1 = s0 + b + seccomp;
    let s2 = s1 + c + user_ns;
    let s3 = s2 + d + ipc_ns;
    let s4 = s3 + e + pid_ns;
    let s5 = s4 + f + net_ns;
    let s6 = s5 + g + uts_ns;
    let s7 = s6 + h + cgroup_ns;
    let above = title.drop_last();
    assert(title + plain =~= above + first);
    lemma_row(above, first, landlock, b);
    lemma_rows_stay(s0 + b, seccomp, c, first + landlock + n);
    lemma_row(s0, b, seccomp, c);
    lemma_rows_stay(s1 + c, user_ns, d, first + landlock + n);
    lemma_rows_stay(s1 + c, user_ns, d, b + seccomp + n);
    lemma_row(s1, c, user_ns, d);
    lemma_rows_stay(s2 + d, ipc_ns, e, first + landlock + n);
    lemma_rows_stay(s2 + d, ipc_ns, e, b + seccomp + n);
    lemma_rows_stay(s2 + d, ipc_ns, e, c + user_ns + n);
    lemma_row(s2, d, ipc_ns, e);
    lemma_rows_stay(s3 + e, pid_ns, f, first + landlock + n);
    lemma_rows_stay(s3 + e, pid_ns, f, b + seccomp + n);
    lemma_rows_stay(s3 + e, pid_ns, f, c + user_ns + n);
    lemma_rows_stay(s3 + e, pid_ns, f, d + ipc_ns + n);
    lemma_row(s3, e, pid_ns, f);
    lemma_rows_stay(s4 + f, net_ns, g, first + landlock + n);
    lemma_rows_stay(s4 + f, net_ns, g, b + seccomp + n);
    lemma_rows_stay(s4 + f, net_ns, g, c + user_ns + n);
    lemma_rows_stay(s4 + f, net_ns, g, d + ipc_ns + n);
    lemma_rows_stay(s4 + f, net_ns, g, e + pid_ns + n);
    lemma_row(s4, f, net_ns, g);
    lemma_rows_stay(s5 + g, uts_ns, h, first + landlock + n);
    lemma_rows_stay(s5 + g, uts_ns, h, b + seccomp + n);
    lemma_rows_stay(s5 + g, uts_ns, h, c + user_ns + n);
    lemma_rows_stay(s5 + g, uts_ns, h, d + ipc_ns + n);
    lemma_rows_stay(s5 + g, uts_ns, h, e + pid_ns + n);
    lemma_rows_stay(s5 + g, uts_ns, h, f + net_ns + n);
    lemma_row(s5, g, uts_ns, h);
    lemma_rows_stay(s6 + h, cgroup_ns, n, first + landlock + n);
    lemma_rows_stay(s6 + h, cgroup_ns, n, b + seccomp + n);
    lemma_rows_stay(s6 + h, cgroup_ns, n, c + user_ns + n);
    lemma_rows_stay(s6 + h, cgroup_ns, n, d + ipc_ns + n);
    lemma_rows_stay(s6 + h, cgroup_ns, n, e + pid_ns + n);
    lemma_rows_stay(s6 + h, cgroup_ns, n, f + net_ns + n);
    lemma_rows_stay(s6 + h, cgroup_ns, n, g + uts_ns + n);
    lemma_row(s6, h, cgroup_ns, n);
    assert(report_spec(landlock, seccomp, user_ns, ipc_ns, pid_ns, net_ns, uts_ns, cgroup_ns) == s7
        + n);
}

/// The title of the report ends its line, and the words of each row begin one.
proof fn lemma_heads_break_the_line()
    ensures
        ({
            let title =
                "Capability                    Status\n----------------------------- --------------------\n"@;
            let plain = "Landlock                      "@;
            let first = "\nLandlock                      "@;
            title.len() > 0 && title.last() == '\n' && first.len() == plain.len() + 1 && first[0]
                == '\n' && first.skip(1) == plain
        }),
        "\nSeccomp                       "@.len() > 0,
        "\nSeccomp                       "@[0] == '\n',
        "\nUser namespace                "@.len() > 0,
        "\nUser namespace                "@[0] == '\n',
        "\nIPC namespace                 "@.len() > 0,
        "\nIPC namespace                 "@[0] == '\n',
        "\nPID namespace                 "@.len() > 0,
        "\nPID namespace                 "@[0] == '\n',
        "\nNetwork namespace             "@.len() > 0,
        "\nNetwork namespace             "@[0] == '\n',
        "\nUTS namespace                 "@.len() > 0,
        "\nUTS namespace                 "@[0] == '\n',
        "\nCgroup namespace              "@.len() > 0,
        "\nCgroup namespace              "@[0] == '\n',
        "\n"@.len() == 1,
        "\n"@[0] == '\n',
{
    reveal_strlit(
        "Capability                    Status\n----------------------------- --------------------\n",
    );
    reveal_strlit("Landlock                      ");
    reveal_strlit("\nLandlock                      ");
    reveal_strlit("\nSeccomp                       ");
    reveal_strlit("\nUser namespace                ");
    reveal_strlit("\nIPC namespace                 ");
    reveal_strlit("\nPID namespace                 ");
    reveal_strlit("\nNetwork namespace             ");
    reveal_strlit("\nUTS namespace                 ");
    reveal_strlit("\nCgroup namespace              ");
    reveal_strlit("\n");
    assert("\nLandlock                      "@.skip(1) =~= "Landlock                      "@);
}

/// A row is there once the next one begins.
proof fn lemma_row(above: Seq<char>, head: Seq<char>, status: Seq<char>, next: Seq<char>)
    requires
        next.len() > 0,
        next[0] == '\n',
        "\n"@.len() == 1,
        "\n"@[0] == '\n',
    ensures
        text::occurs(above + head + status + next, head + status + "\n"@),
{
    let row = head + status + "\n"@;
    assert(above + head + status + next =~= above + row + next.skip(1));
    text::texts_hold_their_parts(above, row, next.skip(1));
}

/// A row stays where more is written behind it.
proof fn lemma_rows_stay(above: Seq<char>, status: Seq<char>, next: Seq<char>, row: Seq<char>)
    requires
        text::occurs(above, row),
    ensures
        text::occurs(above + status + next, row),
{
    text::occurrences_are_parts(above, row);
    let (x, y) = choose|x: Seq<char>, y: Seq<char>| above == #[trigger] (x + row + y);
    assert(above + status + next =~= x + row + (y + status + next));
    text::texts_hold_their_parts(x, row, y + status + next);
}

/// What is there is told as available and what is not as not available; of
/// Landlock the version is told too.
pub proof fn statuses_tell_what_is_there(found: Capabilities)
    ensures
        status_spec(true) == "available"@,
        status_spec(false) == "not available"@,
        !found.landlock ==> landlock_status(found) == "not available"@,
        found.landlock && found.landlock_abi is Some ==> landlock_status(found)
            == "available (ABI v"@ + text::signed_decimal(found.landlock_abi->0 as int) + ")"@,
        found.landlock && found.landlock_abi is None ==> landlock_status(found)
            == "available (ABI v"@ + text::signed_decimal(0) + ")"@,
{
}

/// The short names of the namespaces.
pub proof fn namespace_labels()
    ensures
        NamespaceType::User.label_spec() == "user",
        NamespaceType::Ipc.label_spec() == "ipc",
        NamespaceType::Pid.label_spec() == "pid",
        NamespaceType::Net.label_spec() == "net",
        NamespaceType::Uts.label_spec() == "uts",
        NamespaceType::Cgroup.label_spec() == "cgroup",
{
}

/// The status of every line on a system that is not Linux.
pub open spec fn foreign_status() -> &'static str {
    "not available (non-Linux)"
}

fn status(there: bool) -> (r: &'static str)
    ensures
        r@ == status_spec(there),
{
    if there {
        "available"
    } else {
        "not available"
    }
}

fn write_report(
    landlock: &str,
    seccomp: &str,
    user_ns: &str,
    ipc_ns: &str,
    pid_ns: &str,
    net_ns: &str,
    uts_ns: &str,
    cgroup_ns: &str,
) -> (r: String)
    ensures
        r@ == report_spec(
            landlock@,
            seccomp@,
            user_ns@,
            ipc_ns@,
            pid_ns@,
            net_ns@,
            uts_ns@,
            cgroup_ns@,
        ),
{
    let mut out =
        "Capability                    Status\n----------------------------- --------------------\n".to_owned();
    out.append("Landlock                      ");
    out.append(landlock);
    out.append("\nSeccomp                       ");
    out.append(seccomp);
    out.append("\nUser namespace                ");
    out.append(user_ns);
    out.append("\nIPC namespace                 ");
    out.append(ipc_ns);
    out.append("\nPID namespace                 ");
    out.append(pid_ns);
    out.append("\nNetwork namespace             ");
    out.append(net_ns);
    out.append("\nUTS namespace                 ");
    out.append(uts_ns);
    out.append("\nCgroup namespace              ");
    out.append(cgroup_ns);
    out.append("\n");
    out
}

/// The report on what a system offers.
pub open spec fn report_on(found: Option<Capabilities>) -> Seq<char> {
    match found {
        Some(found) => report_spec(
            landlock_status(found),
            status_spec(found.seccomp),
            status_spec(found.user_ns),
            status_spec(found.ipc_ns),
            status_spec(found.pid_ns),
            status_spec(found.net_ns),
            status_spec(found.uts_ns),
            status_spec(found.cgroup_ns),
        ),
        None => report_spec(
            foreign_status()@,
            foreign_status()@,
            foreign_status()@,
            foreign_status()@,
            foreign_status()@,
            foreign_status()@,
            foreign_status()@,
            foreign_status()@,
        ),
    }
}

/// The report has a line for everything that is looked for, which tells whether
/// it is there; of a system that is not Linux it says so.
pub proof fn report_tells_what_was_found(found: Capabilities)
    ensures
        ({
            let r = report_on(Some(found));
            &&& text::occurs(
                r,
                "\nLandlock                      "@ + landlock_status(found) + "\n"@,
            )
            &&& text::occurs(
                r,
                "\nSeccomp                       "@ + status_spec(found.seccomp) + "\n"@,
            )
            &&& text::occurs(
                r,
                "\nUser namespace                "@ + status_spec(found.user_ns) + "\n"@,
            )
            &&& text::occurs(
                r,
                "\nIPC namespace                 "@ + status_spec(found.ipc_ns) + "\n"@,
            )
            &&& text::occurs(
                r,
                "\nPID namespace                 "@ + status_spec(found.pid_ns) + "\n"@,
            )
            &&& text::occurs(
                r,
                "\nNetwork namespace             "@ + status_spec(found.net_ns) + "\n"@,
            )
            &&& text::occurs(
                r,
                "\nUTS namespace                 "@ + status_spec(found.uts_ns) + "\n"@,
            )
            &&& text::occurs(
                r,
                "\nCgroup namespace              "@ + status_spec(found.cgroup_ns) + "\n"@,
            )
        }),
        text::occurs(
            report_on(None),
            "\nLandlock                      "@ + "not available (non-Linux)"@ + "\n"@,
        ),
{
    lines_tell_their_status(
        landlock_status(found),
        status_spec(found.seccomp),
        status_spec(found.user_ns),
        status_spec(found.ipc_ns),
        status_spec(found.pid_ns),
        status_spec(found.net_ns),
        status_spec(found.uts_ns),
        status_spec(found.cgroup_ns),
    );
    let none = foreign_status()@;
    lines_tell_their_status(none, none, none, none, none, none, none, none);
}

/// The report on what a system offers; `None` for one that is not Linux.
pub fn check_capabilities(found: Option<Capabilities>) -> (r: String)
    ensures
        r@ == report_on(found),
        r@ == match found {
            Some(found) => report_spec(
                landlock_status(found),
                status_spec(found.seccomp),
                status_spec(found.user_ns),
                status_spec(found.ipc_ns),
                status_spec(found.pid_ns),
                status_spec(found.net_ns),
                status_spec(found.uts_ns),
                status_spec(found.cgroup_ns),
            ),
            None => report_spec(
                foreign_status()@,
                foreign_status()@,
                foreign_status()@,
                foreign_status()@,
                foreign_status()@,
                foreign_status()@,
                foreign_status()@,
                foreign_status()@,
            ),
        },
{
    match found {
        Some(found) => {
            let landlock = if found.landlock {
                let mut words = "available (ABI v".to_owned();
                let abi: i32 = match found.landlock_abi {
                    Some(abi) => abi,
                    None => 0,
                };
                text::push_signed(&mut words, abi);
                words.append(")");
                words
            } else {
                "not available".to_owned()
            };
            write_report(
                landlock.as_str(),
                status(found.seccomp),
                status(found.user_ns),
                status(found.ipc_ns),
                status(found.pid_ns),
                status(found.net_ns),
                status(found.uts_ns),
                status(found.cgroup_ns),
            )
        },
        None => {
            let none = "not available (non-Linux)";
            write_report(none, none, none, none, none, none, none, none)
        },
    }
}

} // verus!
