//! What a forked child does before it becomes the sandboxed program.
//!
//! The parent lists the steps before it forks. The child carries them out one
//! by one and asks after each what comes next; nothing here uses the heap
//! after the list is made.

use crate::capability::CAP_LAST_CAP;
use crate::linux::caps::{
    apply_caps, bounding_steps, cap_step_survives, cap_steps, survives, CapStep, ResolvedCaps,
    CAP_F_NEED_BOUNDING, CAP_F_NEED_CAPSET,
};
use crate::linux::errno::EPERM;
use crate::linux::mount::RawMountOp;
use crate::linux::namespaces::{exit_code, exit_code_of, CLONE_NEWUSER};
use crate::linux::seccomp::sock_filter;
use vstd::prelude::*;

verus! {

/// One call of `unshare(2)`.
#[derive(Debug, Clone, Copy, PartialEq, Eq, Structural)]
pub struct NsOp {
    /// Its flag.
    pub flag: i32,
    /// Whether a failure is passed over: zero for no.
    pub try_mode: i32,
}

/// A filter of the caller.
#[derive(Debug, Clone)]
pub struct ExtFilterDesc {
    /// Its instructions.
    pub data: Vec<sock_filter>,
}

/// Everything that a child is told.
#[derive(Debug, Clone)]
pub struct ChildPlan {
    /// The program file.
    pub exec_path: String,
    /// The arguments of the program, its name first.
    pub argv: Vec<String>,
    /// The environment of the program, as `KEY=value`.
    pub envp: Vec<String>,
    /// Its working directory.
    pub cwd: String,
    /// Whether there is a Landlock ruleset to take on.
    pub has_ruleset: bool,
    /// The filter that reports to the listener; empty for none.
    pub bpf_filter: Vec<sock_filter>,
    /// The filters of the caller.
    pub ext_filters: Vec<ExtFilterDesc>,
    /// The namespaces other than the PID namespace.
    pub ns_ops: Vec<NsOp>,
    /// Whether there is a PID namespace.
    pub need_pid_reaper: bool,
    /// Whether a user namespace is certain.
    pub user_ns_active: bool,
    /// Content of the user map.
    pub uid_map: String,
    /// Content of the group map.
    pub gid_map: String,
    /// The host name; empty for none.
    pub hostname: String,
    /// Whether to bring up the loopback interface.
    pub configure_lo: bool,
    /// The mounts.
    pub mount_ops: Vec<RawMountOp>,
    /// Whether to cut the mount tree off first.
    pub do_private: bool,
    /// The capabilities.
    pub caps: ResolvedCaps,
}

/// One step of a child.
#[derive(Debug, Clone, Copy, PartialEq, Eq, Structural)]
pub enum ChildStep {
    /// Call `unshare(2)`.
    Unshare(NsOp),
    /// Cut the mount tree off.
    MakePrivate,
    /// Carry out the mount with this index.
    Mount { index: usize },
    /// Enter a PID namespace by way of two forks; the process that goes on is
    /// the second child, and the first one reaps.
    PidNamespace,
    /// Change to the working directory.
    Chdir,
    /// Give up the right to new privileges.
    NoNewPrivs,
    /// Write the user and group maps.
    IdMaps,
    /// Bring up the loopback interface.
    Loopback,
    /// Set the host name.
    Hostname,
    /// Take on the Landlock ruleset.
    Landlock,
    /// Take one step towards the wanted capabilities.
    Cap(CapStep),
    /// Install the filter that reports to the listener.
    NotifFilter,
    /// Hand the listener to the parent.
    SendListener,
    /// Install the caller's filter with this index.
    PlainFilter { index: usize },
    /// Become the program.
    Exec,
}

/// The steps for the namespaces.
pub open spec fn ns_steps(ops: Seq<NsOp>) -> Seq<ChildStep> {
    ops.map_values(|op: NsOp| ChildStep::Unshare(op))
}

/// The steps for the mounts.
pub open spec fn mount_steps(count: nat) -> Seq<ChildStep> {
    Seq::new(count, |i: int| ChildStep::Mount { index: i as usize })
}

/// One step, where it is wanted.
pub open spec fn step_if(wanted: bool, step: ChildStep) -> Seq<ChildStep> {
    if wanted {
        seq![step]
    } else {
        Seq::empty()
    }
}

/// The steps for the capabilities.
pub open spec fn caps_steps(caps: ResolvedCaps) -> Seq<ChildStep> {
    if caps.flags != 0 {
        cap_steps(caps.requested, caps.flags).map_values(|step: CapStep| ChildStep::Cap(step))
    } else {
        Seq::empty()
    }
}

/// The steps for the first `upto` filters of the caller; an empty filter is
/// passed over.
pub open spec fn plain_steps(filters: Seq<ExtFilterDesc>, upto: nat) -> Seq<ChildStep>
    decreases upto,
{
    if upto == 0 {
        Seq::empty()
    } else {
        plain_steps(filters, (upto - 1) as nat) + step_if(
            filters[upto - 1].data@.len() > 0,
            ChildStep::PlainFilter { index: (upto - 1) as usize },
        )
    }
}

/// The steps up to the point where privileges are given up.
pub open spec fn early_steps(plan: ChildPlan) -> Seq<ChildStep> {
    ns_steps(plan.ns_ops@) + step_if(plan.do_private, ChildStep::MakePrivate) + mount_steps(
        plan.mount_ops@.len(),
    ) + step_if(plan.need_pid_reaper, ChildStep::PidNamespace) + seq![ChildStep::Chdir]
}

/// The steps between the giving up of privileges and the filters.
pub open spec fn middle_steps(plan: ChildPlan) -> Seq<ChildStep> {
    step_if(plan.uid_map@.len() > 0 && plan.gid_map@.len() > 0, ChildStep::IdMaps) + step_if(
        plan.configure_lo,
        ChildStep::Loopback,
    ) + step_if(plan.hostname@.len() > 0, ChildStep::Hostname) + step_if(
        plan.has_ruleset,
        ChildStep::Landlock,
    ) + caps_steps(plan.caps)
}

/// The steps for the filters.
pub open spec fn filter_steps(plan: ChildPlan) -> Seq<ChildStep> {
    step_if(plan.bpf_filter@.len() > 0, ChildStep::NotifFilter) + step_if(
        plan.bpf_filter@.len() > 0,
        ChildStep::SendListener,
    ) + plain_steps(plan.ext_filters@, plan.ext_filters@.len())
}

/// The steps of a child, in order.
pub open spec fn child_steps(plan: ChildPlan) -> Seq<ChildStep> {
    early_steps(plan) + seq![ChildStep::NoNewPrivs] + middle_steps(plan) + filter_steps(plan)
        + seq![ChildStep::Exec]
}

fn push_if(steps: &mut Vec<ChildStep>, wanted: bool, step: ChildStep)
    ensures
        final(steps)@ == old(steps)@ + step_if(wanted, step),
{
    let ghost before = steps@;
    if wanted {
        steps.push(step);
    }
    assert(steps@ =~= before + step_if(wanted, step));
}

fn list_early(plan: &ChildPlan) -> (steps: Vec<ChildStep>)
    ensures
        steps@ == early_steps(*plan),
{
    let mut steps: Vec<ChildStep> = Vec::new();
    let mut i: usize = 0;
    while i < plan.ns_ops.len()
        invariant
            i <= plan.ns_ops@.len(),
            steps@ == ns_steps(plan.ns_ops@.take(i as int)),
        decreases plan.ns_ops.len() - i,
    {
        steps.push(ChildStep::Unshare(plan.ns_ops[i]));
        i += 1;
        assert(steps@ =~= ns_steps(plan.ns_ops@.take(i as int)));
    }
    assert(plan.ns_ops@.take(i as int) =~= plan.ns_ops@);
    push_if(&mut steps, plan.do_private, ChildStep::MakePrivate);
    let ghost head = steps@;
    let mut k: usize = 0;
    assert(steps@ =~= head + mount_steps(0));
    while k < plan.mount_ops.len()
        invariant
            k <= plan.mount_ops@.len(),
            steps@ == head + mount_steps(k as nat),
        decreases plan.mount_ops.len() - k,
    {
        steps.push(ChildStep::Mount { index: k });
        k += 1;
        assert(steps@ =~= head + mount_steps(k as nat));
    }
    push_if(&mut steps, plan.need_pid_reaper, ChildStep::PidNamespace);
    let ghost before = steps@;
    steps.push(ChildStep::Chdir);
    assert(steps@ =~= before + seq![ChildStep::Chdir]);
    steps
}

proof fn lemma_assoc(a: Seq<ChildStep>, b: Seq<ChildStep>, c: Seq<ChildStep>)
    ensures
        a + b + c == a + (b + c),
{
    assert(a + b + c =~= a + (b + c));
}

fn add_caps(steps: &mut Vec<ChildStep>, caps: ResolvedCaps)
    ensures
        final(steps)@ == old(steps)@ + caps_steps(caps),
{
    let ghost head = steps@;
    if caps.flags != 0 {
        let list = apply_caps(caps.requested, caps.flags);
        let ghost whole = caps_steps(caps);
        let mut i: usize = 0;
        assert(steps@ =~= head + whole.take(0));
        while i < list.len()
            invariant
                i <= list@.len() == whole.len(),
                whole == list@.map_values(|step: CapStep| ChildStep::Cap(step)),
                steps@ == head + whole.take(i as int),
            decreases list.len() - i,
        {
            steps.push(ChildStep::Cap(list[i]));
            i += 1;
            assert(steps@ =~= head + whole.take(i as int));
        }
        assert(whole.take(i as int) =~= whole);
    } else {
        assert(steps@ =~= head + caps_steps(caps));
    }
}

fn add_middle(steps: &mut Vec<ChildStep>, plan: &ChildPlan)
    ensures
        final(steps)@ == old(steps)@ + middle_steps(*plan),
{
    let ghost start = steps@;
    let ghost maps = step_if(
        plan.uid_map@.len() > 0 && plan.gid_map@.len() > 0,
        ChildStep::IdMaps,
    );
    let ghost lo = step_if(plan.configure_lo, ChildStep::Loopback);
    let ghost host = step_if(plan.hostname@.len() > 0, ChildStep::Hostname);
    let ghost rules = step_if(plan.has_ruleset, ChildStep::Landlock);
    push_if(
        steps,
        !plan.uid_map.as_str().is_empty() && !plan.gid_map.as_str().is_empty(),
        ChildStep::IdMaps,
    );
    push_if(steps, plan.configure_lo, ChildStep::Loopback);
    push_if(steps, !plan.hostname.as_str().is_empty(), ChildStep::Hostname);
    push_if(steps, plan.has_ruleset, ChildStep::Landlock);
    add_caps(steps, plan.caps);
    proof {
        lemma_assoc(start, maps, lo);
        lemma_assoc(start, maps + lo, host);
        lemma_assoc(start, maps + lo + host, rules);
        lemma_assoc(start, maps + lo + host + rules, caps_steps(plan.caps));
    }
}

fn add_filters(steps: &mut Vec<ChildStep>, plan: &ChildPlan)
    ensures
        final(steps)@ == old(steps)@ + filter_steps(*plan),
{
    let ghost start = steps@;
    push_if(steps, plan.bpf_filter.len() > 0, ChildStep::NotifFilter);
    push_if(steps, plan.bpf_filter.len() > 0, ChildStep::SendListener);
    let ghost head = steps@;
    let mut i: usize = 0;
    assert(steps@ =~= head + plain_steps(plan.ext_filters@, 0));
    while i < plan.ext_filters.len()
        invariant
            i <= plan.ext_filters@.len(),
            steps@ == head + plain_steps(plan.ext_filters@, i as nat),
        decreases plan.ext_filters.len() - i,
    {
        push_if(
            steps,
            plan.ext_filters[i].data.len() > 0,
            ChildStep::PlainFilter { index: i },
        );
        i += 1;
        assert(steps@ =~= head + plain_steps(plan.ext_filters@, i as nat));
    }
    assert(steps@ =~= start + filter_steps(*plan));
}

/// Lists the steps of a child.
pub fn list_steps(plan: &ChildPlan) -> (r: Vec<ChildStep>)
    ensures
        r@ == child_steps(*plan),
{
    let mut steps = list_early(plan);
    steps.push(ChildStep::NoNewPrivs);
    add_middle(&mut steps, plan);
    add_filters(&mut steps, plan);
    steps.push(ChildStep::Exec);
    assert(steps@ =~= child_steps(*plan));
    steps
}

/// The exit code with which a child ends after a step that ended with `errno`,
/// zero for success; none where it goes on.
pub open spec fn ends_with(step: ChildStep, errno: i32) -> Option<i32> {
    match step {
        ChildStep::Exec => Some(127),
        ChildStep::Unshare(op) => if errno != 0 && op.try_mode == 0 {
            Some(1)
        } else {
            None
        },
        ChildStep::MakePrivate | ChildStep::IdMaps | ChildStep::Loopback | ChildStep::Hostname => None,
        ChildStep::Cap(cap) => if errno != 0 && !survives(cap, errno) {
            Some(1)
        } else {
            None
        },
        _ => if errno != 0 {
            Some(1)
        } else {
            None
        },
    }
}

/// The exit code with which a child ends after a step.
pub fn step_exit_code(step: ChildStep, errno: i32) -> (r: Option<i32>)
    ensures
        r == ends_with(step, errno),
{
    match step {
        ChildStep::Exec => Some(127),
        ChildStep::Unshare(op) => if errno != 0 && op.try_mode == 0 {
            Some(1)
        } else {
            None
        },
        ChildStep::MakePrivate | ChildStep::IdMaps | ChildStep::Loopback | ChildStep::Hostname => None,
        ChildStep::Cap(cap) => if errno != 0 && !cap_step_survives(cap, errno) {
            Some(1)
        } else {
            None
        },
        _ => if errno != 0 {
            Some(1)
        } else {
            None
        },
    }
}

/// Whether a step entered a user namespace.
pub open spec fn enters_user_ns(step: ChildStep, errno: i32) -> bool {
    step matches ChildStep::Unshare(op) && errno == 0 && op.flag & CLONE_NEWUSER != 0
}

/// What a child does next.
#[derive(Debug, Clone, Copy, PartialEq, Eq, Structural)]
pub enum ChildAction {
    /// Carry out the step with this index.
    Do { index: usize, step: ChildStep },
    /// End with this exit code.
    Exit { code: i32 },
}

/// The step from index `i` on that a child carries out. The maps are written
/// only inside a user namespace.
pub open spec fn next_from(steps: Seq<ChildStep>, i: int, user_ns_active: bool) -> ChildAction
    decreases steps.len() - i,
{
    if i < 0 || i >= steps.len() {
        ChildAction::Exit { code: 127 }
    } else if steps[i] is IdMaps && !user_ns_active {
        next_from(steps, i + 1, user_ns_active)
    } else {
        ChildAction::Do { index: i as usize, step: steps[i] }
    }
}

/// How far a child has come.
#[derive(Debug, Clone, Copy, PartialEq, Eq, Structural)]
pub struct ChildRun {
    /// The step that was handed out last.
    pub doing: Option<usize>,
    /// Whether the child is in a user namespace.
    pub user_ns_active: bool,
}

impl ChildRun {
    /// A child that has done nothing yet.
    pub fn new(plan: &ChildPlan) -> (r: ChildRun)
        ensures
            r == (ChildRun { doing: None, user_ns_active: plan.user_ns_active }),
    {
        ChildRun { doing: None, user_ns_active: plan.user_ns_active }
    }

    /// Whether the child is in a user namespace after the step in hand ended
    /// with `errno`.
    pub open spec fn active_after(self, steps: Seq<ChildStep>, errno: i32) -> bool {
        self.user_ns_active || (self.doing matches Some(i) && enters_user_ns(
            steps[i as int],
            errno,
        ))
    }

    /// What the child does after the step in hand ended with `errno`.
    pub open spec fn action_after(self, steps: Seq<ChildStep>, errno: i32) -> ChildAction {
        match self.doing {
            None => next_from(steps, 0, self.user_ns_active),
            Some(i) => match ends_with(steps[i as int], errno) {
                Some(code) => ChildAction::Exit { code },
                None => next_from(steps, i + 1, self.active_after(steps, errno)),
            },
        }
    }
}

fn find_next(steps: &Vec<ChildStep>, from: usize, user_ns_active: bool) -> (r: ChildAction)
    requires
        from <= steps@.len(),
    ensures
        r == next_from(steps@, from as int, user_ns_active),
        r matches ChildAction::Do { index, .. } ==> index < steps@.len(),
{
    let mut i: usize = from;
    while i < steps.len()
        invariant
            from <= i <= steps@.len(),
            next_from(steps@, from as int, user_ns_active) == next_from(
                steps@,
                i as int,
                user_ns_active,
            ),
        decreases steps.len() - i,
    {
        let skipped = matches!(steps[i], ChildStep::IdMaps) && !user_ns_active;
        if !skipped {
            return ChildAction::Do { index: i, step: steps[i] };
        }
        i += 1;
    }
    ChildAction::Exit { code: 127 }
}

/// Says what a child does after the step in hand ended with `errno`, zero for
/// success; at the start there is no step in hand.
pub fn enter_child(run: &mut ChildRun, steps: &Vec<ChildStep>, errno: i32) -> (action: ChildAction)
    requires
        old(run).doing matches Some(i) ==> i < steps@.len(),
    ensures
        action == old(run).action_after(steps@, errno),
        final(run).user_ns_active == old(run).active_after(steps@, errno),
        match action {
            ChildAction::Do { index, .. } => index < steps@.len() && final(run).doing == Some(index),
            ChildAction::Exit { .. } => final(run).doing == old(run).doing,
        },
{
    let count: usize = steps.len();
    let from: usize = match run.doing {
        None => 0,
        Some(i) => {
            let step = steps[i];
            if let ChildStep::Unshare(op) = step {
                if errno == 0 && op.flag & CLONE_NEWUSER != 0 {
                    run.user_ns_active = true;
                }
            }
            match step_exit_code(step, errno) {
                Some(code) => {
                    return ChildAction::Exit { code };
                },
                None => {},
            }
            assert(i < count);
            i + 1
        },
    };
    let action = find_next(steps, from, run.user_ns_active);
    if let ChildAction::Do { index, .. } = action {
        run.doing = Some(index);
    }
    action
}

/// Whether a child is in a user namespace before step `i`, where the steps end
/// with `results`.
pub open spec fn active_at(
    steps: Seq<ChildStep>,
    results: Seq<i32>,
    active: bool,
    i: int,
) -> bool
    decreases i,
{
    if i <= 0 {
        active
    } else {
        active_at(steps, results, active, i - 1) || enters_user_ns(steps[i - 1], results[i - 1])
    }
}

/// Whether step `i` is left out.
pub open spec fn left_out(
    steps: Seq<ChildStep>,
    results: Seq<i32>,
    active: bool,
    i: int,
) -> bool {
    steps[i] is IdMaps && !active_at(steps, results, active, i)
}

/// Whether a child comes as far as step `i`, where the steps end with
/// `results`.
pub open spec fn reaches(
    steps: Seq<ChildStep>,
    results: Seq<i32>,
    active: bool,
    i: int,
) -> bool
    decreases i,
{
    if i <= 0 {
        true
    } else {
        reaches(steps, results, active, i - 1) && (left_out(steps, results, active, i - 1)
            || ends_with(steps[i - 1], results[i - 1]) is None)
    }
}

proof fn lemma_skips(
    steps: Seq<ChildStep>,
    results: Seq<i32>,
    active: bool,
    from: int,
    index: usize,
    step: ChildStep,
)
    requires
        0 <= from <= steps.len() <= usize::MAX,
        reaches(steps, results, active, from),
        next_from(steps, from, active_at(steps, results, active, from)) == (ChildAction::Do {
            index,
            step,
        }),
    ensures
        from <= index < steps.len(),
        step == steps[index as int],
        reaches(steps, results, active, index as int),
        !left_out(steps, results, active, index as int),
    decreases steps.len() - from,
{
    if from < steps.len() && steps[from] is IdMaps && !active_at(steps, results, active, from) {
        lemma_skips(steps, results, active, from + 1, index, step);
    }
}

/// A step that is handed out at the start is one that the child reaches.
pub proof fn first_step_is_reached(
    steps: Seq<ChildStep>,
    results: Seq<i32>,
    run: ChildRun,
    errno: i32,
    index: usize,
    step: ChildStep,
)
    requires
        steps.len() <= usize::MAX,
        run.doing is None,
        run.action_after(steps, errno) == (ChildAction::Do { index, step }),
    ensures
        step == steps[index as int],
        reaches(steps, results, run.user_ns_active, index as int),
{
    lemma_skips(steps, results, run.user_ns_active, 0, index, step);
}

/// A step that is handed out after one that the child reaches is itself one
/// that it reaches, and the state of the run stays what the results make it.
pub proof fn next_step_is_reached(
    steps: Seq<ChildStep>,
    results: Seq<i32>,
    active: bool,
    run: ChildRun,
    index: usize,
    step: ChildStep,
)
    requires
        steps.len() <= usize::MAX,
        results.len() == steps.len(),
        run.doing matches Some(i) && i < steps.len() && reaches(steps, results, active, i as int)
            && run.user_ns_active == active_at(steps, results, active, i as int)
            && run.action_after(steps, results[i as int]) == (ChildAction::Do { index, step }),
    ensures
        step == steps[index as int],
        reaches(steps, results, active, index as int),
        run.active_after(steps, results[run.doing->0 as int]) == active_at(
            steps,
            results,
            active,
            run.doing->0 + 1,
        ),
{
    let i = run.doing->0 as int;
    lemma_skips(steps, results, active, i + 1, index, step);
}

/// A child that comes as far as step `n` has left nothing behind that should
/// have ended it: each earlier step was left out or went on.
pub proof fn earlier_steps_went_on(
    steps: Seq<ChildStep>,
    results: Seq<i32>,
    active: bool,
    n: int,
    i: int,
)
    requires
        0 <= i < n <= steps.len(),
        reaches(steps, results, active, n),
    ensures
        left_out(steps, results, active, i) || ends_with(steps[i], results[i]) is None,
        reaches(steps, results, active, i),
    decreases n,
{
    if i < n - 1 {
        earlier_steps_went_on(steps, results, active, n - 1, i);
    }
}

/// Whether a step that fails always ends the child.
pub open spec fn mandatory(step: ChildStep) -> bool {
    match step {
        ChildStep::Unshare(op) => op.try_mode == 0,
        ChildStep::Mount { .. } | ChildStep::PidNamespace | ChildStep::Chdir
        | ChildStep::NoNewPrivs | ChildStep::Landlock | ChildStep::NotifFilter
        | ChildStep::SendListener | ChildStep::PlainFilter { .. } => true,
        _ => false,
    }
}

/// The program is started only where every mandatory step succeeded.
pub proof fn program_starts_only_when_confined(
    plan: ChildPlan,
    results: Seq<i32>,
    active: bool,
    i: int,
)
    requires
        results.len() == child_steps(plan).len(),
        0 <= i < child_steps(plan).len() - 1,
        reaches(child_steps(plan), results, active, child_steps(plan).len() - 1),
        mandatory(child_steps(plan)[i]),
    ensures
        child_steps(plan).last() == ChildStep::Exec,
        results[i] == 0,
{
    let steps = child_steps(plan);
    earlier_steps_went_on(steps, results, active, steps.len() - 1, i);
}

/// The program is started only where setting the capabilities succeeded, or was
/// refused for want of the right to set them.
pub proof fn program_starts_only_with_capabilities_set(
    plan: ChildPlan,
    results: Seq<i32>,
    active: bool,
    mask: u64,
    i: int,
)
    requires
        results.len() == child_steps(plan).len(),
        0 <= i < child_steps(plan).len() - 1,
        reaches(child_steps(plan), results, active, child_steps(plan).len() - 1),
        child_steps(plan)[i] == ChildStep::Cap(CapStep::Capset { mask }),
    ensures
        results[i] == 0 || results[i] == EPERM,
{
    let steps = child_steps(plan);
    earlier_steps_went_on(steps, results, active, steps.len() - 1, i);
}

/// The mandatory steps are the namespaces that are not merely tried, the mounts,
/// the PID namespace, the working directory, the giving up of privileges, the
/// ruleset, the filters and the handing over of the listener.
pub proof fn mandatory_steps(step: ChildStep)
    ensures
        mandatory(step) <==> step is Mount || step is PidNamespace || step is Chdir
            || step is NoNewPrivs || step is Landlock || step is NotifFilter || step is SendListener
            || step is PlainFilter || (step matches ChildStep::Unshare(op) && op.try_mode == 0),
        confines(step) <==> step is Landlock || step is NotifFilter || step is PlainFilter,
{
}

/// A child begins with its first step and goes on from each step that does not
/// end it to the next one; only the maps are passed over, outside a user
/// namespace. A step that ends it is followed by none.
pub proof fn steps_follow_each_other(steps: Seq<ChildStep>, run: ChildRun, errno: i32)
    requires
        steps.len() <= usize::MAX,
        run.doing matches Some(i) ==> i < steps.len(),
    ensures
        run.doing is None && steps.len() > 0 && !(steps[0] is IdMaps) ==> run.action_after(
            steps,
            errno,
        ) == (ChildAction::Do { index: 0, step: steps[0] }),
        run.doing matches Some(i) ==> {
            let inside = run.user_ns_active || enters_user_ns(steps[i as int], errno);
            &&& ends_with(steps[i as int], errno) matches Some(code) ==> run.action_after(
                steps,
                errno,
            ) == (ChildAction::Exit { code })
            &&& ends_with(steps[i as int], errno) is None && i + 1 < steps.len() && (!(steps[i
                + 1] is IdMaps) || inside) ==> run.action_after(steps, errno) == (ChildAction::Do {
                index: (i + 1) as usize,
                step: steps[i + 1],
            })
            &&& ends_with(steps[i as int], errno) is None && i + 2 < steps.len() && steps[i
                + 1] is IdMaps && !(steps[i + 2] is IdMaps) && !inside ==> run.action_after(
                steps,
                errno,
            ) == (ChildAction::Do { index: (i + 2) as usize, step: steps[i + 2] })
        },
{
    if let Some(i) = run.doing {
        reveal_with_fuel(next_from, 3);
    }
}

/// A child is inside a user namespace once it has entered one, and stays inside;
/// nothing but a successful call for a user namespace takes it in.
pub proof fn user_namespaces_are_entered(step: ChildStep, errno: i32)
    ensures
        errno != 0 ==> !enters_user_ns(step, errno),
        !(step is Unshare) ==> !enters_user_ns(step, errno),
        enters_user_ns(ChildStep::Unshare(NsOp { flag: 0x1000_0000, try_mode: 0 }), 0),
        enters_user_ns(ChildStep::Unshare(NsOp { flag: 0x1000_0000, try_mode: 1 }), 0),
        step matches ChildStep::Unshare(op) && (op.flag == 0x0002_0000 || op.flag == 0x0200_0000
            || op.flag == 0x0400_0000 || op.flag == 0x0800_0000 || op.flag == 0x4000_0000)
            ==> !enters_user_ns(step, errno),
{
    assert(0x1000_0000i32 & 0x1000_0000i32 != 0 && 0x0002_0000i32 & 0x1000_0000i32 == 0
        && 0x0200_0000i32 & 0x1000_0000i32 == 0 && 0x0400_0000i32 & 0x1000_0000i32 == 0
        && 0x0800_0000i32 & 0x1000_0000i32 == 0 && 0x4000_0000i32 & 0x1000_0000i32 == 0)
        by (bit_vector);
}

proof fn lemma_privileges_at(plan: ChildPlan)
    ensures
        early_steps(plan).len() < child_steps(plan).len(),
        child_steps(plan)[early_steps(plan).len() as int] == ChildStep::NoNewPrivs,
{
    let steps = child_steps(plan);
    let head = early_steps(plan) + seq![ChildStep::NoNewPrivs];
    let at = early_steps(plan).len() as int;
    assert(head[at] == ChildStep::NoNewPrivs);
    let tail = head + middle_steps(plan);
    assert(tail[at] == head[at]);
    let more = tail + filter_steps(plan);
    assert(more[at] == tail[at]);
    assert(steps[at] == more[at]);
}

/// Whether a step takes on the ruleset or a filter, which the kernel grants
/// only to a process that has given up new privileges.
pub open spec fn confines(step: ChildStep) -> bool {
    step is Landlock || step is NotifFilter || step is PlainFilter
}

proof fn lemma_early_do_not_confine(plan: ChildPlan, i: int)
    requires
        0 <= i < early_steps(plan).len(),
    ensures
        !confines(early_steps(plan)[i]),
        !(early_steps(plan)[i] is Exec),
{
    let ns = ns_steps(plan.ns_ops@);
    let private = step_if(plan.do_private, ChildStep::MakePrivate);
    let mounts = mount_steps(plan.mount_ops@.len());
    let pid = step_if(plan.need_pid_reaper, ChildStep::PidNamespace);
    let all = early_steps(plan);
    if i < ns.len() {
        assert(all[i] == ns[i]);
    } else if i < ns.len() + private.len() {
        assert(all[i] == private[i - ns.len()]);
    } else if i < ns.len() + private.len() + mounts.len() {
        assert(all[i] == mounts[i - ns.len() - private.len()]);
    } else if i < ns.len() + private.len() + mounts.len() + pid.len() {
        assert(all[i] == pid[i - ns.len() - private.len() - mounts.len()]);
    } else {
        assert(all[i] == ChildStep::Chdir);
    }
}

/// The right to new privileges is given up before the ruleset or any filter is
/// taken on.
pub proof fn privileges_go_first(plan: ChildPlan, i: int)
    requires
        0 <= i < child_steps(plan).len(),
        confines(child_steps(plan)[i]),
    ensures
        exists|j: int| 0 <= j < i && #[trigger] child_steps(plan)[j] == ChildStep::NoNewPrivs,
{
    let steps = child_steps(plan);
    let at = early_steps(plan).len() as int;
    lemma_privileges_at(plan);
    if i < at {
        lemma_early_do_not_confine(plan, i);
        assert(steps[i] == early_steps(plan)[i]);
    }
    assert(steps[at] == ChildStep::NoNewPrivs);
}

/// Everything that is asked for is among the steps, and so comes before the
/// program: each namespace, each mount, the PID namespace, the ruleset, the
/// capability set, the reporting filter and each filter of the caller.
pub proof fn nothing_is_dropped(plan: ChildPlan)
    ensures
        forall|k: int|
            0 <= k < plan.ns_ops@.len() ==> child_steps(plan).contains(
                ChildStep::Unshare(#[trigger] plan.ns_ops@[k]),
            ),
        forall|k: usize|
            k < plan.mount_ops@.len() ==> #[trigger] child_steps(plan).contains(
                ChildStep::Mount { index: k },
            ),
        plan.need_pid_reaper ==> child_steps(plan).contains(ChildStep::PidNamespace),
        plan.has_ruleset ==> child_steps(plan).contains(ChildStep::Landlock),
        plan.caps.flags & CAP_F_NEED_CAPSET != 0 ==> child_steps(plan).contains(
            ChildStep::Cap(CapStep::Capset { mask: plan.caps.requested }),
        ),
        plan.bpf_filter@.len() > 0 ==> child_steps(plan).contains(ChildStep::NotifFilter),
        forall|k: usize|
            k < plan.ext_filters@.len() && plan.ext_filters@[k as int].data@.len() > 0
                ==> #[trigger] child_steps(plan).contains(ChildStep::PlainFilter { index: k }),
{
    assert forall|k: int| 0 <= k < plan.ns_ops@.len() implies child_steps(plan).contains(
        ChildStep::Unshare(#[trigger] plan.ns_ops@[k]),
    ) by {
        let step = ChildStep::Unshare(plan.ns_ops@[k]);
        assert(ns_steps(plan.ns_ops@)[k] == step);
        lemma_early_contains(plan, step);
        lemma_parts_contain(plan, step);
    }
    assert forall|k: usize| k < plan.mount_ops@.len() implies #[trigger] child_steps(plan).contains(
        ChildStep::Mount { index: k },
    ) by {
        let step = ChildStep::Mount { index: k };
        assert(mount_steps(plan.mount_ops@.len())[k as int] == step);
        lemma_early_contains(plan, step);
        lemma_parts_contain(plan, step);
    }
    if plan.need_pid_reaper {
        let step = ChildStep::PidNamespace;
        assert(step_if(plan.need_pid_reaper, step)[0] == step);
        lemma_early_contains(plan, step);
        lemma_parts_contain(plan, step);
    }
    if plan.has_ruleset {
        let step = ChildStep::Landlock;
        assert(step_if(plan.has_ruleset, step)[0] == step);
        lemma_middle_contains(plan, step);
        lemma_parts_contain(plan, step);
    }
    if plan.caps.flags & CAP_F_NEED_CAPSET != 0 {
        let step = ChildStep::Cap(CapStep::Capset { mask: plan.caps.requested });
        lemma_caps_contain(plan.caps);
        lemma_middle_contains(plan, step);
        lemma_parts_contain(plan, step);
    }
    if plan.bpf_filter@.len() > 0 {
        let step = ChildStep::NotifFilter;
        assert(step_if(plan.bpf_filter@.len() > 0, step)[0] == step);
        lemma_filters_contain(plan, step);
        lemma_parts_contain(plan, step);
    }
    assert forall|k: usize|
        k < plan.ext_filters@.len() && plan.ext_filters@[k as int].data@.len()
            > 0 implies #[trigger] child_steps(plan).contains(
        ChildStep::PlainFilter { index: k },
    ) by {
        let step = ChildStep::PlainFilter { index: k };
        lemma_plain_steps(plan.ext_filters@, plan.ext_filters@.len(), k);
        lemma_filters_contain(plan, step);
        lemma_parts_contain(plan, step);
    }
}

proof fn lemma_concat_members(a: Seq<ChildStep>, b: Seq<ChildStep>, step: ChildStep)
    ensures
        (a + b).contains(step) <==> (a.contains(step) || b.contains(step)),
{
    if a.contains(step) || b.contains(step) {
        lemma_concat_contains(a, b, step);
    }
    if (a + b).contains(step) {
        let i = choose|i: int| 0 <= i < (a + b).len() && (a + b)[i] == step;
        if i < a.len() {
            assert(a[i] == step);
        } else {
            assert(b[i - a.len()] == step);
        }
    }
}

proof fn lemma_one_member(wanted: bool, only: ChildStep, step: ChildStep)
    ensures
        step_if(wanted, only).contains(step) <==> (wanted && step == only),
        seq![only].contains(step) <==> step == only,
{
    if wanted {
        assert(step_if(wanted, only)[0] == only);
    }
    assert(seq![only][0] == only);
}

proof fn lemma_plain_members(filters: Seq<ExtFilterDesc>, upto: nat, step: ChildStep)
    requires
        upto <= filters.len() <= usize::MAX,
    ensures
        plain_steps(filters, upto).contains(step) <==> (step matches ChildStep::PlainFilter {
            index,
        } && index < upto && filters[index as int].data@.len() > 0),
    decreases upto,
{
    if upto > 0 {
        let last = ChildStep::PlainFilter { index: (upto - 1) as usize };
        let wanted = filters[upto - 1].data@.len() > 0;
        lemma_plain_members(filters, (upto - 1) as nat, step);
        lemma_one_member(wanted, last, step);
        lemma_concat_members(
            plain_steps(filters, (upto - 1) as nat),
            step_if(wanted, last),
            step,
        );
    }
}

proof fn lemma_mapped_members(plan: ChildPlan, step: ChildStep)
    ensures
        ns_steps(plan.ns_ops@).contains(step) <==> (step matches ChildStep::Unshare(op)
            && plan.ns_ops@.contains(op)),
        mount_steps(plan.mount_ops@.len()).contains(step) <==> (step matches ChildStep::Mount {
            index,
        } && index < plan.mount_ops@.len()),
        caps_steps(plan.caps).contains(step) <==> (plan.caps.flags != 0 && (
        step matches ChildStep::Cap(cap) && cap_steps(
            plan.caps.requested,
            plan.caps.flags,
        ).contains(cap))),
{
    let ns = ns_steps(plan.ns_ops@);
    let mounts = mount_steps(plan.mount_ops@.len());
    let caps = caps_steps(plan.caps);
    let inner = cap_steps(plan.caps.requested, plan.caps.flags);
    assert(plan.mount_ops.len() == plan.mount_ops@.len());
    if ns.contains(step) {
        let i = choose|i: int| 0 <= i < ns.len() && ns[i] == step;
        assert(plan.ns_ops@[i] == step->Unshare_0);
    }
    if let ChildStep::Unshare(op) = step {
        if plan.ns_ops@.contains(op) {
            let i = choose|i: int| 0 <= i < plan.ns_ops@.len() && plan.ns_ops@[i] == op;
            assert(ns[i] == step);
        }
    }
    if let ChildStep::Mount { index } = step {
        if index < plan.mount_ops@.len() {
            assert(mounts[index as int] == step);
        }
    }
    if caps.contains(step) {
        let i = choose|i: int| 0 <= i < caps.len() && caps[i] == step;
        assert(inner[i] == step->Cap_0);
    }
    if let ChildStep::Cap(cap) = step {
        if plan.caps.flags != 0 && inner.contains(cap) {
            let i = choose|i: int| 0 <= i < inner.len() && inner[i] == cap;
            assert(caps[i] == step);
        }
    }
}

/// The steps of a child are those of its plan, and no others: the namespaces
/// and mounts on its lists, the PID namespace, loopback, the host name, the
/// ruleset and the filters where the plan has them, the working directory, the
/// giving up of privileges, and the program.
pub proof fn steps_are_those_planned(plan: ChildPlan, step: ChildStep)
    ensures
        child_steps(plan).contains(step) <==> match step {
            ChildStep::Unshare(op) => plan.ns_ops@.contains(op),
            ChildStep::MakePrivate => plan.do_private,
            ChildStep::Mount { index } => index < plan.mount_ops@.len(),
            ChildStep::PidNamespace => plan.need_pid_reaper,
            ChildStep::Chdir => true,
            ChildStep::NoNewPrivs => true,
            ChildStep::IdMaps => plan.uid_map@.len() > 0 && plan.gid_map@.len() > 0,
            ChildStep::Loopback => plan.configure_lo,
            ChildStep::Hostname => plan.hostname@.len() > 0,
            ChildStep::Landlock => plan.has_ruleset,
            ChildStep::Cap(cap) => plan.caps.flags != 0 && cap_steps(
                plan.caps.requested,
                plan.caps.flags,
            ).contains(cap),
            ChildStep::NotifFilter => plan.bpf_filter@.len() > 0,
            ChildStep::SendListener => plan.bpf_filter@.len() > 0,
            ChildStep::PlainFilter { index } => index < plan.ext_filters@.len()
                && plan.ext_filters@[index as int].data@.len() > 0,
            ChildStep::Exec => true,
        },
{
    let ns = ns_steps(plan.ns_ops@);
    let private = step_if(plan.do_private, ChildStep::MakePrivate);
    let mounts = mount_steps(plan.mount_ops@.len());
    let pid = step_if(plan.need_pid_reaper, ChildStep::PidNamespace);
    let chdir = seq![ChildStep::Chdir];
    lemma_mapped_members(plan, step);
    lemma_one_member(plan.do_private, ChildStep::MakePrivate, step);
    lemma_one_member(plan.need_pid_reaper, ChildStep::PidNamespace, step);
    lemma_one_member(true, ChildStep::Chdir, step);
    lemma_concat_members(ns, private, step);
    lemma_concat_members(ns + private, mounts, step);
    lemma_concat_members(ns + private + mounts, pid, step);
    lemma_concat_members(ns + private + mounts + pid, chdir, step);
    let written = plan.uid_map@.len() > 0 && plan.gid_map@.len() > 0;
    let maps = step_if(written, ChildStep::IdMaps);
    let lo = step_if(plan.configure_lo, ChildStep::Loopback);
    let host = step_if(plan.hostname@.len() > 0, ChildStep::Hostname);
    let rules = step_if(plan.has_ruleset, ChildStep::Landlock);
    lemma_one_member(written, ChildStep::IdMaps, step);
    lemma_one_member(plan.configure_lo, ChildStep::Loopback, step);
    lemma_one_member(plan.hostname@.len() > 0, ChildStep::Hostname, step);
    lemma_one_member(plan.has_ruleset, ChildStep::Landlock, step);
    lemma_concat_members(maps, lo, step);
    lemma_concat_members(maps + lo, host, step);
    lemma_concat_members(maps + lo + host, rules, step);
    lemma_concat_members(maps + lo + host + rules, caps_steps(plan.caps), step);
    let reports = plan.bpf_filter@.len() > 0;
    let notif = step_if(reports, ChildStep::NotifFilter);
    let send = step_if(reports, ChildStep::SendListener);
    let plain = plain_steps(plan.ext_filters@, plan.ext_filters@.len());
    assert(plan.ext_filters.len() == plan.ext_filters@.len());
    lemma_plain_members(plan.ext_filters@, plan.ext_filters@.len(), step);
    lemma_one_member(reports, ChildStep::NotifFilter, step);
    lemma_one_member(reports, ChildStep::SendListener, step);
    lemma_concat_members(notif, send, step);
    lemma_concat_members(notif + send, plain, step);
    let privileges = seq![ChildStep::NoNewPrivs];
    let exec = seq![ChildStep::Exec];
    lemma_one_member(true, ChildStep::NoNewPrivs, step);
    lemma_one_member(true, ChildStep::Exec, step);
    let a = early_steps(plan);
    let b = middle_steps(plan);
    let c = filter_steps(plan);
    lemma_concat_members(a, privileges, step);
    lemma_concat_members(a + privileges, b, step);
    lemma_concat_members(a + privileges + b, c, step);
    lemma_concat_members(a + privileges + b + c, exec, step);
}

/// The stage that a step belongs to. Namespaces come before what happens inside
/// them, all that needs privileges before they are given up, the ruleset and the
/// capabilities before the filters that might forbid taking them on, and the
/// program last.
pub open spec fn stage(step: ChildStep) -> int {
    match step {
        ChildStep::Unshare(_) => 0,
        ChildStep::MakePrivate => 1,
        ChildStep::Mount { .. } => 2,
        ChildStep::PidNamespace => 3,
        ChildStep::Chdir => 4,
        ChildStep::NoNewPrivs => 5,
        ChildStep::IdMaps => 6,
        ChildStep::Loopback => 7,
        ChildStep::Hostname => 8,
        ChildStep::Landlock => 9,
        ChildStep::Cap(_) => 10,
        ChildStep::NotifFilter => 11,
        ChildStep::SendListener => 12,
        ChildStep::PlainFilter { .. } => 13,
        ChildStep::Exec => 14,
    }
}

/// The stages one after the other.
pub proof fn stages_in_order(op: NsOp, k: usize, cap: CapStep)
    ensures
        stage(ChildStep::Unshare(op)) < stage(ChildStep::MakePrivate) < stage(
            ChildStep::Mount { index: k },
        ) < stage(ChildStep::PidNamespace) < stage(ChildStep::Chdir) < stage(
            ChildStep::NoNewPrivs,
        ) < stage(ChildStep::IdMaps) < stage(ChildStep::Loopback) < stage(
            ChildStep::Hostname,
        ) < stage(ChildStep::Landlock) < stage(ChildStep::Cap(cap)) < stage(
            ChildStep::NotifFilter,
        ) < stage(ChildStep::SendListener) < stage(ChildStep::PlainFilter { index: k }) < stage(
            ChildStep::Exec,
        ),
{
}

/// Whether one step may follow another: its stage is not an earlier one, and
/// mounts and filters of the caller keep their order.
pub open spec fn may_follow(first: ChildStep, second: ChildStep) -> bool {
    &&& stage(first) <= stage(second)
    &&& first matches ChildStep::Mount { index: a } ==> (second matches ChildStep::Mount { index: b }
        ==> a < b)
    &&& first matches ChildStep::PlainFilter { index: a } ==> (second matches ChildStep::PlainFilter {
        index: b,
    } ==> a < b)
}

/// Whether the stages of the steps never go back and lie between two bounds.
#[verifier::opaque]
spec fn staged(steps: Seq<ChildStep>, low: int, high: int) -> bool {
    &&& forall|i: int, j: int|
        0 <= i < j < steps.len() ==> may_follow(#[trigger] steps[i], #[trigger] steps[j])
    &&& forall|i: int| 0 <= i < steps.len() ==> low <= stage(#[trigger] steps[i]) <= high
}

proof fn lemma_staged_concat(a: Seq<ChildStep>, b: Seq<ChildStep>, low: int, mid: int, high: int)
    requires
        low <= mid < high,
        staged(a, low, mid),
        staged(b, mid + 1, high),
    ensures
        staged(a + b, low, high),
{
    reveal(staged);
    let all = a + b;
    assert forall|i: int| 0 <= i < all.len() implies low <= stage(#[trigger] all[i]) <= high
        && (i < a.len() ==> stage(all[i]) <= mid) && (i >= a.len() ==> stage(all[i]) > mid) by {
        if i < a.len() {
            assert(all[i] == a[i]);
        } else {
            assert(all[i] == b[i - a.len()]);
        }
    }
    assert forall|i: int, j: int| 0 <= i < j < all.len() implies may_follow(
        #[trigger] all[i],
        #[trigger] all[j],
    ) by {
        if j < a.len() {
            assert(all[i] == a[i] && all[j] == a[j]);
        } else if i >= a.len() {
            assert(all[i] == b[i - a.len()] && all[j] == b[j - a.len()]);
        }
    }
}

proof fn lemma_plain_stage(filters: Seq<ExtFilterDesc>, upto: nat)
    ensures
        forall|i: int|
            0 <= i < plain_steps(filters, upto).len() ==> stage(
                #[trigger] plain_steps(filters, upto)[i],
            ) == 13,
    decreases upto,
{
    if upto > 0 {
        lemma_plain_stage(filters, (upto - 1) as nat);
        let before = plain_steps(filters, (upto - 1) as nat);
        let all = plain_steps(filters, upto);
        assert forall|i: int| 0 <= i < all.len() implies stage(#[trigger] all[i]) == 13 by {
            if i < before.len() {
                assert(all[i] == before[i]);
            }
        }
    }
}

proof fn lemma_staged_flat(steps: Seq<ChildStep>, at: int)
    requires
        forall|i: int| 0 <= i < steps.len() ==> stage(#[trigger] steps[i]) == at,
        forall|i: int, j: int|
            0 <= i < j < steps.len() ==> may_follow(#[trigger] steps[i], #[trigger] steps[j]),
    ensures
        staged(steps, at, at),
{
    reveal(staged);
}

proof fn lemma_staged_early(plan: ChildPlan)
    ensures
        staged(early_steps(plan), 0, 4),
{
    let ns = ns_steps(plan.ns_ops@);
    let private = step_if(plan.do_private, ChildStep::MakePrivate);
    let mounts = mount_steps(plan.mount_ops@.len());
    let pid = step_if(plan.need_pid_reaper, ChildStep::PidNamespace);
    let chdir = seq![ChildStep::Chdir];
    lemma_staged_flat(ns, 0);
    lemma_staged_flat(private, 1);
    assert(plan.mount_ops.len() == plan.mount_ops@.len());
    assert forall|i: int, j: int| 0 <= i < j < mounts.len() implies may_follow(
        #[trigger] mounts[i],
        #[trigger] mounts[j],
    ) by {}
    lemma_staged_flat(mounts, 2);
    lemma_staged_flat(pid, 3);
    lemma_staged_flat(chdir, 4);
    lemma_staged_concat(ns, private, 0, 0, 1);
    lemma_staged_concat(ns + private, mounts, 0, 1, 2);
    lemma_staged_concat(ns + private + mounts, pid, 0, 2, 3);
    lemma_staged_concat(ns + private + mounts + pid, chdir, 0, 3, 4);
}

proof fn lemma_staged_middle(plan: ChildPlan)
    ensures
        staged(middle_steps(plan), 6, 10),
{
    let maps = step_if(plan.uid_map@.len() > 0 && plan.gid_map@.len() > 0, ChildStep::IdMaps);
    let lo = step_if(plan.configure_lo, ChildStep::Loopback);
    let host = step_if(plan.hostname@.len() > 0, ChildStep::Hostname);
    let rules = step_if(plan.has_ruleset, ChildStep::Landlock);
    let caps = caps_steps(plan.caps);
    lemma_staged_flat(maps, 6);
    lemma_staged_flat(lo, 7);
    lemma_staged_flat(host, 8);
    lemma_staged_flat(rules, 9);
    lemma_staged_flat(caps, 10);
    lemma_staged_concat(maps, lo, 6, 6, 7);
    lemma_staged_concat(maps + lo, host, 6, 7, 8);
    lemma_staged_concat(maps + lo + host, rules, 6, 8, 9);
    lemma_staged_concat(maps + lo + host + rules, caps, 6, 9, 10);
}

proof fn lemma_staged_filters(plan: ChildPlan)
    ensures
        staged(filter_steps(plan), 11, 13),
{
    let notif = step_if(plan.bpf_filter@.len() > 0, ChildStep::NotifFilter);
    let send = step_if(plan.bpf_filter@.len() > 0, ChildStep::SendListener);
    let plain = plain_steps(plan.ext_filters@, plan.ext_filters@.len());
    lemma_staged_flat(notif, 11);
    lemma_staged_flat(send, 12);
    assert(plan.ext_filters.len() == plan.ext_filters@.len());
    lemma_plain_stage(plan.ext_filters@, plan.ext_filters@.len());
    lemma_plain_order(plan.ext_filters@, plan.ext_filters@.len());
    assert forall|i: int, j: int| 0 <= i < j < plain.len() implies may_follow(
        #[trigger] plain[i],
        #[trigger] plain[j],
    ) by {
        assert(stage(plain[i]) == 13 && stage(plain[j]) == 13);
    }
    lemma_staged_flat(plain, 13);
    lemma_staged_concat(notif, send, 11, 11, 12);
    lemma_staged_concat(notif + send, plain, 11, 12, 13);
}

/// The steps of a child never go back to an earlier stage, and mounts and
/// filters of the caller keep their order.
pub proof fn steps_come_in_order(plan: ChildPlan, i: int, j: int)
    requires
        0 <= i < j < child_steps(plan).len(),
    ensures
        stage(child_steps(plan)[i]) <= stage(child_steps(plan)[j]),
        child_steps(plan)[i] matches ChildStep::Mount { index: a } ==> (child_steps(
            plan,
        )[j] matches ChildStep::Mount { index: b } ==> a < b),
        child_steps(plan)[i] matches ChildStep::PlainFilter { index: a } ==> (child_steps(
            plan,
        )[j] matches ChildStep::PlainFilter { index: b } ==> a < b),
{
    lemma_staged_early(plan);
    lemma_staged_middle(plan);
    lemma_staged_filters(plan);
    let a = early_steps(plan);
    let b = a + seq![ChildStep::NoNewPrivs];
    let c = b + middle_steps(plan);
    lemma_staged_flat(seq![ChildStep::NoNewPrivs], 5);
    lemma_staged_flat(seq![ChildStep::Exec], 14);
    lemma_staged_concat(a, seq![ChildStep::NoNewPrivs], 0, 4, 5);
    lemma_staged_concat(b, middle_steps(plan), 0, 5, 10);
    lemma_staged_concat(c, filter_steps(plan), 0, 10, 13);
    lemma_staged_concat(c + filter_steps(plan), seq![ChildStep::Exec], 0, 13, 14);
    reveal(staged);
}

proof fn lemma_plain_order(filters: Seq<ExtFilterDesc>, upto: nat)
    requires
        upto <= filters.len() <= usize::MAX,
    ensures
        forall|i: int, j: int|
            0 <= i < j < plain_steps(filters, upto).len() ==> (#[trigger] plain_steps(
                filters,
                upto,
            )[i])->PlainFilter_index < (#[trigger] plain_steps(filters, upto)[j])->PlainFilter_index,
        forall|i: int|
            0 <= i < plain_steps(filters, upto).len() ==> (#[trigger] plain_steps(
                filters,
                upto,
            )[i])->PlainFilter_index < upto,
    decreases upto,
{
    if upto > 0 {
        lemma_plain_order(filters, (upto - 1) as nat);
        let before = plain_steps(filters, (upto - 1) as nat);
        let all = plain_steps(filters, upto);
        assert forall|i: int| 0 <= i < all.len() implies (#[trigger] all[i])->PlainFilter_index
            < upto && (i < before.len() ==> all[i]->PlainFilter_index < upto - 1) && (i
            >= before.len() ==> all[i]->PlainFilter_index == upto - 1) by {
            if i < before.len() {
                assert(all[i] == before[i]);
            }
        }
        assert forall|i: int, j: int| 0 <= i < j < all.len() implies (
        #[trigger] all[i])->PlainFilter_index < (#[trigger] all[j])->PlainFilter_index by {
            if j < before.len() {
                assert(all[i] == before[i] && all[j] == before[j]);
            }
        }
    }
}

/// The namespaces are entered in the order of the plan.
pub proof fn namespaces_are_entered_in_order(plan: ChildPlan, k: int)
    requires
        0 <= k < plan.ns_ops@.len(),
    ensures
        k < child_steps(plan).len(),
        child_steps(plan)[k] == ChildStep::Unshare(plan.ns_ops@[k]),
{
    assert(ns_steps(plan.ns_ops@)[k] == ChildStep::Unshare(plan.ns_ops@[k]));
}

/// What ends a child: a failed program start with 127, and with 1 the failure
/// of a namespace that is not merely tried, of a mount, of the PID namespace, of
/// the working directory, of giving up privileges, of the ruleset, of a filter,
/// of handing over the listener, and of setting the capabilities for any reason
/// but a lack of permission. Nothing else does, and no success does.
pub proof fn failures_end_the_child(step: ChildStep, errno: i32)
    ensures
        step is Exec ==> ends_with(step, errno) == Some(127i32),
        !(step is Exec) && errno == 0 ==> ends_with(step, errno) is None,
        errno != 0 && (step is Mount || step is PidNamespace || step is Chdir || step is NoNewPrivs
            || step is Landlock || step is NotifFilter || step is SendListener
            || step is PlainFilter) ==> ends_with(step, errno) == Some(1i32),
        step matches ChildStep::Unshare(op) && op.try_mode == 0 && errno != 0 ==> ends_with(
            step,
            errno,
        ) == Some(1i32),
        step matches ChildStep::Unshare(op) && op.try_mode != 0 ==> ends_with(
            step,
            errno,
        ) is None,
        step is MakePrivate || step is IdMaps || step is Loopback || step is Hostname ==> ends_with(
            step,
            errno,
        ) is None,
        step matches ChildStep::Cap(CapStep::Capset { .. }) && errno != 0 && errno != 1
            ==> ends_with(step, errno) == Some(1i32),
        step matches ChildStep::Cap(CapStep::Capset { .. }) && errno == 1 ==> ends_with(
            step,
            errno,
        ) is None,
        step matches ChildStep::Cap(cap) && !(cap is Capset) ==> ends_with(step, errno) is None,
{
}

/// The maps are written inside a user namespace and only there, and no other
/// step is ever left out.
pub proof fn only_maps_are_left_out(
    steps: Seq<ChildStep>,
    results: Seq<i32>,
    active: bool,
    i: int,
)
    requires
        0 <= i < steps.len(),
    ensures
        left_out(steps, results, active, i) ==> steps[i] == ChildStep::IdMaps && !active,
        left_out(steps, results, active, i) ==> forall|j: int|
            0 <= j < i ==> !enters_user_ns(#[trigger] steps[j], results[j]),
        steps[i] == ChildStep::IdMaps && !left_out(steps, results, active, i) ==> active || (
        exists|j: int| 0 <= j < i && enters_user_ns(#[trigger] steps[j], results[j])),
{
    lemma_active_at(steps, results, active, i);
}

proof fn lemma_active_at(steps: Seq<ChildStep>, results: Seq<i32>, active: bool, i: int)
    requires
        0 <= i <= steps.len(),
    ensures
        active_at(steps, results, active, i) <==> (active || exists|j: int|
            0 <= j < i && enters_user_ns(#[trigger] steps[j], results[j])),
    decreases i,
{
    if i > 0 {
        lemma_active_at(steps, results, active, i - 1);
        if enters_user_ns(steps[i - 1], results[i - 1]) {
            assert(0 <= i - 1 < i && enters_user_ns(steps[i - 1], results[i - 1]));
        }
    }
}

/// Whether none of the steps sets the host name.
spec fn leaves_name(steps: Seq<ChildStep>) -> bool {
    forall|i: int| 0 <= i < steps.len() ==> !(#[trigger] steps[i] is Hostname)
}

proof fn lemma_concat_leaves_name(a: Seq<ChildStep>, b: Seq<ChildStep>)
    requires
        leaves_name(a),
        leaves_name(b),
    ensures
        leaves_name(a + b),
{
    assert forall|i: int| 0 <= i < (a + b).len() implies !(#[trigger] (a + b)[i] is Hostname) by {
        if i < a.len() {
            assert((a + b)[i] == a[i]);
        } else {
            assert((a + b)[i] == b[i - a.len()]);
        }
    }
}

proof fn lemma_plain_leave_name(filters: Seq<ExtFilterDesc>, upto: nat)
    ensures
        leaves_name(plain_steps(filters, upto)),
    decreases upto,
{
    if upto > 0 {
        lemma_plain_leave_name(filters, (upto - 1) as nat);
        lemma_concat_leaves_name(
            plain_steps(filters, (upto - 1) as nat),
            step_if(
                filters[upto - 1].data@.len() > 0,
                ChildStep::PlainFilter { index: (upto - 1) as usize },
            ),
        );
    }
}

/// A child sets the host name exactly where its plan holds one.
pub proof fn hostname_is_set_where_planned(plan: ChildPlan)
    ensures
        child_steps(plan).contains(ChildStep::Hostname) <==> plan.hostname@.len() > 0,
{
    let maps = step_if(plan.uid_map@.len() > 0 && plan.gid_map@.len() > 0, ChildStep::IdMaps);
    let lo = step_if(plan.configure_lo, ChildStep::Loopback);
    let host = step_if(plan.hostname@.len() > 0, ChildStep::Hostname);
    let rules = step_if(plan.has_ruleset, ChildStep::Landlock);
    if plan.hostname@.len() > 0 {
        assert(host[0] == ChildStep::Hostname);
        lemma_concat_contains(maps + lo, host, ChildStep::Hostname);
        lemma_concat_contains(maps + lo + host, rules, ChildStep::Hostname);
        lemma_concat_contains(
            maps + lo + host + rules,
            caps_steps(plan.caps),
            ChildStep::Hostname,
        );
        lemma_parts_contain(plan, ChildStep::Hostname);
    } else {
        let ns = ns_steps(plan.ns_ops@);
        let private = step_if(plan.do_private, ChildStep::MakePrivate);
        let mounts = mount_steps(plan.mount_ops@.len());
        let pid = step_if(plan.need_pid_reaper, ChildStep::PidNamespace);
        lemma_concat_leaves_name(ns, private);
        lemma_concat_leaves_name(ns + private, mounts);
        lemma_concat_leaves_name(ns + private + mounts, pid);
        lemma_concat_leaves_name(ns + private + mounts + pid, seq![ChildStep::Chdir]);
        lemma_concat_leaves_name(maps, lo);
        lemma_concat_leaves_name(maps + lo, host);
        lemma_concat_leaves_name(maps + lo + host, rules);
        lemma_concat_leaves_name(maps + lo + host + rules, caps_steps(plan.caps));
        let notif = step_if(plan.bpf_filter@.len() > 0, ChildStep::NotifFilter);
        let send = step_if(plan.bpf_filter@.len() > 0, ChildStep::SendListener);
        lemma_plain_leave_name(plan.ext_filters@, plan.ext_filters@.len());
        lemma_concat_leaves_name(notif, send);
        lemma_concat_leaves_name(
            notif + send,
            plain_steps(plan.ext_filters@, plan.ext_filters@.len()),
        );
        let early = early_steps(plan);
        lemma_concat_leaves_name(early, seq![ChildStep::NoNewPrivs]);
        let head = early + seq![ChildStep::NoNewPrivs];
        lemma_concat_leaves_name(head, middle_steps(plan));
        lemma_concat_leaves_name(head + middle_steps(plan), filter_steps(plan));
        lemma_concat_leaves_name(
            head + middle_steps(plan) + filter_steps(plan),
            seq![ChildStep::Exec],
        );
    }
}

proof fn lemma_concat_contains(a: Seq<ChildStep>, b: Seq<ChildStep>, step: ChildStep)
    requires
        a.contains(step) || b.contains(step),
    ensures
        (a + b).contains(step),
{
    if a.contains(step) {
        let i = choose|i: int| 0 <= i < a.len() && a[i] == step;
        assert((a + b)[i] == step);
    } else {
        let i = choose|i: int| 0 <= i < b.len() && b[i] == step;
        assert((a + b)[a.len() + i] == step);
    }
}

proof fn lemma_early_contains(plan: ChildPlan, step: ChildStep)
    requires
        ns_steps(plan.ns_ops@).contains(step) || mount_steps(plan.mount_ops@.len()).contains(step)
            || step_if(plan.need_pid_reaper, ChildStep::PidNamespace).contains(step),
    ensures
        early_steps(plan).contains(step),
{
    let a = ns_steps(plan.ns_ops@);
    let b = a + step_if(plan.do_private, ChildStep::MakePrivate);
    let c = b + mount_steps(plan.mount_ops@.len());
    let d = c + step_if(plan.need_pid_reaper, ChildStep::PidNamespace);
    if a.contains(step) {
        lemma_concat_contains(a, step_if(plan.do_private, ChildStep::MakePrivate), step);
    }
    if b.contains(step) || mount_steps(plan.mount_ops@.len()).contains(step) {
        lemma_concat_contains(b, mount_steps(plan.mount_ops@.len()), step);
    }
    lemma_concat_contains(c, step_if(plan.need_pid_reaper, ChildStep::PidNamespace), step);
    lemma_concat_contains(d, seq![ChildStep::Chdir], step);
}

proof fn lemma_caps_contain(caps: ResolvedCaps)
    requires
        caps.flags & CAP_F_NEED_CAPSET != 0,
    ensures
        caps_steps(caps).contains(ChildStep::Cap(CapStep::Capset { mask: caps.requested })),
{
    let flags = caps.flags;
    assert(flags != 0) by (bit_vector)
        requires
            flags & 1 != 0,
    ;
    let at = if flags & CAP_F_NEED_BOUNDING != 0 {
        1 + bounding_steps(caps.requested, (CAP_LAST_CAP + 1) as nat).len() as int
    } else {
        0
    };
    assert(cap_steps(caps.requested, flags)[at] == CapStep::Capset { mask: caps.requested });
    assert(caps_steps(caps)[at] == ChildStep::Cap(CapStep::Capset { mask: caps.requested }));
}

proof fn lemma_middle_contains(plan: ChildPlan, step: ChildStep)
    requires
        step_if(plan.has_ruleset, ChildStep::Landlock).contains(step) || caps_steps(
            plan.caps,
        ).contains(step),
    ensures
        middle_steps(plan).contains(step),
{
    let rules = step_if(plan.has_ruleset, ChildStep::Landlock);
    let before = step_if(
        plan.uid_map@.len() > 0 && plan.gid_map@.len() > 0,
        ChildStep::IdMaps,
    ) + step_if(plan.configure_lo, ChildStep::Loopback) + step_if(
        plan.hostname@.len() > 0,
        ChildStep::Hostname,
    );
    if rules.contains(step) {
        lemma_concat_contains(before, rules, step);
    }
    lemma_concat_contains(before + rules, caps_steps(plan.caps), step);
}

proof fn lemma_filters_contain(plan: ChildPlan, step: ChildStep)
    requires
        step_if(plan.bpf_filter@.len() > 0, ChildStep::NotifFilter).contains(step) || plain_steps(
            plan.ext_filters@,
            plan.ext_filters@.len(),
        ).contains(step),
    ensures
        filter_steps(plan).contains(step),
{
    let a = step_if(plan.bpf_filter@.len() > 0, ChildStep::NotifFilter);
    let b = step_if(plan.bpf_filter@.len() > 0, ChildStep::SendListener);
    let c = plain_steps(plan.ext_filters@, plan.ext_filters@.len());
    if a.contains(step) {
        lemma_concat_contains(a, b, step);
    }
    lemma_concat_contains(a + b, c, step);
}

proof fn lemma_parts_contain(plan: ChildPlan, step: ChildStep)
    requires
        early_steps(plan).contains(step) || middle_steps(plan).contains(step) || filter_steps(
            plan,
        ).contains(step),
    ensures
        child_steps(plan).contains(step),
{
    let a = early_steps(plan);
    let b = a + seq![ChildStep::NoNewPrivs];
    let c = b + middle_steps(plan);
    let d = c + filter_steps(plan);
    if a.contains(step) {
        lemma_concat_contains(a, seq![ChildStep::NoNewPrivs], step);
    }
    if b.contains(step) || middle_steps(plan).contains(step) {
        lemma_concat_contains(b, middle_steps(plan), step);
    }
    lemma_concat_contains(c, filter_steps(plan), step);
    lemma_concat_contains(d, seq![ChildStep::Exec], step);
}

proof fn lemma_plain_steps(filters: Seq<ExtFilterDesc>, upto: nat, k: usize)
    requires
        k < upto <= filters.len(),
        filters[k as int].data@.len() > 0,
    ensures
        plain_steps(filters, upto).contains(ChildStep::PlainFilter { index: k }),
    decreases upto,
{
    let wanted = ChildStep::PlainFilter { index: k };
    let before = plain_steps(filters, (upto - 1) as nat);
    let all = plain_steps(filters, upto);
    if k == upto - 1 {
        assert(all[before.len() as int] == wanted);
    } else {
        lemma_plain_steps(filters, (upto - 1) as nat, k);
        let j = choose|j: int| 0 <= j < before.len() && before[j] == wanted;
        assert(all[j] == wanted);
    }
}

/// The process that reaps inside a PID namespace: it waits for all of its
/// children and passes on the exit code of the program.
#[derive(Debug, Clone, Copy, PartialEq, Eq, Structural)]
pub struct Reaper {
    /// The process of the program.
    pub business_pid: i32,
    /// The exit code to pass on.
    pub exit_code: i32,
}

impl Reaper {
    /// A reaper that has heard nothing of the program.
    pub fn new(business_pid: i32) -> (r: Reaper)
        ensures
            r == (Reaper { business_pid, exit_code: 1 }),
    {
        Reaper { business_pid, exit_code: 1 }
    }

    /// Takes note of a process that ended; a negative number says that there
    /// are none left, and the exit code comes back.
    pub fn do_reaper(&mut self, pid: i32, status: i32) -> (r: Option<i32>)
        ensures
            final(self).business_pid == old(self).business_pid,
            pid == old(self).business_pid ==> r is None && final(self).exit_code == exit_code_of(
                status,
                1,
            ),
            pid != old(self).business_pid ==> final(self).exit_code == old(self).exit_code && r
                == if pid < 0 {
                Some(old(self).exit_code)
            } else {
                None
            },
    {
        if pid == self.business_pid {
            self.exit_code = exit_code(status, 1);
            None
        } else if pid < 0 {
            Some(self.exit_code)
        } else {
            None
        }
    }
}

/// The exit code of a reaper that hears of these processes before there are
/// none left.
pub open spec fn reaped(business_pid: i32, ended: Seq<(i32, i32)>) -> i32
    decreases ended.len(),
{
    if ended.len() == 0 {
        1
    } else if ended.last().0 == business_pid {
        exit_code_of(ended.last().1, 1)
    } else {
        reaped(business_pid, ended.drop_last())
    }
}

/// A reaper whose exit code fits the processes that have ended passes on one
/// that fits after the next process, whichever it is.
pub proof fn reaper_keeps_exit_code(
    ended: Seq<(i32, i32)>,
    pid: i32,
    status: i32,
    before: Reaper,
    after: Reaper,
)
    requires
        before.exit_code == reaped(before.business_pid, ended),
        after.business_pid == before.business_pid,
        pid == before.business_pid ==> after.exit_code == exit_code_of(status, 1),
        pid != before.business_pid ==> after.exit_code == before.exit_code,
    ensures
        after.exit_code == reaped(after.business_pid, ended.push((pid, status))),
{
    assert(ended.push((pid, status)).drop_last() =~= ended);
}

/// The exit code that is passed on is that of the program, whatever other
/// processes end before and after it; it is 1 where nothing was heard of the
/// program.
pub proof fn program_gives_the_exit_code(business_pid: i32, ended: Seq<(i32, i32)>, i: int)
    ensures
        0 <= i < ended.len() && ended[i].0 == business_pid && (forall|j: int|
            i < j < ended.len() ==> (#[trigger] ended[j]).0 != business_pid) ==> reaped(
            business_pid,
            ended,
        ) == exit_code_of(ended[i].1, 1),
        (forall|j: int| 0 <= j < ended.len() ==> (#[trigger] ended[j]).0 != business_pid) ==> reaped(
            business_pid,
            ended,
        ) == 1,
    decreases ended.len(),
{
    if ended.len() > 0 && ended.last().0 != business_pid {
        let rest = ended.drop_last();
        program_gives_the_exit_code(business_pid, rest, i);
        if forall|j: int| 0 <= j < ended.len() ==> (#[trigger] ended[j]).0 != business_pid {
            assert forall|j: int| 0 <= j < rest.len() implies (#[trigger] rest[j]).0
                != business_pid by {
                assert(rest[j] == ended[j]);
            }
        }
        if 0 <= i < ended.len() && ended[i].0 == business_pid && (forall|j: int|
            i < j < ended.len() ==> (#[trigger] ended[j]).0 != business_pid) {
            assert forall|j: int| i < j < rest.len() implies (#[trigger] rest[j]).0
                != business_pid by {
                assert(rest[j] == ended[j]);
            }
            assert(rest[i] == ended[i]);
        }
    } else if ended.len() > 0 {
        let k = ended.len() - 1;
        assert(ended[k].0 == business_pid);
    }
}

/// The byte that goes along with the listener.
pub const CTRL_PAYLOAD: u8 = 0x42;

/// Level of the control message that carries a file descriptor.
pub const SOL_SOCKET: i32 = 1;

/// Type of the control message that carries a file descriptor.
pub const SCM_RIGHTS: i32 = 1;

/// Room for control messages.
pub const CMSG_ROOM: usize = 64;

/// Whether a file descriptor went out: the control message needs `space` bytes,
/// `header` says that the message has a header, and `sent` is the result of
/// `sendmsg`, asked for last.
pub fn send_fd(space: usize, header: bool, sent: i64) -> (r: bool)
    ensures
        r == (space <= CMSG_ROOM && header && sent >= 0),
{
    space <= CMSG_ROOM && header && sent >= 0
}

/// A control message that came in.
#[derive(Debug, Clone, Copy, PartialEq, Eq, Structural)]
pub struct ControlMessage {
    /// Its level.
    pub level: i32,
    /// Its type.
    pub kind: i32,
    /// The file descriptor in it.
    pub fd: i32,
}

/// Why no file descriptor came in.
#[derive(Debug, Clone, Copy, PartialEq, Eq, Structural)]
pub enum RecvFdError {
    /// `recvmsg` failed.
    Os,
    /// The other side is gone.
    Closed,
    /// There is no control message.
    NoHeader,
    /// The control message is of another type.
    NotRights,
}

impl RecvFdError {
    /// The words for the error; those for a failed call are the system's.
    pub open spec fn text_spec(self) -> &'static str {
        match self {
            RecvFdError::Os => "recvmsg failed",
            RecvFdError::Closed => "recvmsg returned 0: peer closed without sending fd",
            RecvFdError::NoHeader => "recvmsg: no cmsg header",
            RecvFdError::NotRights => "recvmsg: cmsg is not SCM_RIGHTS",
        }
    }

    /// The words for the error.
    pub fn text(&self) -> (r: &'static str)
        ensures
            r == self.text_spec(),
    {
        match self {
            RecvFdError::Os => "recvmsg failed",
            RecvFdError::Closed => "recvmsg returned 0: peer closed without sending fd",
            RecvFdError::NoHeader => "recvmsg: no cmsg header",
            RecvFdError::NotRights => "recvmsg: cmsg is not SCM_RIGHTS",
        }
    }
}

/// The file descriptor that came in: `received` is the result of `recvmsg` and
/// `message` the first control message.
pub fn recv_fd(received: i64, message: Option<ControlMessage>) -> (r: Result<i32, RecvFdError>)
    ensures
        r == if received < 0 {
            Err(RecvFdError::Os)
        } else if received == 0 {
            Err(RecvFdError::Closed)
        } else {
            match message {
                None => Err(RecvFdError::NoHeader),
                Some(m) => if m.level == SOL_SOCKET && m.kind == SCM_RIGHTS {
                    Ok(m.fd)
                } else {
                    Err(RecvFdError::NotRights)
                },
            }
        },
{
    if received < 0 {
        return Err(RecvFdError::Os);
    }
    if received == 0 {
        return Err(RecvFdError::Closed);
    }
    match message {
        None => Err(RecvFdError::NoHeader),
        Some(m) => if m.level != SOL_SOCKET || m.kind != SCM_RIGHTS {
            Err(RecvFdError::NotRights)
        } else {
            Ok(m.fd)
        },
    }
}

} // verus!
