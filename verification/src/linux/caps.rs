//! Which capabilities a sandboxed process ends up with, and by what steps.
//!
//! A capability set is a word with one bit for each capability number. The
//! set that is wanted is computed before the process is forked, together with
//! the primitives that are needed to get there; the child only carries the
//! steps out.

use crate::capability::{CapOp, Capability, CapabilityConfig, CAP_LAST_CAP};
use crate::linux::errno::EPERM;
use crate::text;
use vstd::prelude::*;

verus! {

/// Version of the layout that `capget` and `capset` are called with.
pub const LINUX_CAPABILITY_VERSION_3: u32 = 0x2008_0522;

/// Number of the capability that may change the bounding set.
pub const CAP_SETPCAP_NR: u32 = 8;

/// All capabilities.
pub const FULL_SET: u64 = 0x1ff_ffff_ffff;

/// The set must be narrowed with `capset`.
pub const CAP_F_NEED_CAPSET: u8 = 1;

/// The bounding set must be narrowed.
pub const CAP_F_NEED_BOUNDING: u8 = 2;

/// The set must be raised into the ambient set to outlive `execve`.
pub const CAP_F_NEED_AMBIENT: u8 = 4;

/// The header of `capget` and `capset`.
#[derive(Debug, Clone, Copy, PartialEq, Eq, Structural)]
pub struct CapHeader {
    /// Version of the layout.
    pub version: u32,
    /// The process; zero for the caller.
    pub pid: i32,
}

/// One of the two words of `capget` and `capset`.
#[derive(Debug, Clone, Copy, PartialEq, Eq, Structural)]
pub struct CapData {
    /// Effective set.
    pub effective: u32,
    /// Permitted set.
    pub permitted: u32,
    /// Inheritable set.
    pub inheritable: u32,
}

/// The set that is wanted and the primitives that are needed for it.
#[derive(Debug, Clone, Copy, PartialEq, Eq, Structural)]
pub struct ResolvedCaps {
    /// The set that is wanted.
    pub requested: u64,
    /// The primitives, as a sum of the `CAP_F_` constants.
    pub flags: u8,
}

/// Whether the set holds the capability with number `n`.
pub open spec fn holds(set: u64, n: u64) -> bool {
    (set >> n) & 1 == 1
}

/// The set after one operation.
pub open spec fn after_op(set: u64, op: CapOp) -> u64 {
    match op {
        CapOp::Add(cap) => set | (1u64 << (cap.number() as u64)),
        CapOp::Drop(cap) => set & !(1u64 << (cap.number() as u64)),
        CapOp::AddAll => FULL_SET,
        CapOp::DropAll => 0,
    }
}

/// The set after a list of operations.
pub open spec fn after_ops(set: u64, ops: Seq<CapOp>) -> u64
    decreases ops.len(),
{
    if ops.len() == 0 {
        set
    } else {
        after_op(after_ops(set, ops.drop_last()), ops.last())
    }
}

/// The set that a configuration asks for, where the caller's effective set is
/// `effective`.
pub open spec fn requested_set(cfg: CapabilityConfig, effective: u64) -> u64 {
    after_ops(
        if cfg.inherit_base {
            effective
        } else {
            0
        },
        cfg.ops@,
    )
}

/// What one operation does to the capability with number `n`: it settles it,
/// or leaves it alone.
pub open spec fn settles(op: CapOp, n: u64) -> Option<bool> {
    match op {
        CapOp::Add(cap) => if cap.number() == n {
            Some(true)
        } else {
            None
        },
        CapOp::Drop(cap) => if cap.number() == n {
            Some(false)
        } else {
            None
        },
        CapOp::AddAll => Some(true),
        CapOp::DropAll => Some(false),
    }
}

proof fn lemma_after_op(set: u64, op: CapOp, n: u64)
    requires
        n <= CAP_LAST_CAP,
    ensures
        holds(after_op(set, op), n) == match settles(op, n) {
            Some(held) => held,
            None => holds(set, n),
        },
{
    match op {
        CapOp::Add(cap) => {
            let k = cap.number() as u64;
            assert(((set | (1u64 << k)) >> n) & 1 == if k == n {
                1
            } else {
                (set >> n) & 1
            }) by (bit_vector)
                requires
                    n <= 40,
                    k <= 40,
            ;
        },
        CapOp::Drop(cap) => {
            let k = cap.number() as u64;
            assert(((set & !(1u64 << k)) >> n) & 1 == if k == n {
                0
            } else {
                (set >> n) & 1
            }) by (bit_vector)
                requires
                    n <= 40,
                    k <= 40,
            ;
        },
        CapOp::AddAll => {
            assert((0x1ff_ffff_ffffu64 >> n) & 1 == 1) by (bit_vector)
                requires
                    n <= 40,
            ;
        },
        CapOp::DropAll => {
            assert((0u64 >> n) & 1 == 0) by (bit_vector);
        },
    }
}

/// What a list of operations says about the capability with number `n`: its
/// last word on it, and what was there before where it has none.
pub open spec fn last_word(ops: Seq<CapOp>, n: u64, before: bool) -> bool
    decreases ops.len(),
{
    if ops.len() == 0 {
        before
    } else {
        match settles(ops.last(), n) {
            Some(held) => held,
            None => last_word(ops.drop_last(), n, before),
        }
    }
}

/// The last operation that concerns a capability decides about it; one that
/// no operation concerns stays as it was.
pub proof fn last_operation_decides(set: u64, ops: Seq<CapOp>, n: u64)
    requires
        n <= CAP_LAST_CAP,
    ensures
        holds(after_ops(set, ops), n) == last_word(ops, n, holds(set, n)),
    decreases ops.len(),
{
    if ops.len() > 0 {
        last_operation_decides(set, ops.drop_last(), n);
        lemma_after_op(after_ops(set, ops.drop_last()), ops.last(), n);
    }
}

/// Adding a capability puts that one in and dropping it takes that one out, and
/// neither touches another; adding all puts every one in, and dropping all takes
/// every one out.
pub proof fn operations_do_what_they_say(set: u64, cap: Capability, n: u64)
    requires
        n < 64,
    ensures
        holds(after_op(set, CapOp::Add(cap)), n) <==> (n == cap.number() || holds(set, n)),
        holds(after_op(set, CapOp::Drop(cap)), n) <==> (n != cap.number() && holds(set, n)),
        n <= 40 ==> holds(after_op(set, CapOp::AddAll), n),
        n <= 40 ==> !holds(after_op(set, CapOp::DropAll), n),
        after_op(set, CapOp::AddAll) == 0x1ff_ffff_ffff,
        after_op(set, CapOp::DropAll) == 0,
{
    let k = cap.number() as u64;
    assert((((set | (1u64 << k)) >> n) & 1 == 1 <==> (n == k || (set >> n) & 1 == 1)) && (((set & !(
    1u64 << k)) >> n) & 1 == 1 <==> (n != k && (set >> n) & 1 == 1))) by (bit_vector)
        requires
            n < 64,
            k <= 40,
    ;
    if n <= 40 {
        lemma_after_op(set, CapOp::AddAll, n);
        lemma_after_op(set, CapOp::DropAll, n);
    }
}

/// Operations take effect one after the other, on the caller's effective set
/// where it is inherited and on no capability at all where it is not.
pub proof fn operations_go_in_order(cfg: CapabilityConfig, effective: u64, ops: Seq<CapOp>, op: CapOp)
    ensures
        cfg.ops@ == Seq::<CapOp>::empty() && cfg.inherit_base ==> requested_set(cfg, effective)
            == effective,
        cfg.ops@ == Seq::<CapOp>::empty() && !cfg.inherit_base ==> requested_set(cfg, effective)
            == 0,
        cfg.ops@ == ops.push(op) ==> requested_set(cfg, effective) == after_op(
            after_ops(
                if cfg.inherit_base {
                    effective
                } else {
                    0
                },
                ops,
            ),
            op,
        ),
        after_ops(effective, ops.push(op)) == after_op(after_ops(effective, ops), op),
        after_ops(effective, Seq::empty()) == effective,
{
    assert(ops.push(op).drop_last() =~= ops);
}

/// Without `inherit_base` and without an operation that adds, the set that is
/// asked for is empty.
pub proof fn nothing_by_default(cfg: CapabilityConfig, effective: u64)
    requires
        !cfg.inherit_base,
        !cfg.adds(),
    ensures
        requested_set(cfg, effective) == 0,
{
    lemma_no_add_stays_empty(cfg.ops@);
}

proof fn lemma_no_add_stays_empty(ops: Seq<CapOp>)
    requires
        forall|i: int| 0 <= i < ops.len() ==> !(#[trigger] ops[i] is Add || ops[i] is AddAll),
    ensures
        after_ops(0, ops) == 0,
    decreases ops.len(),
{
    if ops.len() > 0 {
        let rest = ops.drop_last();
        assert forall|i: int| 0 <= i < rest.len() implies !(#[trigger] rest[i] is Add
            || rest[i] is AddAll) by {
            assert(rest[i] == ops[i]);
        }
        lemma_no_add_stays_empty(rest);
        let op = ops[ops.len() - 1];
        if let CapOp::Drop(cap) = op {
            let k = cap.number() as u64;
            assert(0u64 & !(1u64 << k) == 0) by (bit_vector);
        }
    }
}

/// Whether the bounding set must be narrowed; where it could not be read, it
/// must.
pub open spec fn bounding_excess(requested: u64, bounding: Option<u64>) -> bool {
    match bounding {
        None => true,
        Some(set) => set & !requested != 0,
    }
}

/// Whether the bounding set must be narrowed.
pub fn bounding_needs_drop(requested: u64, bounding: Option<u64>) -> (r: bool)
    ensures
        r == bounding_excess(requested, bounding),
{
    match bounding {
        None => true,
        Some(set) => (set & !requested) != 0,
    }
}

/// A readable bounding set must be narrowed exactly where it holds a
/// capability that is not wanted.
pub proof fn excess_is_a_capability(requested: u64, set: u64)
    ensures
        bounding_excess(requested, Some(set)) <==> exists|n: u64|
            n < 64 && #[trigger] holds(set, n) && !holds(requested, n),
{
    let extra = set & !requested;
    if extra != 0 {
        let n = vstd::std_specs::bits::u64_trailing_zeros(extra) as u64;
        vstd::std_specs::bits::axiom_u64_trailing_zeros(extra);
        assert((set >> n) & 1 == 1 && (requested >> n) & 1 != 1) by (bit_vector)
            requires
                n < 64,
                extra == set & !requested,
                (extra >> n) & 1 == 1,
        ;
        assert(holds(set, n) && !holds(requested, n));
    }
    assert forall|n: u64| n < 64 && #[trigger] holds(set, n) && !holds(requested, n) implies extra
        != 0 by {
        assert(set & !requested != 0) by (bit_vector)
            requires
                n < 64,
                (set >> n) & 1 == 1,
                (requested >> n) & 1 != 1,
        ;
    }
}

/// The set that a process has before anything is done: all capabilities for
/// root and for the creator of a user namespace, none for anyone else.
pub open spec fn natural_set(is_root: bool, userns_active: bool) -> u64 {
    if userns_active || is_root {
        FULL_SET
    } else {
        0
    }
}

/// Whether the ambient set is needed: only there do capabilities outlive
/// `execve` in a process that is not root.
pub open spec fn needs_ambient(
    requested: u64,
    is_root: bool,
    userns_active: bool,
    ns_root: bool,
) -> bool {
    requested != 0 && !ns_root && (!is_root || userns_active)
}

/// Whether `capset` is needed: where the set is not the natural one, and
/// always for the ambient set, which takes only what is inheritable.
pub open spec fn needs_capset(
    requested: u64,
    is_root: bool,
    userns_active: bool,
    ns_root: bool,
) -> bool {
    requested != natural_set(is_root, userns_active) || needs_ambient(
        requested,
        is_root,
        userns_active,
        ns_root,
    )
}

/// Whether the bounding set is narrowed: by root outside a user namespace,
/// where there is something to drop.
pub open spec fn needs_bounding(
    requested: u64,
    is_root: bool,
    userns_active: bool,
    bounding: Option<u64>,
) -> bool {
    !userns_active && is_root && requested != FULL_SET && bounding_excess(requested, bounding)
}

/// Three yes-or-no answers as a sum of the `CAP_F_` constants.
pub open spec fn flag_sum(capset: bool, bounding: bool, ambient: bool) -> u8 {
    ((if capset {
        CAP_F_NEED_CAPSET as int
    } else {
        0
    }) + (if bounding {
        CAP_F_NEED_BOUNDING as int
    } else {
        0
    }) + (if ambient {
        CAP_F_NEED_AMBIENT as int
    } else {
        0
    })) as u8
}

/// Works out the set that is wanted and the primitives that are needed.
///
/// `effective` is the effective set of the caller and `bounding` its bounding
/// set, where that could be read. `ns_root` says that the process is root in
/// its user namespace.
pub fn resolve_caps(
    cfg: &CapabilityConfig,
    is_root: bool,
    userns_active: bool,
    ns_root: bool,
    effective: u64,
    bounding: Option<u64>,
) -> (r: ResolvedCaps)
    ensures
        r.requested == requested_set(*cfg, effective),
        r.flags == flag_sum(
            needs_capset(r.requested, is_root, userns_active, ns_root),
            needs_bounding(r.requested, is_root, userns_active, bounding),
            needs_ambient(r.requested, is_root, userns_active, ns_root),
        ),
{
    let mut set: u64 = if cfg.inherit_base {
        effective
    } else {
        0
    };
    let ghost base = set;
    let mut i: usize = 0;
    assert(cfg.ops@.take(0) =~= Seq::<CapOp>::empty());
    while i < cfg.ops.len()
        invariant
            i <= cfg.ops@.len(),
            set == after_ops(base, cfg.ops@.take(i as int)),
        decreases cfg.ops.len() - i,
    {
        assert(cfg.ops@.take(i + 1).drop_last() =~= cfg.ops@.take(i as int));
        match cfg.ops[i] {
            CapOp::Add(cap) => {
                set = set | (1u64 << (cap.as_u16() as u64));
            },
            CapOp::Drop(cap) => {
                set = set & !(1u64 << (cap.as_u16() as u64));
            },
            CapOp::AddAll => {
                set = FULL_SET;
            },
            CapOp::DropAll => {
                set = 0;
            },
        }
        i += 1;
    }
    assert(cfg.ops@.take(cfg.ops@.len() as int) =~= cfg.ops@);
    let requested: u64 = set;
    let natural: u64 = if userns_active || is_root {
        FULL_SET
    } else {
        0
    };
    let ambient = requested != 0 && !ns_root && (!is_root || userns_active);
    let capset = requested != natural || ambient;
    let narrow = !userns_active && is_root && requested != FULL_SET && bounding_needs_drop(
        requested,
        bounding,
    );
    let mut flags: u8 = 0;
    if capset {
        flags = flags + CAP_F_NEED_CAPSET;
    }
    if narrow {
        flags = flags + CAP_F_NEED_BOUNDING;
    }
    if ambient {
        flags = flags + CAP_F_NEED_AMBIENT;
    }
    ResolvedCaps { requested, flags }
}

/// Each answer can be read off the sum.
pub proof fn flags_tell_answers(capset: bool, bounding: bool, ambient: bool)
    ensures
        flag_sum(capset, bounding, ambient) & CAP_F_NEED_CAPSET != 0 <==> capset,
        flag_sum(capset, bounding, ambient) & CAP_F_NEED_BOUNDING != 0 <==> bounding,
        flag_sum(capset, bounding, ambient) & CAP_F_NEED_AMBIENT != 0 <==> ambient,
{
    let sum = flag_sum(capset, bounding, ambient);
    assert(0u8 & 1 == 0 && 1u8 & 1 == 1 && 2u8 & 1 == 0 && 3u8 & 1 == 1 && 4u8 & 1 == 0 && 5u8 & 1
        == 1 && 6u8 & 1 == 0 && 7u8 & 1 == 1) by (bit_vector);
    assert(0u8 & 2 == 0 && 1u8 & 2 == 0 && 2u8 & 2 == 2 && 3u8 & 2 == 2 && 4u8 & 2 == 0 && 5u8 & 2
        == 0 && 6u8 & 2 == 2 && 7u8 & 2 == 2) by (bit_vector);
    assert(0u8 & 4 == 0 && 1u8 & 4 == 0 && 2u8 & 4 == 0 && 3u8 & 4 == 0 && 4u8 & 4 == 4 && 5u8 & 4
        == 4 && 6u8 & 4 == 4 && 7u8 & 4 == 4) by (bit_vector);
}

/// The ambient set is never asked for without `capset`, which alone makes
/// capabilities inheritable.
pub proof fn ambient_implies_capset(
    requested: u64,
    is_root: bool,
    userns_active: bool,
    ns_root: bool,
)
    requires
        needs_ambient(requested, is_root, userns_active, ns_root),
    ensures
        needs_capset(requested, is_root, userns_active, ns_root),
{
}

/// One step towards the wanted set.
#[derive(Debug, Clone, Copy, PartialEq, Eq, Structural)]
pub enum CapStep {
    /// Set all three sets to `mask`; a failure is passed over.
    TryCapset { mask: u64 },
    /// Drop a capability from the bounding set; a failure is passed over.
    DropBounding { cap: u32 },
    /// Set all three sets to `mask`; only a lack of permission is passed over.
    Capset { mask: u64 },
    /// Raise a capability into the ambient set; a failure is passed over.
    RaiseAmbient { cap: u32 },
}

/// The steps that drop from the bounding set what `requested` does not hold,
/// among the numbers below `upto`.
pub open spec fn bounding_steps(requested: u64, upto: nat) -> Seq<CapStep>
    decreases upto,
{
    if upto == 0 {
        Seq::empty()
    } else {
        let before = bounding_steps(requested, (upto - 1) as nat);
        if holds(requested, (upto - 1) as u64) {
            before
        } else {
            before.push(CapStep::DropBounding { cap: (upto - 1) as u32 })
        }
    }
}

/// The steps that raise what `requested` holds into the ambient set, among
/// the numbers below `upto`.
pub open spec fn ambient_steps(requested: u64, upto: nat) -> Seq<CapStep>
    decreases upto,
{
    if upto == 0 {
        Seq::empty()
    } else {
        let before = ambient_steps(requested, (upto - 1) as nat);
        if holds(requested, (upto - 1) as u64) {
            before.push(CapStep::RaiseAmbient { cap: (upto - 1) as u32 })
        } else {
            before
        }
    }
}

/// The steps towards `requested`: first the bounding set, then the three sets,
/// then the ambient set, each where `flags` asks for it.
pub open spec fn cap_steps(requested: u64, flags: u8) -> Seq<CapStep> {
    let bounding = if flags & CAP_F_NEED_BOUNDING != 0 {
        seq![CapStep::TryCapset { mask: requested | (1u64 << (CAP_SETPCAP_NR as u64)) }]
            + bounding_steps(requested, (CAP_LAST_CAP + 1) as nat)
    } else {
        Seq::empty()
    };
    let capset = if flags & CAP_F_NEED_CAPSET != 0 {
        seq![CapStep::Capset { mask: requested }]
    } else {
        Seq::empty()
    };
    let ambient = if flags & CAP_F_NEED_AMBIENT != 0 {
        ambient_steps(requested, (CAP_LAST_CAP + 1) as nat)
    } else {
        Seq::empty()
    };
    bounding + capset + ambient
}

/// Lists the steps towards `requested`.
pub fn apply_caps(requested: u64, flags: u8) -> (r: Vec<CapStep>)
    ensures
        r@ == cap_steps(requested, flags),
{
    let mut steps: Vec<CapStep> = Vec::new();
    let ghost mut done = Seq::<CapStep>::empty();
    if flags & CAP_F_NEED_BOUNDING != 0 {
        steps.push(CapStep::TryCapset { mask: requested | (1u64 << (CAP_SETPCAP_NR as u64)) });
        let ghost head = steps@;
        let mut cap: u32 = 0;
        while cap < CAP_LAST_CAP + 1
            invariant
                cap <= CAP_LAST_CAP + 1,
                steps@ == head + bounding_steps(requested, cap as nat),
            decreases CAP_LAST_CAP + 1 - cap,
        {
            if (requested >> (cap as u64)) & 1 != 1 {
                steps.push(CapStep::DropBounding { cap });
            }
            cap += 1;
            assert(steps@ =~= head + bounding_steps(requested, cap as nat));
        }
        proof {
            done = steps@;
        }
    }
    assert(steps@ =~= done);
    if flags & CAP_F_NEED_CAPSET != 0 {
        steps.push(CapStep::Capset { mask: requested });
        proof {
            done = done + seq![CapStep::Capset { mask: requested }];
        }
    }
    assert(steps@ =~= done);
    if flags & CAP_F_NEED_AMBIENT != 0 {
        let mut cap: u32 = 0;
        while cap < CAP_LAST_CAP + 1
            invariant
                cap <= CAP_LAST_CAP + 1,
                steps@ == done + ambient_steps(requested, cap as nat),
            decreases CAP_LAST_CAP + 1 - cap,
        {
            if (requested >> (cap as u64)) & 1 == 1 {
                steps.push(CapStep::RaiseAmbient { cap });
            }
            cap += 1;
            assert(steps@ =~= done + ambient_steps(requested, cap as nat));
        }
    }
    assert(steps@ =~= cap_steps(requested, flags));
    steps
}

/// Whether the child goes on after a step that failed with `errno`.
pub open spec fn survives(step: CapStep, errno: i32) -> bool {
    match step {
        CapStep::Capset { .. } => errno == EPERM,
        _ => true,
    }
}

/// Whether the child goes on after a step that failed with `errno`.
pub fn cap_step_survives(step: CapStep, errno: i32) -> (r: bool)
    ensures
        r == survives(step, errno),
{
    match step {
        CapStep::Capset { .. } => errno == EPERM,
        _ => true,
    }
}

proof fn lemma_bounding_steps(requested: u64, upto: nat, cap: u32)
    requires
        upto <= 64,
    ensures
        bounding_steps(requested, upto).contains(CapStep::DropBounding { cap }) <==> (cap < upto
            && !holds(requested, cap as u64)),
        forall|i: int|
            0 <= i < bounding_steps(requested, upto).len() ==> #[trigger] bounding_steps(
                requested,
                upto,
            )[i] is DropBounding,
    decreases upto,
{
    if upto > 0 {
        let prior = bounding_steps(requested, (upto - 1) as nat);
        let all = bounding_steps(requested, upto);
        lemma_bounding_steps(requested, (upto - 1) as nat, cap);
        let wanted = CapStep::DropBounding { cap };
        if all.contains(wanted) {
            let i = choose|i: int| 0 <= i < all.len() && all[i] == wanted;
            if i < prior.len() {
                assert(prior[i] == wanted);
            }
        }
        if prior.contains(wanted) {
            let i = choose|i: int| 0 <= i < prior.len() && prior[i] == wanted;
            assert(all[i] == wanted);
        }
        if cap == upto - 1 && !holds(requested, cap as u64) {
            assert(all[all.len() - 1] == wanted);
        }
    }
}

/// Narrowing the bounding set drops exactly the capabilities that are not
/// wanted.
pub proof fn bounding_drops_the_rest(requested: u64, cap: u32)
    ensures
        bounding_steps(requested, (CAP_LAST_CAP + 1) as nat).contains(
            CapStep::DropBounding { cap },
        ) <==> (cap <= CAP_LAST_CAP && !holds(requested, cap as u64)),
{
    lemma_bounding_steps(requested, (CAP_LAST_CAP + 1) as nat, cap);
}

proof fn lemma_ambient_steps(requested: u64, upto: nat, step: CapStep)
    requires
        upto <= 64,
    ensures
        ambient_steps(requested, upto).contains(step) <==> (step matches CapStep::RaiseAmbient { cap }
            && cap < upto && holds(requested, cap as u64)),
    decreases upto,
{
    if upto > 0 {
        let prior = ambient_steps(requested, (upto - 1) as nat);
        let all = ambient_steps(requested, upto);
        lemma_ambient_steps(requested, (upto - 1) as nat, step);
        if all.contains(step) {
            let i = choose|i: int| 0 <= i < all.len() && all[i] == step;
            if i < prior.len() {
                assert(prior[i] == step);
            }
        }
        if prior.contains(step) {
            let i = choose|i: int| 0 <= i < prior.len() && prior[i] == step;
            assert(all[i] == step);
        }
        if step matches CapStep::RaiseAmbient { cap } && cap == upto - 1 && holds(
            requested,
            cap as u64,
        ) {
            assert(all[all.len() - 1] == step);
        }
    }
}

proof fn lemma_bounding_members(requested: u64, step: CapStep)
    ensures
        bounding_steps(requested, (CAP_LAST_CAP + 1) as nat).contains(step) <==> (
        step matches CapStep::DropBounding { cap } && cap <= CAP_LAST_CAP && !holds(
            requested,
            cap as u64,
        )),
{
    let all = bounding_steps(requested, (CAP_LAST_CAP + 1) as nat);
    if let CapStep::DropBounding { cap } = step {
        lemma_bounding_steps(requested, (CAP_LAST_CAP + 1) as nat, cap);
    } else {
        lemma_bounding_steps(requested, (CAP_LAST_CAP + 1) as nat, 0);
        if all.contains(step) {
            let i = choose|i: int| 0 <= i < all.len() && all[i] == step;
            assert(all[i] is DropBounding);
        }
    }
}

proof fn lemma_parts_hold(a: Seq<CapStep>, b: Seq<CapStep>, step: CapStep)
    ensures
        (a + b).contains(step) <==> (a.contains(step) || b.contains(step)),
{
    let all = a + b;
    if a.contains(step) {
        let i = choose|i: int| 0 <= i < a.len() && a[i] == step;
        assert(all[i] == step);
    }
    if b.contains(step) {
        let i = choose|i: int| 0 <= i < b.len() && b[i] == step;
        assert(all[a.len() + i] == step);
    }
    if all.contains(step) {
        let i = choose|i: int| 0 <= i < all.len() && all[i] == step;
        if i < a.len() {
            assert(a[i] == step);
        } else {
            assert(b[i - a.len()] == step);
        }
    }
}

/// The steps towards a set are those that it calls for, and no others: the
/// bounding set loses what is not wanted, by way of the right to change it, the
/// three sets become the set that is wanted, and what is wanted is raised into
/// the ambient set; each where it is needed.
pub proof fn cap_steps_fit_the_set(requested: u64, flags: u8, step: CapStep)
    ensures
        cap_steps(requested, flags).contains(step) <==> match step {
            CapStep::TryCapset { mask } => flags & CAP_F_NEED_BOUNDING != 0 && mask == requested
                | (1u64 << 8u64),
            CapStep::DropBounding { cap } => flags & CAP_F_NEED_BOUNDING != 0 && cap <= 40
                && !holds(requested, cap as u64),
            CapStep::Capset { mask } => flags & CAP_F_NEED_CAPSET != 0 && mask == requested,
            CapStep::RaiseAmbient { cap } => flags & CAP_F_NEED_AMBIENT != 0 && cap <= 40 && holds(
                requested,
                cap as u64,
            ),
        },
{
    let none = Seq::<CapStep>::empty();
    let first = seq![CapStep::TryCapset { mask: requested | (1u64 << (CAP_SETPCAP_NR as u64)) }];
    let drops = bounding_steps(requested, (CAP_LAST_CAP + 1) as nat);
    let only = seq![CapStep::Capset { mask: requested }];
    let raises = ambient_steps(requested, (CAP_LAST_CAP + 1) as nat);
    let bounding = if flags & CAP_F_NEED_BOUNDING != 0 {
        first + drops
    } else {
        none
    };
    let capset = if flags & CAP_F_NEED_CAPSET != 0 {
        only
    } else {
        none
    };
    let ambient = if flags & CAP_F_NEED_AMBIENT != 0 {
        raises
    } else {
        none
    };
    assert(first[0] is TryCapset && only[0] is Capset);
    lemma_bounding_members(requested, step);
    lemma_ambient_steps(requested, (CAP_LAST_CAP + 1) as nat, step);
    lemma_parts_hold(first, drops, step);
    lemma_parts_hold(bounding, capset, step);
    lemma_parts_hold(bounding + capset, ambient, step);
    assert(cap_steps(requested, flags) == bounding + capset + ambient);
}

/// The place of a step among the steps towards a set.
pub open spec fn cap_stage(step: CapStep) -> int {
    match step {
        CapStep::TryCapset { .. } => 0,
        CapStep::DropBounding { .. } => 1,
        CapStep::Capset { .. } => 2,
        CapStep::RaiseAmbient { .. } => 3,
    }
}

/// The places one after the other.
pub proof fn cap_stages_in_order(mask: u64, cap: u32)
    ensures
        cap_stage(CapStep::TryCapset { mask }) < cap_stage(CapStep::DropBounding { cap })
            < cap_stage(CapStep::Capset { mask }) < cap_stage(CapStep::RaiseAmbient { cap }),
{
}

/// The bounding set is narrowed while the right to do so is still held, and the
/// ambient set is raised after the sets that it is drawn from are set.
pub proof fn cap_steps_come_in_order(requested: u64, flags: u8, i: int, j: int)
    requires
        0 <= i < j < cap_steps(requested, flags).len(),
    ensures
        cap_stage(cap_steps(requested, flags)[i]) <= cap_stage(cap_steps(requested, flags)[j]),
{
    let all = cap_steps(requested, flags);
    let drops = bounding_steps(requested, (CAP_LAST_CAP + 1) as nat);
    let raises = ambient_steps(requested, (CAP_LAST_CAP + 1) as nat);
    let n = if flags & CAP_F_NEED_BOUNDING != 0 {
        1 + drops.len() as int
    } else {
        0
    };
    let m = n + if flags & CAP_F_NEED_CAPSET != 0 {
        1int
    } else {
        0
    };
    lemma_bounding_steps(requested, (CAP_LAST_CAP + 1) as nat, 0);
    assert forall|k: int| 0 <= k < all.len() implies (k < n ==> cap_stage(#[trigger] all[k]) == if k
        == 0 {
        0int
    } else {
        1
    }) && (n <= k < m ==> cap_stage(all[k]) == 2) && (m <= k ==> cap_stage(all[k]) == 3) by {
        if 0 < k < n {
            assert(all[k] == drops[k - 1]);
        } else if k >= m {
            assert(all[k] == raises[k - m]);
            assert(raises.contains(all[k]));
            lemma_ambient_steps(requested, (CAP_LAST_CAP + 1) as nat, all[k]);
        }
    }
    assert(cap_stage(all[i]) <= cap_stage(all[j]));
}

/// The low word of a set.
pub open spec fn low_word(set: u64) -> u32 {
    (set & 0xffff_ffff) as u32
}

/// The high word of a set.
pub open spec fn high_word(set: u64) -> u32 {
    (set >> 32) as u32
}

/// The set whose two words are given.
pub open spec fn joined(low: u32, high: u32) -> u64 {
    ((high as u64) << 32) | (low as u64)
}

/// A set is the join of its two words.
pub proof fn words_make_the_set(set: u64)
    ensures
        joined(low_word(set), high_word(set)) == set,
{
    assert((((set >> 32) as u32 as u64) << 32) | ((set & 0xffff_ffff) as u32 as u64) == set)
        by (bit_vector);
}

/// The low word holds the capabilities below 32 and the high word the others.
pub proof fn words_share_the_set(set: u64)
    ensures
        low_word(set) == set % 0x1_0000_0000,
        high_word(set) == set / 0x1_0000_0000,
{
    assert((set & 0xffff_ffff) as u32 == set % 0x1_0000_0000 && (set >> 32) as u32 == set
        / 0x1_0000_0000) by (bit_vector);
}

/// The arguments with which `capset` sets all three sets of the caller.
pub fn capset_args(set: u64) -> (r: (CapHeader, [CapData; 2]))
    ensures
        r.0 == (CapHeader { version: LINUX_CAPABILITY_VERSION_3, pid: 0 }),
        r.1[0] == (CapData {
            effective: low_word(set),
            permitted: low_word(set),
            inheritable: low_word(set),
        }),
        r.1[1] == (CapData {
            effective: high_word(set),
            permitted: high_word(set),
            inheritable: high_word(set),
        }),
{
    let lo: u32 = (set & 0xffff_ffff) as u32;
    let hi: u32 = (set >> 32) as u32;
    (
        CapHeader { version: LINUX_CAPABILITY_VERSION_3, pid: 0 },
        [
            CapData { effective: lo, permitted: lo, inheritable: lo },
            CapData { effective: hi, permitted: hi, inheritable: hi },
        ],
    )
}

/// The effective set that `capget` reported, or none where it failed.
pub fn current_effective(result: i64, data: &[CapData; 2]) -> (r: u64)
    ensures
        r == if result != 0 {
            0
        } else {
            joined(data[0].effective, data[1].effective)
        },
{
    if result != 0 {
        return 0;
    }
    ((data[1].effective as u64) << 32) | (data[0].effective as u64)
}

/// The first of `lines` that begins with `prefix`, without the prefix.
pub open spec fn first_field(lines: Seq<Seq<char>>, prefix: Seq<char>) -> Option<Seq<char>>
    decreases lines.len(),
{
    if lines.len() == 0 {
        None
    } else if text::begins(lines[0], prefix) {
        Some(lines[0].skip(prefix.len() as int))
    } else {
        first_field(lines.drop_first(), prefix)
    }
}

/// The field is taken from the first line that begins with the prefix; there is
/// none where no line does.
pub proof fn first_line_gives_the_field(lines: Seq<Seq<char>>, prefix: Seq<char>)
    ensures
        match first_field(lines, prefix) {
            Some(field) => exists|i: int|
                {
                    &&& 0 <= i < lines.len()
                    &&& #[trigger] lines[i] == prefix + field
                    &&& forall|j: int| 0 <= j < i ==> !text::begins(#[trigger] lines[j], prefix)
                },
            None => forall|j: int|
                0 <= j < lines.len() ==> !text::begins(#[trigger] lines[j], prefix),
        },
    decreases lines.len(),
{
    if lines.len() > 0 {
        if text::begins(lines[0], prefix) {
            assert(lines[0] =~= prefix + lines[0].skip(prefix.len() as int));
        } else {
            let rest = lines.drop_first();
            first_line_gives_the_field(rest, prefix);
            match first_field(rest, prefix) {
                Some(field) => {
                    let i = choose|i: int|
                        {
                            &&& 0 <= i < rest.len()
                            &&& #[trigger] rest[i] == prefix + field
                            &&& forall|j: int|
                                0 <= j < i ==> !text::begins(#[trigger] rest[j], prefix)
                        };
                    assert(lines[i + 1] == prefix + field);
                    assert forall|j: int| 0 <= j < i + 1 implies !text::begins(
                        #[trigger] lines[j],
                        prefix,
                    ) by {
                        if j > 0 {
                            assert(lines[j] == rest[j - 1]);
                        }
                    }
                },
                None => {
                    assert forall|j: int| 0 <= j < lines.len() implies !text::begins(
                        #[trigger] lines[j],
                        prefix,
                    ) by {
                        if j > 0 {
                            assert(lines[j] == rest[j - 1]);
                        }
                    }
                },
            }
        }
    }
}

/// The bounding set in the text of a process's status: the first line that
/// begins with `CapBnd:` holds it as a hexadecimal number.
pub open spec fn bounding_in(status: Seq<char>) -> Option<u64> {
    match first_field(text::lines_of(status), "CapBnd:"@) {
        None => None,
        Some(field) => match text::number_value(text::trimmed(field), 16, 0, u64::MAX as int) {
            Ok(set) => Some(set as u64),
            Err(_) => None,
        },
    }
}

/// A bounding set that a status writes in hexadecimal reads back as itself.
pub proof fn bounding_set_reads_back(status: Seq<char>, field: Seq<char>, set: u64)
    requires
        first_field(text::lines_of(status), "CapBnd:"@) == Some(field),
        text::trimmed(field) == text::numeral(set as nat, 16),
    ensures
        bounding_in(status) == Some(set),
{
    text::numerals_read_back(set as nat, 16, u64::MAX as int);
}

/// A status without the line tells no bounding set.
pub proof fn missing_line_tells_nothing(status: Seq<char>)
    requires
        forall|j: int|
            0 <= j < text::lines_of(status).len() ==> !text::begins(
                #[trigger] text::lines_of(status)[j],
                "CapBnd:"@,
            ),
    ensures
        bounding_in(status) is None,
{
    let lines = text::lines_of(status);
    first_line_gives_the_field(lines, "CapBnd:"@);
    if let Some(field) = first_field(lines, "CapBnd:"@) {
        let i = choose|i: int| 0 <= i < lines.len() && #[trigger] lines[i] == "CapBnd:"@ + field;
        text::texts_hold_their_parts(Seq::empty(), "CapBnd:"@, field);
    }
}

/// The bounding set in the text of a process's status; `None` where the text
/// could not be read or does not hold it.
pub fn read_bounding_set(status: Option<&str>) -> (r: Option<u64>)
    ensures
        r == match status {
            None => None,
            Some(content) => bounding_in(content@),
        },
{
    let content = match status {
        None => {
            return None;
        },
        Some(content) => content,
    };
    let lines = text::split_lines(content);
    let prefix = text::chars_of("CapBnd:");
    let ghost all = text::lines_of(content@);
    let mut i: usize = 0;
    assert(all.skip(0) =~= all);
    while i < lines.len()
        invariant
            i <= lines@.len(),
            status == Some(content),
            text::views(lines@) == all,
            all == text::lines_of(content@),
            prefix@ == "CapBnd:"@,
            first_field(all.skip(i as int), prefix@) == first_field(all, prefix@),
        decreases lines.len() - i,
    {
        let line = text::chars_of(lines[i].as_str());
        assert(line@ == all[i as int]);
        assert(all.skip(i as int)[0] == line@);
        assert(line@.skip(0) =~= line@);
        if text::matches_at(&line, 0, &prefix) {
            let rest = text::chars_of(text::string_from(&line, prefix.len(), line.len()).as_str());
            assert(rest@ =~= line@.skip(prefix@.len() as int));
            let number = text::trim(&rest);
            return match text::parse_u64_radix(&number, 16) {
                Ok(set) => Some(set),
                Err(_) => None,
            };
        }
        assert(all.skip(i as int).drop_first() =~= all.skip(i + 1));
        i += 1;
    }
    assert(all.skip(i as int).len() == 0);
    None
}

} // verus!
