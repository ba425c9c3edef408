//! Landlock rulesets: which rights are handled, and which are granted where.
//!
//! As soon as there is a rule, all rights that the kernel knows are handled,
//! and a right that is handled but not granted is denied. The rights of a rule
//! that the kernel does not know are left out.

use crate::config::{expand_tilde_with, home_dir, opt_view, with_home};
use crate::perm::{LandlockPerm, LandlockRule};
use landlock::{
    path_beneath_rules, AccessFs, BitFlags, CompatLevel, Compatible, RulesetAttr,
    RulesetCreatedAttr, ABI,
};
use vstd::prelude::*;

verus! {

/// The rights that exist: seventeen bits.
pub const KNOWN_RIGHTS: u64 = 0x1_ffff;

/// The newest version that is looked for.
pub const NEWEST_VERSION: i32 = 7;

/// A ruleset without rules.
#[verifier::external_type_specification]
#[verifier::external_body]
pub struct ExRuleset(landlock::Ruleset);

/// A ruleset in the making.
#[verifier::external_type_specification]
#[verifier::external_body]
pub struct ExRulesetCreated(landlock::RulesetCreated);

/// What went wrong with a ruleset.
#[verifier::external_type_specification]
#[verifier::external_body]
pub struct ExRulesetError(landlock::RulesetError);

/// The version of Landlock that a ruleset found the kernel to have; zero for
/// none.
pub uninterp spec fn kernel_version(ruleset: landlock::Ruleset) -> int;

/// The rights that a ruleset was made to handle.
pub uninterp spec fn handled_rights(ruleset: landlock::RulesetCreated) -> u64;

/// The paths and rights that a ruleset was asked to grant, in order: the
/// history of what was asked of the value, not what the kernel holds.
pub uninterp spec fn asked_grants(ruleset: landlock::RulesetCreated) -> Seq<(Seq<char>, u64)>;

/// The reading rights of a version: execute, read file, read directory.
pub open spec fn read_rights(version: int) -> u64 {
    if version <= 0 {
        0
    } else {
        0xd
    }
}

/// The writing rights of a version. The second one adds refer, the third one
/// truncate, the fifth one ioctl on devices and the ninth one connecting to
/// sockets by path.
pub open spec fn write_rights(version: int) -> u64 {
    if version <= 0 {
        0
    } else if version == 1 {
        0x1ff2
    } else if version == 2 {
        0x3ff2
    } else if version <= 4 {
        0x7ff2
    } else if version <= 8 {
        0xfff2
    } else {
        0x1_fff2
    }
}

/// All rights of a version.
pub open spec fn all_rights(version: int) -> u64 {
    read_rights(version) | write_rights(version)
}

/// `landlock::AccessFs::from_read`: the reading rights of a version, as bits.
#[verifier::external_body]
fn from_read(version: i32) -> (r: u64)
    ensures
        r == read_rights(version as int),
{
    AccessFs::from_read(ABI::from(version)).bits()
}

/// `landlock::AccessFs::from_write`: the writing rights of a version, as bits.
#[verifier::external_body]
fn from_write(version: i32) -> (r: u64)
    ensures
        r == write_rights(version as int),
{
    AccessFs::from_write(ABI::from(version)).bits()
}

/// `landlock::Ruleset::default`: an empty ruleset, which asks the running
/// kernel for its version of Landlock and keeps the answer. The kernel decides
/// which one it is; versions newer than the newest known one count as that.
#[verifier::external_body]
fn new_ruleset() -> (r: landlock::Ruleset)
    ensures
        0 <= kernel_version(r) <= 9,
{
    landlock::Ruleset::default()
}

/// `landlock::RulesetAttr::handle_access` with hard requirements: whether the
/// kernel version that the ruleset keeps has all of these rights, and there
/// are any. The ruleset goes on keeping that version.
#[verifier::external_body]
fn handles(ruleset: &mut landlock::Ruleset, rights: u64) -> (r: bool)
    requires
        rights & KNOWN_RIGHTS == rights,
    ensures
        r == (rights != 0 && rights & all_rights(kernel_version(*old(ruleset))) == rights),
        kernel_version(*final(ruleset)) == kernel_version(*old(ruleset)),
{
    let access = BitFlags::<AccessFs>::from_bits_truncate(rights);
    ruleset.set_compatibility(CompatLevel::HardRequirement).handle_access(access).is_ok()
}

/// `landlock::Ruleset::create` with best effort: a ruleset that handles these
/// rights and grants nothing yet, or an error of the kernel.
#[verifier::external_body]
fn create_ruleset(rights: u64) -> (r: Result<landlock::RulesetCreated, landlock::RulesetError>)
    requires
        rights & KNOWN_RIGHTS == rights,
    ensures
        r matches Ok(ruleset) ==> handled_rights(ruleset) == rights && asked_grants(ruleset)
            == Seq::<(Seq<char>, u64)>::empty(),
{
    let access = BitFlags::<AccessFs>::from_bits_truncate(rights);
    landlock::Ruleset::default().set_compatibility(CompatLevel::BestEffort).handle_access(access)?.create()
}

/// `landlock::RulesetCreatedAttr::add_rules` with `landlock::path_beneath_rules`
/// on one path: the ruleset is asked to grant these rights below the path. A
/// path that cannot be opened is passed over, and on a file only the rights
/// that files have are granted.
#[verifier::external_body]
fn add_grant(ruleset: landlock::RulesetCreated, path: &str, rights: u64) -> (r: Result<
    landlock::RulesetCreated,
    landlock::RulesetError,
>)
    requires
        rights & KNOWN_RIGHTS == rights,
    ensures
        r matches Ok(next) ==> handled_rights(next) == handled_rights(ruleset) && asked_grants(next)
            == asked_grants(ruleset).push((path@, rights)),
{
    let access = BitFlags::<AccessFs>::from_bits_truncate(rights);
    ruleset.add_rules(path_beneath_rules([path], access))
}

/// The right of a permission.
pub open spec fn right_of(perm: LandlockPerm) -> u64 {
    match perm {
        LandlockPerm::Execute => 0x1,
        LandlockPerm::WriteFile => 0x2,
        LandlockPerm::ReadFile => 0x4,
        LandlockPerm::ReadDir => 0x8,
        LandlockPerm::RemoveDir => 0x10,
        LandlockPerm::RemoveFile => 0x20,
        LandlockPerm::MakeChar => 0x40,
        LandlockPerm::MakeDir => 0x80,
        LandlockPerm::MakeReg => 0x100,
        LandlockPerm::MakeSock => 0x200,
        LandlockPerm::MakeFifo => 0x400,
        LandlockPerm::MakeBlock => 0x800,
        LandlockPerm::MakeSym => 0x1000,
        LandlockPerm::Refer => 0x2000,
        LandlockPerm::Truncate => 0x4000,
        LandlockPerm::IoctlDev => 0x8000,
    }
}

/// The right of a permission.
pub fn perm_right(perm: LandlockPerm) -> (r: u64)
    ensures
        r == right_of(perm),
{
    match perm {
        LandlockPerm::Execute => 0x1,
        LandlockPerm::WriteFile => 0x2,
        LandlockPerm::ReadFile => 0x4,
        LandlockPerm::ReadDir => 0x8,
        LandlockPerm::RemoveDir => 0x10,
        LandlockPerm::RemoveFile => 0x20,
        LandlockPerm::MakeChar => 0x40,
        LandlockPerm::MakeDir => 0x80,
        LandlockPerm::MakeReg => 0x100,
        LandlockPerm::MakeSock => 0x200,
        LandlockPerm::MakeFifo => 0x400,
        LandlockPerm::MakeBlock => 0x800,
        LandlockPerm::MakeSym => 0x1000,
        LandlockPerm::Refer => 0x2000,
        LandlockPerm::Truncate => 0x4000,
        LandlockPerm::IoctlDev => 0x8000,
    }
}

/// The right of each permission, by the bit that the kernel gives it.
pub proof fn rights_of_the_kernel()
    ensures
        right_of(LandlockPerm::Execute) == 0x1,
        right_of(LandlockPerm::WriteFile) == 0x2,
        right_of(LandlockPerm::ReadFile) == 0x4,
        right_of(LandlockPerm::ReadDir) == 0x8,
        right_of(LandlockPerm::RemoveDir) == 0x10,
        right_of(LandlockPerm::RemoveFile) == 0x20,
        right_of(LandlockPerm::MakeChar) == 0x40,
        right_of(LandlockPerm::MakeDir) == 0x80,
        right_of(LandlockPerm::MakeReg) == 0x100,
        right_of(LandlockPerm::MakeSock) == 0x200,
        right_of(LandlockPerm::MakeFifo) == 0x400,
        right_of(LandlockPerm::MakeBlock) == 0x800,
        right_of(LandlockPerm::MakeSym) == 0x1000,
        right_of(LandlockPerm::Refer) == 0x2000,
        right_of(LandlockPerm::Truncate) == 0x4000,
        right_of(LandlockPerm::IoctlDev) == 0x8000,
{
}

/// The reading rights of a version are those to run programs and to read files
/// and directories; all others are writing rights. Moving files between
/// directories comes with the second version, truncating with the third and
/// control of devices with the fifth.
pub proof fn rights_of_versions(version: int, perm: LandlockPerm)
    requires
        version >= 1,
    ensures
        read_rights(version) & right_of(perm) != 0 <==> (perm is Execute || perm is ReadFile
            || perm is ReadDir),
        write_rights(version) & right_of(perm) != 0 <==> !(perm is Execute || perm is ReadFile
            || perm is ReadDir) && (perm is Refer ==> version >= 2) && (perm is Truncate ==> version
            >= 3) && (perm is IoctlDev ==> version >= 5),
{
    let right = right_of(perm);
    let writes = write_rights(version);
    assert((0xdu64 & right != 0 <==> (right == 1 || right == 4 || right == 8)) && (writes & right
        != 0 <==> !(right == 1 || right == 4 || right == 8) && (right == 0x2000 ==> writes != 0x1ff2)
        && (right == 0x4000 ==> writes != 0x1ff2 && writes != 0x3ff2) && (right == 0x8000 ==> writes
        != 0x1ff2 && writes != 0x3ff2 && writes != 0x7ff2))) by (bit_vector)
        requires
            writes == 0x1ff2 || writes == 0x3ff2 || writes == 0x7ff2 || writes == 0xfff2 || writes
                == 0x1_fff2,
            right == 1 || right == 2 || right == 4 || right == 8 || right == 0x10 || right == 0x20
                || right == 0x40 || right == 0x80 || right == 0x100 || right == 0x200 || right
                == 0x400 || right == 0x800 || right == 0x1000 || right == 0x2000 || right == 0x4000
                || right == 0x8000,
    ;
}

/// The rights of a list of permissions.
pub open spec fn rights_of(perms: Seq<LandlockPerm>) -> u64
    decreases perms.len(),
{
    if perms.len() == 0 {
        0
    } else {
        rights_of(perms.drop_last()) | right_of(perms.last())
    }
}

proof fn lemma_right_bits(rights: u64, a: LandlockPerm, b: LandlockPerm)
    ensures
        (rights | right_of(a)) & right_of(b) != 0 <==> (rights & right_of(b) != 0 || a == b),
        right_of(a) & right_of(a) != 0,
{
    let x = right_of(a);
    let y = right_of(b);
    assert((rights | x) & y != 0 <==> (rights & y != 0 || x == y)) by (bit_vector)
        requires
            x == 1 || x == 2 || x == 4 || x == 8 || x == 0x10 || x == 0x20 || x == 0x40 || x == 0x80
                || x == 0x100 || x == 0x200 || x == 0x400 || x == 0x800 || x == 0x1000 || x
                == 0x2000 || x == 0x4000 || x == 0x8000,
            y == 1 || y == 2 || y == 4 || y == 8 || y == 0x10 || y == 0x20 || y == 0x40 || y == 0x80
                || y == 0x100 || y == 0x200 || y == 0x400 || y == 0x800 || y == 0x1000 || y
                == 0x2000 || y == 0x4000 || y == 0x8000,
    ;
    assert(x & x == x) by (bit_vector);
    assert((x == y) == (a == b));
}

/// The rights of a list hold the right of a permission exactly where the
/// permission is on the list.
pub proof fn rights_are_those_listed(perms: Seq<LandlockPerm>, perm: LandlockPerm)
    ensures
        rights_of(perms) & right_of(perm) != 0 <==> perms.contains(perm),
    decreases perms.len(),
{
    if perms.len() == 0 {
        let right = right_of(perm);
        assert(0u64 & right == 0) by (bit_vector);
    } else {
        let rest = perms.drop_last();
        rights_are_those_listed(rest, perm);
        lemma_right_bits(rights_of(rest), perms.last(), perm);
        if perms.contains(perm) {
            let i = choose|i: int| 0 <= i < perms.len() && perms[i] == perm;
            if i < rest.len() {
                assert(rest[i] == perm);
            }
        }
        if rest.contains(perm) {
            let i = choose|i: int| 0 <= i < rest.len() && rest[i] == perm;
            assert(perms[i] == perm);
        }
        if perms.last() == perm {
            assert(perms[perms.len() - 1] == perm);
        }
    }
}

/// The rights of a list hold nothing but rights of permissions.
pub proof fn rights_are_rights_of_permissions(perms: Seq<LandlockPerm>)
    ensures
        rights_of(perms) <= 0xffff,
    decreases perms.len(),
{
    if perms.len() > 0 {
        rights_are_rights_of_permissions(perms.drop_last());
        let before = rights_of(perms.drop_last());
        let right = right_of(perms.last());
        assert(before | right <= 0xffff) by (bit_vector)
            requires
                before <= 0xffff,
                right <= 0xffff,
        ;
    }
}

/// The rights of a list of permissions.
pub fn perms_rights(perms: &Vec<LandlockPerm>) -> (r: u64)
    ensures
        r == rights_of(perms@),
{
    let mut rights: u64 = 0;
    let mut i: usize = 0;
    assert(perms@.take(0) =~= Seq::<LandlockPerm>::empty());
    while i < perms.len()
        invariant
            i <= perms@.len(),
            rights == rights_of(perms@.take(i as int)),
        decreases perms.len() - i,
    {
        assert(perms@.take(i + 1).drop_last() =~= perms@.take(i as int));
        rights = rights | perm_right(perms[i]);
        i += 1;
    }
    assert(perms@.take(i as int) =~= perms@);
    rights
}

/// Whether a rule comes to nothing because the kernel handles none of the
/// rights that it names.
pub open spec fn comes_to_nothing(perms: Seq<LandlockPerm>, handled: u64) -> bool {
    perms.len() > 0 && rights_of(perms) & handled == 0
}

/// What the rules ask to be granted where `handled` are the rights in play.
pub open spec fn grants_for(
    rules: Seq<LandlockRule>,
    handled: u64,
    home: Option<Seq<char>>,
) -> Seq<(Seq<char>, u64)>
    decreases rules.len(),
{
    if rules.len() == 0 {
        Seq::empty()
    } else {
        let before = grants_for(rules.drop_last(), handled, home);
        let rule = rules.last();
        if comes_to_nothing(rule.perms@, handled) {
            before
        } else {
            before.push((with_home(rule.path@, home), rights_of(rule.perms@) & handled))
        }
    }
}

/// Grants with their paths as sequences of characters.
pub open spec fn grant_views(grants: Seq<(String, u64)>) -> Seq<(Seq<char>, u64)> {
    grants.map_values(|grant: (String, u64)| (grant.0@, grant.1))
}

/// The views of a list of grants are those of its grants, each in its place.
pub proof fn grant_views_keep_their_places(grants: Seq<(String, u64)>)
    ensures
        grant_views(grants).len() == grants.len(),
        forall|i: int|
            0 <= i < grants.len() ==> #[trigger] grant_views(grants)[i] == (
                grants[i].0@,
                grants[i].1,
            ),
{
}

/// Works out what the rules ask to be granted where `handled` are the rights
/// in play and `home` is the home directory.
pub fn plan_grants(rules: &Vec<LandlockRule>, handled: u64, home: &Option<String>) -> (r: Vec<
    (String, u64),
>)
    ensures
        grant_views(r@) == grants_for(rules@, handled, opt_view(*home)),
{
    let mut grants: Vec<(String, u64)> = Vec::new();
    let mut i: usize = 0;
    assert(rules@.take(0) =~= Seq::<LandlockRule>::empty());
    assert(grant_views(grants@) =~= Seq::<(Seq<char>, u64)>::empty());
    while i < rules.len()
        invariant
            i <= rules@.len(),
            grant_views(grants@) == grants_for(rules@.take(i as int), handled, opt_view(*home)),
        decreases rules.len() - i,
    {
        let ghost next = rules@.take(i + 1);
        assert(next.drop_last() =~= rules@.take(i as int));
        assert(next.last() == rules@[i as int]);
        let rights: u64 = perms_rights(&rules[i].perms) & handled;
        let idle = rules[i].perms.len() > 0 && rights == 0;
        if !idle {
            let path = expand_tilde_with(rules[i].path.as_str(), home);
            let ghost before = grant_views(grants@);
            grants.push((path, rights));
            assert(grant_views(grants@) =~= before.push((path@, rights)));
        }
        i += 1;
    }
    assert(rules@.take(i as int) =~= rules@);
    grants
}

/// Nothing is granted that no rule names, and nothing outside the rights in
/// play: each grant is for the path of some rule, with rights of that rule.
pub proof fn only_named_rights_are_granted(
    rules: Seq<LandlockRule>,
    handled: u64,
    home: Option<Seq<char>>,
    k: int,
)
    requires
        0 <= k < grants_for(rules, handled, home).len(),
    ensures
        exists|i: int|
            0 <= i < rules.len() && grants_for(rules, handled, home)[k] == (
                with_home((#[trigger] rules[i]).path@, home),
                rights_of(rules[i].perms@) & handled,
            ),
        grants_for(rules, handled, home)[k].1 & !handled == 0,
    decreases rules.len(),
{
    let rest = rules.drop_last();
    let before = grants_for(rest, handled, home);
    let all = grants_for(rules, handled, home);
    if k < before.len() {
        only_named_rights_are_granted(rest, handled, home, k);
        let i = choose|i: int|
            0 <= i < rest.len() && before[k] == (
                with_home((#[trigger] rest[i]).path@, home),
                rights_of(rest[i].perms@) & handled,
            );
        assert(rules[i] == rest[i]);
        assert(all[k] == before[k]);
    } else {
        let rights = rights_of(rules.last().perms@);
        assert(rules[rules.len() - 1] == rules.last());
        assert((rights & handled) & !handled == 0) by (bit_vector);
    }
}

/// A permission that a rule names and the kernel handles is granted on the
/// rule's path.
pub proof fn named_rights_are_granted(
    rules: Seq<LandlockRule>,
    handled: u64,
    home: Option<Seq<char>>,
    i: int,
    perm: LandlockPerm,
)
    requires
        0 <= i < rules.len(),
        rules[i].perms@.contains(perm),
        handled & right_of(perm) != 0,
    ensures
        exists|k: int|
            0 <= k < grants_for(rules, handled, home).len() && (#[trigger] grants_for(
                rules,
                handled,
                home,
            )[k]).0 == with_home(rules[i].path@, home) && grants_for(rules, handled, home)[k].1
                & right_of(perm) != 0,
    decreases rules.len(),
{
    let rest = rules.drop_last();
    let before = grants_for(rest, handled, home);
    let all = grants_for(rules, handled, home);
    if i < rules.len() - 1 {
        named_rights_are_granted(rest, handled, home, i, perm);
        let k = choose|k: int|
            0 <= k < before.len() && (#[trigger] before[k]).0 == with_home(rest[i].path@, home)
                && before[k].1 & right_of(perm) != 0;
        assert(all[k] == before[k]);
    } else {
        let rights = rights_of(rules[i].perms@);
        let right = right_of(perm);
        rights_are_those_listed(rules[i].perms@, perm);
        assert((rights & handled) & right != 0 && rights & handled != 0) by (bit_vector)
            requires
                rights & right != 0,
                handled & right != 0,
                right == 1 || right == 2 || right == 4 || right == 8 || right == 0x10 || right
                    == 0x20 || right == 0x40 || right == 0x80 || right == 0x100 || right == 0x200
                    || right == 0x400 || right == 0x800 || right == 0x1000 || right == 0x2000
                    || right == 0x4000 || right == 0x8000,
        ;
        assert(all[before.len() as int].1 & right != 0);
    }
}

/// A rule comes to nothing only where it names rights and the kernel has none of
/// them; every other rule makes one grant, and grants come in the order of the
/// rules.
pub proof fn grants_follow_the_rules(
    rules: Seq<LandlockRule>,
    rule: LandlockRule,
    handled: u64,
    home: Option<Seq<char>>,
)
    ensures
        grants_for(Seq::empty(), handled, home).len() == 0,
        grants_for(rules.push(rule), handled, home) == if rule.perms@.len() > 0 && rights_of(
            rule.perms@,
        ) & handled == 0 {
            grants_for(rules, handled, home)
        } else {
            grants_for(rules, handled, home).push(
                (with_home(rule.path@, home), rights_of(rule.perms@) & handled),
            )
        },
{
    assert(rules.push(rule).drop_last() =~= rules);
}

/// What the rights of a version amount to, as one number.
proof fn lemma_all_rights(version: int)
    ensures
        all_rights(version) == if version <= 0 {
            0u64
        } else if version == 1 {
            0x1fffu64
        } else if version == 2 {
            0x3fffu64
        } else if version <= 4 {
            0x7fffu64
        } else if version <= 8 {
            0xffffu64
        } else {
            0x1_ffffu64
        },
{
    assert(0u64 | 0u64 == 0 && 0xdu64 | 0x1ff2u64 == 0x1fff && 0xdu64 | 0x3ff2u64 == 0x3fff && 0xdu64
        | 0x7ff2u64 == 0x7fff && 0xdu64 | 0xfff2u64 == 0xffff && 0xdu64 | 0x1_fff2u64 == 0x1_ffff)
        by (bit_vector);
}

/// Of two versions the one with more rights has all rights of the other.
proof fn lemma_versions_nest(version: int, kernel: int)
    ensures
        all_rights(version) & all_rights(kernel) == all_rights(version) <==> all_rights(version)
            <= all_rights(kernel),
{
    lemma_all_rights(version);
    lemma_all_rights(kernel);
    let x = all_rights(version);
    let y = all_rights(kernel);
    assert(x & y == x <==> x <= y) by (bit_vector)
        requires
            x == 0 || x == 0x1fff || x == 0x3fff || x == 0x7fff || x == 0xffff || x == 0x1_ffff,
            y == 0 || y == 0x1fff || y == 0x3fff || y == 0x7fff || y == 0xffff || y == 0x1_ffff,
    ;
}

/// Whether a kernel has Landlock, by the version that it has.
pub open spec fn has_landlock(kernel: int) -> bool {
    kernel >= 1
}

/// Whether the kernel that a ruleset was made on has Landlock, that is,
/// handles the reading rights of the first version.
pub fn available_in(ruleset: &mut landlock::Ruleset) -> (r: bool)
    ensures
        r == has_landlock(kernel_version(*old(ruleset))),
        kernel_version(*final(ruleset)) == kernel_version(*old(ruleset)),
{
    let rights: u64 = from_read(1);
    proof {
        lemma_all_rights(kernel_version(*ruleset));
        assert(0xdu64 & 0x1_ffffu64 == 0xd && 0xdu64 & 0u64 == 0 && 0xdu64 & 0x1fffu64 == 0xd
            && 0xdu64 & 0x3fffu64 == 0xd && 0xdu64 & 0x7fffu64 == 0xd && 0xdu64 & 0xffffu64 == 0xd)
            by (bit_vector);
    }
    handles(ruleset, rights)
}

/// Whether the running kernel has Landlock. The kernel alone decides; what is
/// asked of it is [`available_in`].
pub fn is_available() -> (r: bool)
    ensures
        exists|ruleset: landlock::Ruleset|
            0 <= #[trigger] kernel_version(ruleset) <= 9 && r == has_landlock(
                kernel_version(ruleset),
            ),
{
    let mut ruleset = new_ruleset();
    let ghost fresh = ruleset;
    let r = available_in(&mut ruleset);
    assert(r == has_landlock(kernel_version(fresh)));
    r
}

/// The version that probes tell of: none without Landlock, else the newest one
/// whose rights are all handled, and at least the first one.
pub open spec fn version_spec(available: bool, handled: Seq<bool>) -> Option<i32>
    decreases handled.len(),
{
    if !available {
        None
    } else if handled.len() == 0 {
        Some(1)
    } else if handled.last() {
        Some(handled.len() as i32)
    } else {
        version_spec(available, handled.drop_last())
    }
}

/// The version that probes tell of: `handled` says of each version from the
/// first one on whether the kernel handles all of its rights.
pub fn version_of(available: bool, handled: &Vec<bool>) -> (r: Option<i32>)
    requires
        handled@.len() <= NEWEST_VERSION,
    ensures
        r == version_spec(available, handled@),
        r matches Some(version) ==> 1 <= version <= NEWEST_VERSION,
        r is Some <==> available,
{
    if !available {
        return None;
    }
    let mut i: usize = handled.len();
    assert(handled@.take(i as int) =~= handled@);
    while i > 0
        invariant
            i <= handled@.len() <= NEWEST_VERSION,
            available,
            version_spec(available, handled@) == version_spec(available, handled@.take(i as int)),
        decreases i,
    {
        assert(handled@.take(i as int).drop_last() =~= handled@.take(i - 1));
        if handled[i - 1] {
            return Some(i as i32);
        }
        i -= 1;
    }
    Some(1)
}

/// The version that is told of a kernel, by the version that it has. Versions
/// that differ in no file system right are told apart by none, and the newest
/// of them is told.
pub open spec fn told_version(kernel: int) -> Option<i32> {
    if kernel <= 0 {
        None
    } else if kernel <= 2 {
        Some(kernel as i32)
    } else if kernel <= 4 {
        Some(4)
    } else {
        Some(NEWEST_VERSION)
    }
}

proof fn lemma_told_version(handled: Seq<bool>, kernel: int)
    requires
        has_landlock(kernel),
        handled.len() == NEWEST_VERSION,
        forall|i: int|
            0 <= i < handled.len() ==> #[trigger] handled[i] == (all_rights(i + 1) <= all_rights(
                kernel,
            )),
    ensures
        version_spec(true, handled) == told_version(kernel),
{
    lemma_all_rights(kernel);
    lemma_all_rights(1);
    lemma_all_rights(2);
    lemma_all_rights(3);
    lemma_all_rights(4);
    lemma_all_rights(5);
    lemma_all_rights(6);
    lemma_all_rights(7);
    let six = handled.drop_last();
    let five = six.drop_last();
    let four = five.drop_last();
    let three = four.drop_last();
    let two = three.drop_last();
    let one = two.drop_last();
    assert(handled.last() == handled[6]);
    assert(six.last() == handled[5]);
    assert(five.last() == handled[4]);
    assert(four.last() == handled[3]);
    assert(three.last() == handled[2]);
    assert(two.last() == handled[1]);
    assert(one.last() == handled[0]);
    reveal_with_fuel(version_spec, 8);
}

/// The version that probes tell of is the newest one that is handled; where none
/// is, the first one; and none at all without Landlock.
pub proof fn newest_handled_version_is_told(available: bool, handled: Seq<bool>)
    requires
        handled.len() <= i32::MAX,
    ensures
        version_spec(available, handled) is Some <==> available,
        available ==> ({
            let v = version_spec(available, handled)->0;
            &&& 1 <= v
            &&& v <= handled.len() || v == 1
            &&& forall|i: int| v <= i < handled.len() ==> !#[trigger] handled[i]
            &&& v > 1 ==> handled[v - 1]
        }),
    decreases handled.len(),
{
    if available && handled.len() > 0 && !handled.last() {
        let rest = handled.drop_last();
        newest_handled_version_is_told(available, rest);
        let v = version_spec(available, handled)->0;
        assert forall|i: int| v <= i < handled.len() implies !#[trigger] handled[i] by {
            if i < rest.len() {
                assert(rest[i] == handled[i]);
            }
        }
        if v > 1 {
            assert(rest[v - 1] == handled[v - 1]);
        }
    }
}

/// The version that is told of a kernel has no file system right that the kernel
/// lacks, and no version up to the newest one looked for has more of those that
/// it has. A kernel without Landlock is told of as such, and the first version
/// is used on it.
pub proof fn told_version_fits_the_kernel(kernel: int, other: int)
    requires
        0 <= kernel <= 9,
        1 <= other <= 7,
    ensures
        told_version(kernel) is None <==> kernel == 0,
        used_version(None) == 1,
        told_version(kernel) matches Some(v) ==> 1 <= v <= 7 && used_version(Some(v)) == v
            && all_rights(v as int) <= all_rights(kernel) && (all_rights(other) <= all_rights(kernel)
            ==> other <= v),
        has_landlock(kernel) <==> kernel >= 1,
{
    lemma_all_rights(kernel);
    lemma_all_rights(other);
    if let Some(v) = told_version(kernel) {
        lemma_all_rights(v as int);
    }
}

/// The version of Landlock that is told of the kernel that a ruleset was made
/// on; none without Landlock. All versions are looked at, and what is found is
/// weighed by [`version_of`].
pub fn version_in(ruleset: &mut landlock::Ruleset) -> (r: Option<i32>)
    ensures
        r == told_version(kernel_version(*old(ruleset))),
        kernel_version(*final(ruleset)) == kernel_version(*old(ruleset)),
{
    let ghost kernel = kernel_version(*ruleset);
    if !available_in(ruleset) {
        return None;
    }
    let mut handled: Vec<bool> = Vec::new();
    let mut version: i32 = 1;
    while version <= NEWEST_VERSION
        invariant
            1 <= version <= NEWEST_VERSION + 1,
            handled@.len() == version - 1,
            has_landlock(kernel),
            kernel_version(*ruleset) == kernel,
            forall|i: int|
                0 <= i < handled@.len() ==> #[trigger] handled@[i] == (all_rights(i + 1)
                    <= all_rights(kernel)),
        decreases NEWEST_VERSION + 1 - version,
    {
        let rights: u64 = rights_of_version(version);
        proof {
            lemma_all_rights(version as int);
            lemma_versions_nest(version as int, kernel);
        }
        handled.push(handles(ruleset, rights));
        version += 1;
    }
    proof {
        lemma_told_version(handled@, kernel);
    }
    version_of(true, &handled)
}

/// The version of Landlock that is told of the running kernel; none without
/// Landlock. The kernel alone decides; what is asked of it is [`version_in`].
pub fn get_abi_version() -> (r: Option<i32>)
    ensures
        exists|ruleset: landlock::Ruleset|
            0 <= #[trigger] kernel_version(ruleset) <= 9 && r == told_version(
                kernel_version(ruleset),
            ),
{
    let mut ruleset = new_ruleset();
    let ghost fresh = ruleset;
    let r = version_in(&mut ruleset);
    assert(r == told_version(kernel_version(fresh)));
    r
}

fn rights_of_version(version: i32) -> (r: u64)
    ensures
        r == all_rights(version as int),
        r & KNOWN_RIGHTS == r,
{
    let read: u64 = from_read(version);
    let write: u64 = from_write(version);
    assert((read | write) & 0x1_ffffu64 == read | write) by (bit_vector)
        requires
            read == 0 || read == 0xd,
            write == 0 || write == 0x1ff2 || write == 0x3ff2 || write == 0x7ff2 || write == 0xfff2
                || write == 0x1_fff2,
    ;
    read | write
}

/// The version whose rights are used where `told` is the version that is told
/// of the kernel: that one, or the first one without Landlock.
pub open spec fn used_version(told: Option<i32>) -> i32 {
    match told {
        Some(version) => version,
        None => 1,
    }
}

/// The version whose rights are used on the running kernel: the one that is
/// told of it, or the first one without Landlock.
pub fn get_effective_abi() -> (r: i32)
    ensures
        1 <= r <= NEWEST_VERSION,
        exists|ruleset: landlock::Ruleset|
            0 <= #[trigger] kernel_version(ruleset) <= 9 && r == used_version(
                told_version(kernel_version(ruleset)),
            ),
{
    match get_abi_version() {
        Some(version) => version,
        None => 1,
    }
}

/// Why there is no ruleset.
#[derive(Debug)]
pub enum LandlockError {
    /// The ruleset could not be made.
    Create(landlock::RulesetError),
    /// A rule could not be added; its place among the grants.
    AddRule { index: usize, error: landlock::RulesetError },
}

/// Makes a ruleset that handles the rights of a version and grants what the
/// rules name; none where there are no rules.
pub fn build_ruleset_with(
    rules: &Vec<LandlockRule>,
    version: i32,
    home: &Option<String>,
) -> (r: Result<Option<landlock::RulesetCreated>, LandlockError>)
    ensures
        rules@.len() == 0 ==> r == Ok::<Option<landlock::RulesetCreated>, LandlockError>(None),
        rules@.len() > 0 ==> match r {
            Ok(made) => made matches Some(ruleset) && handled_rights(ruleset) == all_rights(
                version as int,
            ) && asked_grants(ruleset) == grants_for(
                rules@,
                all_rights(version as int),
                opt_view(*home),
            ),
            Err(LandlockError::Create(_)) => true,
            Err(LandlockError::AddRule { index, .. }) => index < grants_for(
                rules@,
                all_rights(version as int),
                opt_view(*home),
            ).len(),
        },
{
    if rules.len() == 0 {
        return Ok(None);
    }
    let handled: u64 = rights_of_version(version);
    let grants = plan_grants(rules, handled, home);
    let ghost all = grants_for(rules@, handled, opt_view(*home));
    let mut ruleset = match create_ruleset(handled) {
        Ok(ruleset) => ruleset,
        Err(error) => {
            return Err(LandlockError::Create(error));
        },
    };
    let mut i: usize = 0;
    while i < grants.len()
        invariant
            i <= grants@.len(),
            grant_views(grants@) == all,
            all == grants_for(rules@, handled, opt_view(*home)),
            handled & KNOWN_RIGHTS == handled,
            handled == all_rights(version as int),
            rules@.len() > 0,
            handled_rights(ruleset) == handled,
            asked_grants(ruleset) == all.take(i as int),
        decreases grants.len() - i,
    {
        let rights: u64 = grants[i].1;
        assert(all[i as int] == (grants@[i as int].0@, rights));
        proof {
            only_named_rights_are_granted(rules@, handled, opt_view(*home), i as int);
            assert(rights & 0x1_ffffu64 == rights) by (bit_vector)
                requires
                    rights & !handled == 0,
                    handled & 0x1_ffffu64 == handled,
            ;
        }
        match add_grant(ruleset, grants[i].0.as_str(), rights) {
            Ok(next) => {
                ruleset = next;
            },
            Err(error) => {
                return Err(LandlockError::AddRule { index: i, error });
            },
        }
        i += 1;
        assert(all.take(i as int) =~= all.take(i - 1).push(all[i - 1]));
    }
    assert(all.take(i as int) =~= all);
    Ok(Some(ruleset))
}

/// Makes a ruleset that handles all rights that the kernel knows and grants
/// what the rules name; none where there are no rules. The working directory
/// plays no part: paths are taken as they are.
pub fn build_ruleset(rules: &Vec<LandlockRule>, _cwd: &str) -> (r: Result<
    Option<landlock::RulesetCreated>,
    LandlockError,
>)
    ensures
        rules@.len() == 0 ==> r == Ok::<Option<landlock::RulesetCreated>, LandlockError>(None),
        rules@.len() > 0 ==> match r {
            Ok(made) => made matches Some(ruleset) && exists|kernel: landlock::Ruleset, home: Option<String>|
                handled_rights(ruleset) == all_rights(
                    used_version(told_version(#[trigger] kernel_version(kernel))) as int,
                ) && asked_grants(ruleset) == grants_for(
                    rules@,
                    handled_rights(ruleset),
                    #[trigger] opt_view(home),
                ),
            Err(_) => true,
        },
{
    if rules.len() == 0 {
        return Ok(None);
    }
    let version: i32 = get_effective_abi();
    let home = home_dir();
    build_ruleset_with(rules, version, &home)
}

} // verus!
