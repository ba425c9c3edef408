//! Mounts inside the sandbox: what is asked for becomes a list of `mount(2)`
//! calls before the process is forked.
//!
//! A read-only bind mount takes two calls. The second one changes the flags
//! of the mount, and inside a user namespace the kernel refuses a change that
//! drops a flag of the source; so the flags that the source is mounted with
//! are looked up and repeated.

use crate::config::{
    bind_view, mounts_are_what_they_say, opt_view, tmpfs_view, MountConfig, MountSpec, MountSpecView,
};
use crate::text;
use vstd::prelude::*;

verus! {

/// Read-only.
pub const MS_RDONLY: u64 = 1;

/// Set-user-id and set-group-id bits are not honoured.
pub const MS_NOSUID: u64 = 2;

/// Device files cannot be used.
pub const MS_NODEV: u64 = 4;

/// Programs cannot be run.
pub const MS_NOEXEC: u64 = 8;

/// Change the flags of what is mounted.
pub const MS_REMOUNT: u64 = 32;

/// Access times are not kept.
pub const MS_NOATIME: u64 = 1024;

/// Access times of directories are not kept.
pub const MS_NODIRATIME: u64 = 2048;

/// Bind mount.
pub const MS_BIND: u64 = 4096;

/// With all that is mounted below.
pub const MS_REC: u64 = 16384;

/// Mount events neither come in nor go out.
pub const MS_PRIVATE: u64 = 0x4_0000;

/// Mount events come in but do not go out.
pub const MS_SLAVE: u64 = 0x8_0000;

/// Access times are kept relative to modification times.
pub const MS_RELATIME: u64 = 0x20_0000;

/// Access times are always kept.
pub const MS_STRICTATIME: u64 = 0x100_0000;

/// The mount flag that an option stands for, or zero.
pub open spec fn option_flag(option: Seq<char>) -> u64 {
    if option == "ro"@ {
        MS_RDONLY
    } else if option == "nosuid"@ {
        MS_NOSUID
    } else if option == "nodev"@ {
        MS_NODEV
    } else if option == "noexec"@ {
        MS_NOEXEC
    } else if option == "noatime"@ {
        MS_NOATIME
    } else if option == "nodiratime"@ {
        MS_NODIRATIME
    } else if option == "relatime"@ {
        MS_RELATIME
    } else if option == "strictatime"@ {
        MS_STRICTATIME
    } else {
        0
    }
}

/// The flags that a list of options stands for.
pub open spec fn option_flags(options: Seq<Seq<char>>) -> u64
    decreases options.len(),
{
    if options.len() == 0 {
        0
    } else {
        option_flags(options.drop_last()) | option_flag(options.last())
    }
}

/// Whether `flag` is the flag of some option.
pub open spec fn is_option_flag(flag: u64) -> bool {
    flag == MS_RDONLY || flag == MS_NOSUID || flag == MS_NODEV || flag == MS_NOEXEC || flag
        == MS_NOATIME || flag == MS_NODIRATIME || flag == MS_RELATIME || flag == MS_STRICTATIME
}

proof fn lemma_flag_bits(a: u64, b: u64, flag: u64)
    requires
        b == 0 || is_option_flag(b),
        is_option_flag(flag),
    ensures
        (a | b) & flag != 0 <==> (a & flag != 0 || b == flag),
{
    assert((a | b) & flag != 0 <==> (a & flag != 0 || b == flag)) by (bit_vector)
        requires
            b == 0 || b == 1 || b == 2 || b == 4 || b == 8 || b == 1024 || b == 2048 || b
                == 0x20_0000 || b == 0x100_0000,
            flag == 1 || flag == 2 || flag == 4 || flag == 8 || flag == 1024 || flag == 2048
                || flag == 0x20_0000 || flag == 0x100_0000,
    ;
}

/// A flag is set exactly where one of the options stands for it; whatever is
/// no known option has no effect.
pub proof fn options_set_their_flags(options: Seq<Seq<char>>, flag: u64)
    requires
        is_option_flag(flag),
    ensures
        option_flags(options) & flag != 0 <==> exists|i: int|
            0 <= i < options.len() && option_flag(#[trigger] options[i]) == flag,
    decreases options.len(),
{
    if options.len() == 0 {
        assert(0u64 & flag == 0) by (bit_vector);
    } else {
        let rest = options.drop_last();
        options_set_their_flags(rest, flag);
        lemma_flag_bits(option_flags(rest), option_flag(options.last()), flag);
        if option_flag(options.last()) == flag {
            assert(option_flag(options[options.len() - 1]) == flag);
        }
        if exists|i: int| 0 <= i < rest.len() && option_flag(#[trigger] rest[i]) == flag {
            let i = choose|i: int| 0 <= i < rest.len() && option_flag(#[trigger] rest[i]) == flag;
            assert(option_flag(options[i]) == flag);
        }
        if exists|i: int| 0 <= i < options.len() && option_flag(#[trigger] options[i]) == flag {
            let i = choose|i: int|
                0 <= i < options.len() && option_flag(#[trigger] options[i]) == flag;
            if i < rest.len() {
                assert(option_flag(rest[i]) == flag);
            }
        }
    }
}

/// The options of the mount table and their flags. An option that is not among
/// them has none.
pub proof fn options_and_their_flags(other: Seq<char>)
    requires
        other != "ro"@,
        other != "nosuid"@,
        other != "nodev"@,
        other != "noexec"@,
        other != "noatime"@,
        other != "nodiratime"@,
        other != "relatime"@,
        other != "strictatime"@,
    ensures
        option_flag("ro"@) == 1,
        option_flag("nosuid"@) == 2,
        option_flag("nodev"@) == 4,
        option_flag("noexec"@) == 8,
        option_flag("noatime"@) == 1024,
        option_flag("nodiratime"@) == 2048,
        option_flag("relatime"@) == 0x20_0000,
        option_flag("strictatime"@) == 0x100_0000,
        option_flag(other) == 0,
{
    reveal_strlit("ro");
    reveal_strlit("nosuid");
    reveal_strlit("nodev");
    reveal_strlit("noexec");
    reveal_strlit("noatime");
    reveal_strlit("nodiratime");
    reveal_strlit("relatime");
    reveal_strlit("strictatime");
    assert("ro"@.len() == 2 && "nosuid"@.len() == 6 && "nodev"@.len() == 5 && "noexec"@.len() == 6
        && "noatime"@.len() == 7 && "nodiratime"@.len() == 10 && "relatime"@.len() == 8
        && "strictatime"@.len() == 11);
    assert("nosuid"@[2] != "noexec"@[2]);
}

/// Options are looked at one by one; a list has all flags of its options and no
/// others.
pub proof fn option_lists_add_up(options: Seq<Seq<char>>, option: Seq<char>)
    ensures
        option_flags(Seq::empty()) == 0,
        option_flags(options.push(option)) == option_flags(options) | option_flag(option),
{
    assert(options.push(option).drop_last() =~= options);
}

fn flag_of_option(option: &str) -> (r: u64)
    ensures
        r == option_flag(option@),
{
    if text::same(option, "ro") {
        MS_RDONLY
    } else if text::same(option, "nosuid") {
        MS_NOSUID
    } else if text::same(option, "nodev") {
        MS_NODEV
    } else if text::same(option, "noexec") {
        MS_NOEXEC
    } else if text::same(option, "noatime") {
        MS_NOATIME
    } else if text::same(option, "nodiratime") {
        MS_NODIRATIME
    } else if text::same(option, "relatime") {
        MS_RELATIME
    } else if text::same(option, "strictatime") {
        MS_STRICTATIME
    } else {
        0
    }
}

/// The flags that a comma-separated list of options stands for.
pub fn parse_mount_opts_flags(opts: &str) -> (r: u64)
    ensures
        r == option_flags(text::pieces(opts@, ',')),
{
    let chars = text::chars_of(opts);
    let options = text::split(&chars, ',');
    let ghost all = text::pieces(opts@, ',');
    let mut flags: u64 = 0;
    let mut i: usize = 0;
    assert(all.take(0) =~= Seq::<Seq<char>>::empty());
    while i < options.len()
        invariant
            i <= options@.len(),
            text::views(options@) == all,
            flags == option_flags(all.take(i as int)),
        decreases options.len() - i,
    {
        assert(options@[i as int]@ == all[i as int]);
        assert(all.take(i + 1).drop_last() =~= all.take(i as int));
        flags = flags | flag_of_option(options[i].as_str());
        i += 1;
    }
    assert(all.take(i as int) =~= all);
    flags
}

/// Whether what is mounted at `point` covers `path`: the point is the root, or
/// the path itself, or a directory above it.
pub open spec fn covers(point: Seq<char>, path: Seq<char>) -> bool {
    point == "/"@ || (text::begins(path, point) && (path.len() == point.len() || path[point.len() as int]
        == '/'))
}

/// A mount covers its own mount point and all that lies below it, and the root
/// covers everything; a path that merely begins with the same characters is not
/// covered.
pub proof fn mounts_cover_what_is_below(point: Seq<char>, below: Seq<char>, c: char)
    ensures
        covers(seq!['/'], below),
        covers(point, point),
        covers(point, point + seq!['/'] + below),
        c != '/' && point != seq!['/'] ==> !covers(point, point.push(c) + below),
        point != seq!['/'] && covers(point, below) ==> below.len() >= point.len() && below.take(
            point.len() as int,
        ) == point,
{
    reveal_strlit("/");
    assert("/"@ =~= seq!['/']);
    assert(point.take(point.len() as int) =~= point);
    let inside = point + seq!['/'] + below;
    assert(inside.take(point.len() as int) =~= point);
    assert(inside[point.len() as int] == '/');
    let beside = point.push(c) + below;
    assert(beside[point.len() as int] == c);
}

/// Length of a path in bytes.
pub open spec fn byte_len(path: Seq<char>) -> nat {
    vstd::utf8::encode_utf8(path).len()
}

/// Whether a line of the mount table is about a mount that covers `path`. Its
/// fifth word is the mount point and its sixth the options.
pub open spec fn line_covers(line: Seq<char>, path: Seq<char>) -> bool {
    text::words(line).len() >= 6 && covers(text::words(line)[4], path) && byte_len(
        text::words(line)[4],
    ) > 0
}

/// The deepest mount that covers `path` among the lines: the length of its
/// mount point and its options. Of two mounts at one point the first counts.
pub open spec fn deepest(lines: Seq<Seq<char>>, path: Seq<char>) -> (nat, Seq<char>)
    decreases lines.len(),
{
    if lines.len() == 0 {
        (0, Seq::empty())
    } else {
        let before = deepest(lines.drop_last(), path);
        let line = lines.last();
        if line_covers(line, path) && byte_len(text::words(line)[4]) > before.0 {
            (byte_len(text::words(line)[4]), text::words(line)[5])
        } else {
            before
        }
    }
}

/// The flags of the mount that holds `path`, after the mount table.
pub open spec fn flags_at(mountinfo: Seq<char>, path: Seq<char>) -> u64 {
    option_flags(text::pieces(deepest(text::lines_of(mountinfo), path).1, ','))
}

/// The mount that is picked covers the path, and no covering mount is deeper.
pub proof fn deepest_mount_is_picked(lines: Seq<Seq<char>>, path: Seq<char>)
    ensures
        forall|i: int|
            0 <= i < lines.len() && line_covers(#[trigger] lines[i], path) ==> byte_len(
                text::words(lines[i])[4],
            ) <= deepest(lines, path).0,
        deepest(lines, path).0 > 0 ==> exists|i: int|
            {
                &&& 0 <= i < lines.len()
                &&& line_covers(#[trigger] lines[i], path)
                &&& byte_len(text::words(lines[i])[4]) == deepest(lines, path).0
                &&& text::words(lines[i])[5] == deepest(lines, path).1
            },
        deepest(lines, path).0 == 0 ==> deepest(lines, path).1 == Seq::<char>::empty(),
    decreases lines.len(),
{
    if lines.len() > 0 {
        let rest = lines.drop_last();
        deepest_mount_is_picked(rest, path);
        assert forall|i: int|
            0 <= i < lines.len() && line_covers(#[trigger] lines[i], path) implies byte_len(
            text::words(lines[i])[4],
        ) <= deepest(lines, path).0 by {
            if i < rest.len() {
                assert(rest[i] == lines[i]);
            }
        }
        if deepest(lines, path).0 > 0 {
            if deepest(lines, path) == deepest(rest, path) {
                let i = choose|i: int|
                    {
                        &&& 0 <= i < rest.len()
                        &&& line_covers(#[trigger] rest[i], path)
                        &&& byte_len(text::words(rest[i])[4]) == deepest(rest, path).0
                        &&& text::words(rest[i])[5] == deepest(rest, path).1
                    };
                assert(lines[i] == rest[i]);
            } else {
                let i = lines.len() - 1;
                assert(line_covers(lines[i], path));
            }
        }
    }
}

/// Of several covering mounts with the longest mount point, the first one
/// counts: a later line with the same point changes nothing. A line is about the
/// mount at its fifth word, with the options of its sixth; a shorter line is
/// about none.
pub proof fn first_of_the_deepest_counts(lines: Seq<Seq<char>>, line: Seq<char>, path: Seq<char>)
    ensures
        deepest(Seq::empty(), path) == (0nat, Seq::<char>::empty()),
        ({
            let before = deepest(lines, path);
            let after = deepest(lines.push(line), path);
            let parts = text::words(line);
            let deeper = parts.len() >= 6 && covers(parts[4], path) && byte_len(parts[4]) > before.0;
            &&& deeper ==> after == (byte_len(parts[4]), parts[5])
            &&& !deeper ==> after == before
        }),
{
    assert(lines.push(line).drop_last() =~= lines);
}

fn point_covers(point: &str, path: &str) -> (r: bool)
    ensures
        r == covers(point@, path@),
{
    if text::same(point, "/") {
        return true;
    }
    let path_chars = text::chars_of(path);
    let point_chars = text::chars_of(point);
    assert(path_chars@.skip(0) =~= path@);
    text::matches_at(&path_chars, 0, &point_chars) && (path_chars.len() == point_chars.len()
        || path_chars[point_chars.len()] == '/')
}

/// The flags of the mount that holds `path`, after the mount table of the
/// process; none where the table could not be read.
pub fn source_mount_flags(mountinfo: Option<&str>, path: &str) -> (r: u64)
    ensures
        r == match mountinfo {
            Some(info) => flags_at(info@, path@),
            None => 0,
        },
{
    let info = match mountinfo {
        None => {
            return 0;
        },
        Some(info) => info,
    };
    let lines = text::split_lines(info);
    let ghost all = text::lines_of(info@);
    let mut best_len: usize = 0;
    let mut best_opts = String::new();
    let mut i: usize = 0;
    assert(all.take(0) =~= Seq::<Seq<char>>::empty());
    assert(best_opts@ =~= Seq::<char>::empty());
    while i < lines.len()
        invariant
            i <= lines@.len(),
            mountinfo == Some(info),
            text::views(lines@) == all,
            all == text::lines_of(info@),
            deepest(all.take(i as int), path@) == (best_len as nat, best_opts@),
        decreases lines.len() - i,
    {
        assert(lines@[i as int]@ == all[i as int]);
        assert(all.take(i + 1).drop_last() =~= all.take(i as int));
        assert(all.take(i + 1).last() == all[i as int]);
        let chars = text::chars_of(lines[i].as_str());
        let words = text::split_words(&chars);
        let ghost parts = text::words(all[i as int]);
        assert(text::views(words@) == parts);
        if words.len() >= 6 {
            assert(words@[4]@ == parts[4]);
            assert(words@[5]@ == parts[5]);
            let len: usize = words[4].as_str().as_bytes().len();
            if point_covers(words[4].as_str(), path) && len > best_len {
                best_len = len;
                best_opts = words[5].clone();
            }
        }
        i += 1;
    }
    assert(all.take(i as int) =~= all);
    parse_mount_opts_flags(best_opts.as_str())
}

/// The flags of a path are those that the options of its deepest mount stand
/// for, and none where no mount holds it.
pub proof fn path_has_the_flags_of_its_mount(
    mountinfo: Seq<char>,
    path: Seq<char>,
    options: Seq<Seq<char>>,
    flag: u64,
)
    requires
        options.len() > 0,
        forall|i: int| 0 <= i < options.len() ==> !(#[trigger] options[i]).contains(','),
        deepest(text::lines_of(mountinfo), path).1 == text::joined_with(options, ','),
        flag == 1 || flag == 2 || flag == 4 || flag == 8 || flag == 1024 || flag == 2048 || flag
            == 0x20_0000 || flag == 0x100_0000,
    ensures
        flags_at(mountinfo, path) & flag != 0 <==> exists|i: int|
            0 <= i < options.len() && option_flag(#[trigger] options[i]) == flag,
{
    text::splitting_undoes_joining(options, ',');
    options_set_their_flags(options, flag);
}

/// Depth is counted in the bytes of the mount point.
pub proof fn depth_is_counted_in_bytes(path: Seq<char>)
    ensures
        byte_len(path) == vstd::utf8::encode_utf8(path).len(),
{
}

/// One call of `mount(2)`. A part that is `None` is passed as a null pointer.
#[derive(Debug, Clone)]
pub struct RawMountOp {
    /// What is mounted.
    pub source: Option<String>,
    /// Where it is mounted.
    pub target: String,
    /// File system type.
    pub fstype: Option<String>,
    /// Flags.
    pub flags: u64,
    /// Data for the file system.
    pub data: Option<String>,
}

/// A [`RawMountOp`] with its texts as sequences of characters.
pub struct MountOpView {
    pub source: Option<Seq<char>>,
    pub target: Seq<char>,
    pub fstype: Option<Seq<char>>,
    pub flags: u64,
    pub data: Option<Seq<char>>,
}

impl View for RawMountOp {
    type V = MountOpView;

    open spec fn view(&self) -> MountOpView {
        MountOpView {
            source: opt_view(self.source),
            target: self.target@,
            fstype: opt_view(self.fstype),
            flags: self.flags,
            data: opt_view(self.data),
        }
    }
}

/// What the file system says about the paths of one mount.
#[derive(Debug, Clone, Copy, PartialEq, Eq, Structural)]
pub struct MountProbe {
    /// Whether the target exists.
    pub target_exists: bool,
    /// Whether the source exists.
    pub source_exists: bool,
    /// The flags that the source is mounted with.
    pub source_flags: u64,
}

/// Why a mount cannot be prepared.
#[derive(Debug, Clone, PartialEq, Eq)]
pub enum MountError {
    /// The target of the mount with this number, counted from one, is missing.
    TargetMissing { number: usize, path: String },
    /// Its source is missing.
    SourceMissing { number: usize, path: String },
}

/// A [`MountError`] with its texts as sequences of characters.
pub enum MountErrorView {
    TargetMissing { number: int, path: Seq<char> },
    SourceMissing { number: int, path: Seq<char> },
}

impl View for MountError {
    type V = MountErrorView;

    open spec fn view(&self) -> MountErrorView {
        match self {
            MountError::TargetMissing { number, path } => MountErrorView::TargetMissing {
                number: *number as int,
                path: path@,
            },
            MountError::SourceMissing { number, path } => MountErrorView::SourceMissing {
                number: *number as int,
                path: path@,
            },
        }
    }
}

impl MountErrorView {
    /// What the error says to a reader.
    pub open spec fn message(self) -> Seq<char> {
        match self {
            MountErrorView::TargetMissing { number, path } => "mount #"@ + text::decimal(
                number as nat,
            ) + ": target path '"@ + path + "' does not exist"@,
            MountErrorView::SourceMissing { number, path } => "mount #"@ + text::decimal(
                number as nat,
            ) + ": source path '"@ + path + "' does not exist"@,
        }
    }
}

impl MountError {
    /// The error as a sentence.
    pub fn message(&self) -> (r: String)
        ensures
            r@ == self@.message(),
    {
        let mut out = "mount #".to_owned();
        match self {
            MountError::TargetMissing { number, path } => {
                text::push_decimal(&mut out, *number as u64);
                out.append(": target path '");
                out.append(path.as_str());
            },
            MountError::SourceMissing { number, path } => {
                text::push_decimal(&mut out, *number as u64);
                out.append(": source path '");
                out.append(path.as_str());
            },
        }
        out.append("' does not exist");
        out
    }
}

/// What is missing for the mount at index `i`.
pub open spec fn fault(spec: MountSpecView, probe: MountProbe, i: int) -> Option<MountErrorView> {
    if !probe.target_exists {
        Some(MountErrorView::TargetMissing { number: i + 1, path: spec.target })
    } else if spec.fstype == "none"@ && spec.source is Some && !probe.source_exists {
        Some(MountErrorView::SourceMissing { number: i + 1, path: spec.source->0 })
    } else {
        None
    }
}

/// A mount is refused for a target that is not there, and a bind mount for a
/// source that is not there; nothing else is refused, and the error tells the
/// path and the place of the mount, counted from one.
pub proof fn missing_paths_are_told(spec: MountSpecView, probe: MountProbe, i: int)
    ensures
        !probe.target_exists ==> fault(spec, probe, i) == Some(
            MountErrorView::TargetMissing { number: i + 1, path: spec.target },
        ),
        probe.target_exists && spec.fstype == "none"@ && spec.source is Some
            && !probe.source_exists ==> fault(spec, probe, i) == Some(
            MountErrorView::SourceMissing { number: i + 1, path: spec.source->0 },
        ),
        probe.target_exists && probe.source_exists ==> fault(spec, probe, i) is None,
        probe.target_exists && spec.fstype != "none"@ ==> fault(spec, probe, i) is None,
{
}

/// An optional text that a C string can carry.
pub open spec fn c_opt(s: Option<Seq<char>>) -> Option<Seq<char>> {
    match s {
        Some(s) => Some(text::c_view(s)),
        None => None,
    }
}

/// The flags of the call that makes a bind mount read-only.
pub open spec fn readonly_flags(source_flags: u64) -> u64 {
    source_flags | MS_BIND | MS_REMOUNT | MS_RDONLY | MS_REC
}

/// The calls for one mount. A tmpfs takes one, a bind mount one, a read-only
/// bind mount two; any other type takes none.
pub open spec fn ops_for(spec: MountSpecView, probe: MountProbe) -> Seq<MountOpView> {
    let target = text::c_view(spec.target);
    if spec.fstype == "tmpfs"@ {
        seq![
            MountOpView {
                source: None,
                target,
                fstype: Some("tmpfs"@),
                flags: spec.flags,
                data: c_opt(spec.data),
            },
        ]
    } else if spec.fstype == "none"@ {
        let bind = MountOpView {
            source: Some(
                match spec.source {
                    Some(source) => text::c_view(source),
                    None => Seq::empty(),
                },
            ),
            target,
            fstype: None,
            flags: spec.flags,
            data: c_opt(spec.data),
        };
        let remount = MountOpView {
            source: None,
            target,
            fstype: None,
            flags: readonly_flags(probe.source_flags),
            data: None,
        };
        if spec.readonly {
            seq![bind, remount]
        } else {
            seq![bind]
        }
    } else {
        Seq::empty()
    }
}

/// A bind mount is one call that takes the source to the target; made read-only,
/// the same call comes first and one that changes the flags of the target
/// follows. A tmpfs is one call without a source.
pub proof fn calls_mount_what_was_asked(
    source: Seq<char>,
    target: Seq<char>,
    probe: MountProbe,
    readonly: bool,
)
    requires
        !source.contains('\0'),
        !target.contains('\0'),
    ensures
        ({
            let ops = ops_for(bind_view(source, target, readonly), probe);
            &&& ops.len() == if readonly {
                2nat
            } else {
                1nat
            }
            &&& ops[0].source == Some(source)
            &&& ops[0].target == target
            &&& ops[0].fstype is None
            &&& ops[0].flags == 0x5000
            &&& ops[0].data is None
            &&& readonly ==> ops[1].source is None && ops[1].target == target
                && ops[1].fstype is None && ops[1].data is None && ops[1].flags == (
            probe.source_flags | 0x5021)
        }),
        ({
            let ops = ops_for(tmpfs_view(target), probe);
            &&& ops.len() == 1
            &&& ops[0].source is None
            &&& ops[0].target == target
            &&& ops[0].fstype == Some("tmpfs"@)
            &&& ops[0].flags == 0x6
            &&& ops[0].data is None
        }),
{
    mounts_are_what_they_say(source, target, readonly);
    reveal_strlit("tmpfs");
    reveal_strlit("none");
    assert("tmpfs"@.len() != "none"@.len());
    let flags = probe.source_flags;
    assert(flags | 4096 | 32 | 1 | 16384 == flags | 0x5021) by (bit_vector);
}

/// The data and the flags of a mount go along with the call that mounts, to its
/// target; a bind mount takes its source along.
pub proof fn data_goes_along(spec: MountSpecView, probe: MountProbe)
    requires
        spec.fstype == "none"@ || spec.fstype == "tmpfs"@,
        spec.data is Some ==> !spec.data->0.contains('\0'),
    ensures
        ops_for(spec, probe).len() >= 1,
        ops_for(spec, probe)[0].data == spec.data,
        ops_for(spec, probe)[0].flags == spec.flags,
        !spec.target.contains('\0') ==> ops_for(spec, probe)[0].target == spec.target,
        spec.fstype == "none"@ && spec.source is Some && !spec.source->0.contains('\0')
            ==> ops_for(spec, probe)[0].source == spec.source,
        spec.fstype == "tmpfs"@ ==> ops_for(spec, probe).len() == 1,
{
    reveal_strlit("tmpfs");
    reveal_strlit("none");
    assert("tmpfs"@.len() != "none"@.len());
}

/// A mount of another type than the two makes no call, and a bind mount without
/// a source is handed an empty one.
pub proof fn other_types_make_no_call(spec: MountSpecView, probe: MountProbe)
    ensures
        spec.fstype != "none"@ && spec.fstype != "tmpfs"@ ==> ops_for(spec, probe).len() == 0,
        spec.fstype == "none"@ && spec.source is None ==> ops_for(spec, probe).len() > 0 && ops_for(
            spec,
            probe,
        )[0].source == Some(Seq::<char>::empty()),
        spec.fstype == "none"@ && !spec.readonly ==> ops_for(spec, probe).len() == 1,
{
    reveal_strlit("tmpfs");
    reveal_strlit("none");
    assert("tmpfs"@.len() != "none"@.len());
}

/// The calls for the first `upto` mounts.
pub open spec fn ops_upto(specs: Seq<MountSpec>, probes: Seq<MountProbe>, upto: nat) -> Seq<
    MountOpView,
>
    decreases upto,
{
    if upto == 0 {
        Seq::empty()
    } else {
        ops_upto(specs, probes, (upto - 1) as nat) + ops_for(specs[upto - 1]@, probes[upto - 1])
    }
}

/// Each mount has its calls, all of them and in the order of the mounts.
pub proof fn mounts_are_made_in_order(specs: Seq<MountSpec>, probes: Seq<MountProbe>, upto: nat, k: int)
    requires
        0 <= k < upto,
    ensures
        ops_upto(specs, probes, 0).len() == 0,
        ({
            let start = ops_upto(specs, probes, k as nat).len() as int;
            let calls = ops_for(specs[k]@, probes[k]);
            let all = ops_upto(specs, probes, upto);
            &&& start + calls.len() <= all.len()
            &&& all.subrange(start, start + calls.len()) == calls
            &&& ops_upto(specs, probes, (k + 1) as nat).len() == start + calls.len()
        }),
    decreases upto,
{
    let start = ops_upto(specs, probes, k as nat).len() as int;
    let calls = ops_for(specs[k]@, probes[k]);
    let all = ops_upto(specs, probes, upto);
    if k == upto - 1 {
        assert(all.subrange(start, start + calls.len()) =~= calls);
    } else {
        mounts_are_made_in_order(specs, probes, (upto - 1) as nat, k);
        let most = ops_upto(specs, probes, (upto - 1) as nat);
        assert(all.subrange(start, start + calls.len()) =~= most.subrange(
            start,
            start + calls.len(),
        ));
    }
}

/// The view of a call is made of its fields.
pub proof fn call_view_holds_all(op: RawMountOp)
    ensures
        op@.source is Some <==> op.source is Some,
        op.source matches Some(source) ==> op@.source == Some(source@),
        op@.target == op.target@,
        op@.fstype is Some <==> op.fstype is Some,
        op.fstype matches Some(fstype) ==> op@.fstype == Some(fstype@),
        op@.flags == op.flags,
        op@.data is Some <==> op.data is Some,
        op.data matches Some(data) ==> op@.data == Some(data@),
{
}

/// The calls, with their texts as sequences of characters.
pub open spec fn op_views(ops: Seq<RawMountOp>) -> Seq<MountOpView> {
    ops.map_values(|op: RawMountOp| op@)
}

/// The views of a list of calls are those of its calls, each in its place.
pub proof fn call_views_keep_their_places(ops: Seq<RawMountOp>)
    ensures
        op_views(ops).len() == ops.len(),
        forall|i: int| 0 <= i < ops.len() ==> #[trigger] op_views(ops)[i] == ops[i]@,
{
}

fn c_option(s: &Option<String>) -> (r: Option<String>)
    ensures
        opt_view(r) == c_opt(opt_view(*s)),
{
    match s {
        Some(s) => Some(text::c_text(s.as_str())),
        None => None,
    }
}

fn check_paths(spec: &MountSpec, probe: MountProbe, i: usize) -> (r: Option<MountError>)
    requires
        i < usize::MAX,
    ensures
        match r {
            Some(e) => fault(spec@, probe, i as int) == Some(e@),
            None => fault(spec@, probe, i as int) is None,
        },
{
    if !probe.target_exists {
        return Some(MountError::TargetMissing { number: i + 1, path: spec.target.clone() });
    }
    if text::same(spec.fstype.as_str(), "none") && !probe.source_exists {
        if let Some(source) = &spec.source {
            return Some(MountError::SourceMissing { number: i + 1, path: source.clone() });
        }
    }
    None
}

fn push_ops(ops: &mut Vec<RawMountOp>, spec: &MountSpec, probe: MountProbe)
    ensures
        op_views(final(ops)@) == op_views(old(ops)@) + ops_for(spec@, probe),
{
    proof {
        reveal_strlit("tmpfs");
        reveal_strlit("none");
        assert("tmpfs"@.len() != "none"@.len());
    }
    let ghost before = ops@;
    if text::same(spec.fstype.as_str(), "tmpfs") {
        ops.push(
            RawMountOp {
                source: None,
                target: text::c_text(spec.target.as_str()),
                fstype: Some("tmpfs".to_owned()),
                flags: spec.flags,
                data: c_option(&spec.data),
            },
        );
    } else if text::same(spec.fstype.as_str(), "none") {
        let source = match &spec.source {
            Some(source) => text::c_text(source.as_str()),
            None => String::new(),
        };
        ops.push(
            RawMountOp {
                source: Some(source),
                target: text::c_text(spec.target.as_str()),
                fstype: None,
                flags: spec.flags,
                data: c_option(&spec.data),
            },
        );
        if spec.readonly {
            ops.push(
                RawMountOp {
                    source: None,
                    target: text::c_text(spec.target.as_str()),
                    fstype: None,
                    flags: probe.source_flags | MS_BIND | MS_REMOUNT | MS_RDONLY | MS_REC,
                    data: None,
                },
            );
        }
    }
    assert(op_views(ops@) =~= op_views(before) + ops_for(spec@, probe));
}

/// Lists the calls for all mounts, or says which path is missing first.
pub fn prepare_mount_ops(config: &MountConfig, probes: &Vec<MountProbe>) -> (r: Result<
    Vec<RawMountOp>,
    MountError,
>)
    requires
        probes@.len() == config.specs@.len(),
    ensures
        match r {
            Ok(ops) => {
                &&& op_views(ops@) == ops_upto(config.specs@, probes@, config.specs@.len())
                &&& forall|i: int|
                    0 <= i < config.specs@.len() ==> (#[trigger] fault(
                        config.specs@[i]@,
                        probes@[i],
                        i,
                    )) is None
            },
            Err(e) => exists|i: int|
                {
                    &&& 0 <= i < config.specs@.len()
                    &&& #[trigger] fault(config.specs@[i]@, probes@[i], i) == Some(e@)
                    &&& forall|j: int|
                        0 <= j < i ==> (#[trigger] fault(
                            config.specs@[j]@,
                            probes@[j],
                            j,
                        )) is None
                },
        },
{
    let count: usize = config.specs.len();
    let mut i: usize = 0;
    while i < count
        invariant
            i <= count == config.specs@.len() == probes@.len(),
            forall|j: int|
                0 <= j < i ==> (#[trigger] fault(config.specs@[j]@, probes@[j], j)) is None,
        decreases count - i,
    {
        match check_paths(&config.specs[i], probes[i], i) {
            Some(e) => {
                return Err(e);
            },
            None => {},
        }
        i += 1;
    }
    let mut ops: Vec<RawMountOp> = Vec::new();
    let mut k: usize = 0;
    assert(op_views(ops@) =~= Seq::<MountOpView>::empty());
    while k < count
        invariant
            k <= count == config.specs@.len() == probes@.len(),
            op_views(ops@) == ops_upto(config.specs@, probes@, k as nat),
        decreases count - k,
    {
        push_ops(&mut ops, &config.specs[k], probes[k]);
        k += 1;
    }
    Ok(ops)
}

/// A read-only bind mount is never left without the call that makes it so: its
/// last call sets the read-only flag and repeats the flags of the source.
pub proof fn readonly_bind_ends_readonly(spec: MountSpecView, probe: MountProbe)
    requires
        spec.fstype == "none"@,
        spec.readonly,
    ensures
        ops_for(spec, probe).len() == 2,
        ops_for(spec, probe)[1].target == ops_for(spec, probe)[0].target,
        ops_for(spec, probe)[1].flags & MS_RDONLY != 0,
        ops_for(spec, probe)[1].flags & MS_REMOUNT != 0,
        ops_for(spec, probe)[1].flags & probe.source_flags == probe.source_flags,
{
    reveal_strlit("tmpfs");
    reveal_strlit("none");
    assert("tmpfs"@.len() != "none"@.len());
    let flags = probe.source_flags;
    assert((flags | 4096 | 32 | 1 | 16384) & 1 != 0) by (bit_vector);
    assert((flags | 4096 | 32 | 1 | 16384) & 32 != 0) by (bit_vector);
    assert((flags | 4096 | 32 | 1 | 16384) & flags == flags) by (bit_vector);
}

/// How the mount tree is cut off from the rest of the machine.
#[derive(Debug, Clone, Copy, PartialEq, Eq, Structural)]
pub enum Propagation {
    /// Remount the root with these flags.
    Try { flags: u64 },
    /// The attempts are over; whether one of them worked.
    Done { separated: bool },
}

/// The attempts to cut the mount tree off: private first, then slave.
pub open spec fn propagation_after(results: Seq<i32>) -> Propagation {
    if results.len() == 0 {
        Propagation::Try { flags: MS_PRIVATE | MS_REC }
    } else if results[0] == 0 {
        Propagation::Done { separated: true }
    } else if results.len() == 1 {
        Propagation::Try { flags: MS_SLAVE | MS_REC }
    } else {
        Propagation::Done { separated: results[1] == 0 }
    }
}

/// The mount tree is made private with all that is below; where that fails, it
/// is made a slave; it is cut off where one of the two worked.
pub proof fn private_comes_before_slave(first: i32, second: i32)
    ensures
        propagation_after(Seq::empty()) == (Propagation::Try { flags: 0x4_4000 }),
        propagation_after(seq![0i32]) == (Propagation::Done { separated: true }),
        first != 0 ==> propagation_after(seq![first]) == (Propagation::Try { flags: 0x8_4000 }),
        first != 0 ==> propagation_after(seq![first, second]) == (Propagation::Done {
            separated: second == 0,
        }),
        first == 0 ==> propagation_after(seq![first, second]) == (Propagation::Done {
            separated: true,
        }),
{
    assert(0x4_0000u64 | 16384u64 == 0x4_4000 && 0x8_0000u64 | 16384u64 == 0x8_4000)
        by (bit_vector);
}

/// What to do to cut the mount tree off, after the results of the attempts so
/// far.
pub fn make_private(first: Option<i32>, second: Option<i32>) -> (r: Propagation)
    requires
        second is Some ==> first is Some,
    ensures
        r == propagation_after(
            match (first, second) {
                (Some(a), Some(b)) => seq![a, b],
                (Some(a), None) => seq![a],
                _ => Seq::empty(),
            },
        ),
{
    match first {
        None => Propagation::Try { flags: MS_PRIVATE | MS_REC },
        Some(result) => if result == 0 {
            Propagation::Done { separated: true }
        } else {
            match second {
                None => Propagation::Try { flags: MS_SLAVE | MS_REC },
                Some(result) => Propagation::Done { separated: result == 0 },
            }
        },
    }
}

/// What is written where the mount with this number, counted from one, fails.
pub open spec fn failure_note(number: nat) -> Seq<char> {
    "[sandbox-runtime] mount #"@ + text::decimal(number) + "\n"@
}

/// What is written where the mount with this number, counted from one, fails.
pub fn mount_failure_note(number: u64) -> (r: String)
    ensures
        r@ == failure_note(number as nat),
{
    let mut out = "[sandbox-runtime] mount #".to_owned();
    text::push_decimal(&mut out, number);
    out.append("\n");
    out
}

/// What remains to be done of a list of mounts.
#[derive(Debug, Clone, Copy, PartialEq, Eq, Structural)]
pub enum MountProgress {
    /// Carry out the call with this index.
    Mount { index: usize },
    /// The list is over; zero, or the number of the call that failed.
    Done { code: i32 },
}

/// What to do after `done` calls of `count`, of which all but the last one
/// succeeded and the last one returned `result`: the first failure ends the
/// list, and its number, counted from one, is the outcome.
pub fn do_mounts(count: usize, done: usize, result: i32) -> (r: MountProgress)
    requires
        done <= count,
        done <= i32::MAX,
    ensures
        done > 0 && result != 0 ==> r == (MountProgress::Done { code: done as i32 }),
        !(done > 0 && result != 0) && done < count ==> r == (MountProgress::Mount { index: done }),
        !(done > 0 && result != 0) && done == count ==> r == (MountProgress::Done { code: 0 }),
{
    if done > 0 && result != 0 {
        MountProgress::Done { code: done as i32 }
    } else if done < count {
        MountProgress::Mount { index: done }
    } else {
        MountProgress::Done { code: 0 }
    }
}

} // verus!
