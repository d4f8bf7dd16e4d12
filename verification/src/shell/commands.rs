//! Shell commands: which command a line names and the text and path work
//! the commands do.

use vstd::prelude::*;
use vstd::string::StringSliceAdditionalSpecFns;
use vstd::utf8::valid_utf8;
use crate::drivers::serial::{hex_bytes, hex_text};
use crate::shell::path::{
    eq_ignore_ascii_case, eq_ignore_case_spec, is_ascii_space, is_ascii_ws, starts_with_ignore_ascii_case,
    starts_with_ignore_case_spec, trim_ascii, trim_spec,
};
use crate::text::str_from_utf8_is_ok;
use crate::fs::vfs::{parse_path, parse_path_spec, VfsError};
use crate::shell::path::{absolute_path_spec, lemma_trim_idempotent, make_absolute_path};
use crate::convert::{decimal, hex, lemma_decimal_len};
use crate::drivers::pci::{LegacyAtaSummary, StorageSummary};

verus! {

/// The commands of the shell.
#[derive(Clone, Copy, PartialEq, Eq, Structural, Debug)]
pub enum CommandKind {
    Empty,
    Help,
    Sysinfo,
    Mmap,
    Mem,
    DirCurrent,
    DirPath,
    TypeFile,
    Hexdump,
    Mount,
    Umount,
    Diskinfo,
    Mounts,
    Lsdev,
    Lsblk,
    Tasks,
    Version,
    About,
    Clear,
    Pwd,
    Cd,
    Reboot,
    Echo,
    Touch,
    Write,
    Edit,
    Run,
    Elf,
    Rm,
    Bad,
}

pub open spec fn eqi(t: Seq<u8>, word: &str) -> bool {
    eq_ignore_case_spec(t, word.spec_bytes())
}

pub open spec fn pre(t: Seq<u8>, word: &str) -> bool {
    starts_with_ignore_case_spec(t, word.spec_bytes())
}

/// The part of `t` after the command word `word`.
pub open spec fn after(t: Seq<u8>, word: &str) -> Seq<u8> {
    t.subrange(word.spec_bytes().len() as int, t.len() as int)
}

pub open spec fn has_slash(t: Seq<u8>) -> bool {
    exists|i: int| 0 <= i < t.len() && t[i] == 0x2fu8
}

/// The command a line names, and its argument: command words match
/// without regard to ASCII case; a line with a slash that names no
/// command runs a program.
pub open spec fn command_spec(line: Seq<u8>) -> (CommandKind, Seq<u8>) {
    let t = trim_spec(line);
    let none = Seq::<u8>::empty();
    if t.len() == 0 { (CommandKind::Empty, none) }
    else if eqi(t, "HELP") { (CommandKind::Help, none) }
    else if eqi(t, "SYSINFO") { (CommandKind::Sysinfo, none) }
    else if eqi(t, "MMAP") { (CommandKind::Mmap, none) }
    else if eqi(t, "MEM") { (CommandKind::Mem, none) }
    else if eqi(t, "DIR") || eqi(t, "LS") { (CommandKind::DirCurrent, none) }
    else if pre(t, "DIR ") { (CommandKind::DirPath, after(t, "DIR ")) }
    else if pre(t, "LS ") { (CommandKind::DirPath, after(t, "LS ")) }
    else if pre(t, "TYPE ") { (CommandKind::TypeFile, after(t, "TYPE ")) }
    else if pre(t, "CAT ") { (CommandKind::TypeFile, after(t, "CAT ")) }
    else if pre(t, "HD ") { (CommandKind::Hexdump, after(t, "HD ")) }
    else if pre(t, "HEXDUMP ") { (CommandKind::Hexdump, after(t, "HEXDUMP ")) }
    else if pre(t, "MOUNT ") { (CommandKind::Mount, after(t, "MOUNT ")) }
    else if eqi(t, "UMOUNT") || eqi(t, "UNMOUNT") { (CommandKind::Umount, none) }
    else if eqi(t, "DISKINFO") { (CommandKind::Diskinfo, none) }
    else if eqi(t, "MOUNTS") { (CommandKind::Mounts, none) }
    else if eqi(t, "LSDEV") { (CommandKind::Lsdev, none) }
    else if eqi(t, "LSBLK") { (CommandKind::Lsblk, none) }
    else if eqi(t, "TASKS") { (CommandKind::Tasks, none) }
    else if eqi(t, "VER") || eqi(t, "VERSION") { (CommandKind::Version, none) }
    else if eqi(t, "ABOUT") { (CommandKind::About, none) }
    else if eqi(t, "CLS") || eqi(t, "CLEAR") { (CommandKind::Clear, none) }
    else if eqi(t, "PWD") { (CommandKind::Pwd, none) }
    else if pre(t, "CD ") || eqi(t, "CD") {
        (CommandKind::Cd, if t.len() > 2 { t.subrange(2, t.len() as int) } else { none })
    }
    else if eqi(t, "REBOOT") { (CommandKind::Reboot, none) }
    else if pre(t, "ECHO ") { (CommandKind::Echo, after(t, "ECHO ")) }
    else if pre(t, "TOUCH ") { (CommandKind::Touch, after(t, "TOUCH ")) }
    else if pre(t, "WRITE ") { (CommandKind::Write, after(t, "WRITE ")) }
    else if pre(t, "EDIT ") { (CommandKind::Edit, after(t, "EDIT ")) }
    else if pre(t, "RUN ") { (CommandKind::Run, after(t, "RUN ")) }
    else if pre(t, "ELF ") { (CommandKind::Elf, after(t, "ELF ")) }
    else if pre(t, "EXEC ") { (CommandKind::Elf, after(t, "EXEC ")) }
    else if pre(t, "RM ") { (CommandKind::Rm, after(t, "RM ")) }
    else if pre(t, "RMD ") { (CommandKind::Rm, after(t, "RMD ")) }
    else if pre(t, "DEL ") { (CommandKind::Rm, after(t, "DEL ")) }
    else if has_slash(t) { (CommandKind::Elf, t) }
    else { (CommandKind::Bad, none) }
}

fn eqi_exec(t: &[u8], word: &str) -> (r: bool)
    ensures
        r == eqi(t@, word),
{
    eq_ignore_ascii_case(t, word.as_bytes())
}

fn pre_exec(t: &[u8], word: &str) -> (r: bool)
    ensures
        r == pre(t@, word),
        r ==> word.spec_bytes().len() <= t@.len(),
{
    starts_with_ignore_ascii_case(t, word.as_bytes())
}

fn after_exec<'a>(t: &'a [u8], word: &str) -> (r: &'a [u8])
    requires
        word.spec_bytes().len() <= t@.len(),
    ensures
        r@ == after(t@, word),
{
    let n = word.as_bytes().len();
    &t[n..t.len()]
}

fn contains_slash(t: &[u8]) -> (r: bool)
    ensures
        r == has_slash(t@),
{
    let mut i: usize = 0;
    while i < t.len()
        invariant
            i <= t@.len(),
            forall|k: int| 0 <= k < i ==> t@[k] != 0x2fu8,
        decreases t@.len() - i,
    {
        if t[i] == 0x2f {
            return true;
        }
        i += 1;
    }
    false
}

/// The command a line names and its argument.
#[verifier::rlimit(50)]
pub fn parse_command(line: &[u8]) -> (r: (CommandKind, &[u8]))
    ensures
        (r.0, r.1@) == command_spec(line@),
{
    let t = trim_ascii(line);
    let none: &[u8] = &t[0..0];
    assert(none@ =~= Seq::<u8>::empty());
    if t.len() == 0 { return (CommandKind::Empty, none); }
    if eqi_exec(t, "HELP") { return (CommandKind::Help, none); }
    if eqi_exec(t, "SYSINFO") { return (CommandKind::Sysinfo, none); }
    if eqi_exec(t, "MMAP") { return (CommandKind::Mmap, none); }
    if eqi_exec(t, "MEM") { return (CommandKind::Mem, none); }
    if eqi_exec(t, "DIR") || eqi_exec(t, "LS") { return (CommandKind::DirCurrent, none); }
    if pre_exec(t, "DIR ") { return (CommandKind::DirPath, after_exec(t, "DIR ")); }
    if pre_exec(t, "LS ") { return (CommandKind::DirPath, after_exec(t, "LS ")); }
    if pre_exec(t, "TYPE ") { return (CommandKind::TypeFile, after_exec(t, "TYPE ")); }
    if pre_exec(t, "CAT ") { return (CommandKind::TypeFile, after_exec(t, "CAT ")); }
    if pre_exec(t, "HD ") { return (CommandKind::Hexdump, after_exec(t, "HD ")); }
    if pre_exec(t, "HEXDUMP ") { return (CommandKind::Hexdump, after_exec(t, "HEXDUMP ")); }
    if pre_exec(t, "MOUNT ") { return (CommandKind::Mount, after_exec(t, "MOUNT ")); }
    if eqi_exec(t, "UMOUNT") || eqi_exec(t, "UNMOUNT") { return (CommandKind::Umount, none); }
    if eqi_exec(t, "DISKINFO") { return (CommandKind::Diskinfo, none); }
    if eqi_exec(t, "MOUNTS") { return (CommandKind::Mounts, none); }
    if eqi_exec(t, "LSDEV") { return (CommandKind::Lsdev, none); }
    if eqi_exec(t, "LSBLK") { return (CommandKind::Lsblk, none); }
    if eqi_exec(t, "TASKS") { return (CommandKind::Tasks, none); }
    if eqi_exec(t, "VER") || eqi_exec(t, "VERSION") { return (CommandKind::Version, none); }
    if eqi_exec(t, "ABOUT") { return (CommandKind::About, none); }
    if eqi_exec(t, "CLS") || eqi_exec(t, "CLEAR") { return (CommandKind::Clear, none); }
    if eqi_exec(t, "PWD") { return (CommandKind::Pwd, none); }
    if pre_exec(t, "CD ") || eqi_exec(t, "CD") {
        let arg: &[u8] = if t.len() > 2 { &t[2..t.len()] } else { none };
        return (CommandKind::Cd, arg);
    }
    if eqi_exec(t, "REBOOT") { return (CommandKind::Reboot, none); }
    if pre_exec(t, "ECHO ") { return (CommandKind::Echo, after_exec(t, "ECHO ")); }
    if pre_exec(t, "TOUCH ") { return (CommandKind::Touch, after_exec(t, "TOUCH ")); }
    if pre_exec(t, "WRITE ") { return (CommandKind::Write, after_exec(t, "WRITE ")); }
    if pre_exec(t, "EDIT ") { return (CommandKind::Edit, after_exec(t, "EDIT ")); }
    if pre_exec(t, "RUN ") { return (CommandKind::Run, after_exec(t, "RUN ")); }
    if pre_exec(t, "ELF ") { return (CommandKind::Elf, after_exec(t, "ELF ")); }
    if pre_exec(t, "EXEC ") { return (CommandKind::Elf, after_exec(t, "EXEC ")); }
    if pre_exec(t, "RM ") { return (CommandKind::Rm, after_exec(t, "RM ")); }
    if pre_exec(t, "RMD ") { return (CommandKind::Rm, after_exec(t, "RMD ")); }
    if pre_exec(t, "DEL ") { return (CommandKind::Rm, after_exec(t, "DEL ")); }
    if contains_slash(t) { return (CommandKind::Elf, t); }
    (CommandKind::Bad, none)
}

/// The index of the first ASCII whitespace byte of `s` at `i` or after,
/// or its length.
pub open spec fn word_end(s: Seq<u8>, i: int) -> int
    decreases s.len() - i,
{
    if i >= s.len() || is_ascii_ws(s[i]) {
        i
    } else {
        word_end(s, i + 1)
    }
}

/// The index of the first byte of `s` at `i` or after that is not ASCII
/// whitespace, or its length.
pub open spec fn space_end(s: Seq<u8>, i: int) -> int
    decreases s.len() - i,
{
    if i >= s.len() || !is_ascii_ws(s[i]) {
        i
    } else {
        space_end(s, i + 1)
    }
}

/// The end of the word at `start`: the first ASCII whitespace from there
/// on, or the length.
pub fn find_word_end(s: &[u8], start: usize) -> (r: usize)
    requires
        start <= s@.len(),
    ensures
        r == word_end(s@, start as int),
        start <= r <= s@.len(),
{
    let mut i = start;
    while i < s.len() && !is_ascii_space(s[i])
        invariant
            start <= i <= s@.len(),
            word_end(s@, i as int) == word_end(s@, start as int),
        decreases s@.len() - i,
    {
        i += 1;
    }
    i
}

/// The end of the whitespace at `start`: the first other byte from there
/// on, or the length.
pub fn find_space_end(s: &[u8], start: usize) -> (r: usize)
    requires
        start <= s@.len(),
    ensures
        r == space_end(s@, start as int),
        start <= r <= s@.len(),
{
    let mut i = start;
    while i < s.len() && is_ascii_space(s[i])
        invariant
            start <= i <= s@.len(),
            space_end(s@, i as int) == space_end(s@, start as int),
        decreases s@.len() - i,
    {
        i += 1;
    }
    i
}

/// The first word of the trimmed input, and the trimmed rest.
pub open spec fn split_first_word_spec(input: Seq<u8>) -> Option<(Seq<u8>, Seq<u8>)> {
    let t = trim_spec(input);
    if t.len() == 0 {
        None
    } else {
        let split = word_end(t, 0);
        Some((
            t.subrange(0, split),
            if split < t.len() { trim_spec(t.subrange(split, t.len() as int)) } else { Seq::empty() },
        ))
    }
}

/// Splits off the first word of the trimmed input; `None` when nothing is
/// left after trimming.
pub fn split_first_word(input: &[u8]) -> (r: Option<(&[u8], &[u8])>)
    ensures
        match r {
            Some((a, b)) => split_first_word_spec(input@) == Some((a@, b@)),
            None => split_first_word_spec(input@) is None,
        },
{
    let t = trim_ascii(input);
    if t.len() == 0 {
        return None;
    }
    let split = find_word_end(t, 0);
    let first = &t[0..split];
    let rest: &[u8] = if split < t.len() {
        trim_ascii(&t[split..t.len()])
    } else {
        &t[0..0]
    };
    assert(t@.subrange(0, 0) =~= Seq::<u8>::empty());
    Some((first, rest))
}

/// A path with its trailing slashes dropped, but never below one byte;
/// "/" stays.
pub open spec fn strip_trailing_slashes_from(p: Seq<u8>, end: int) -> int
    decreases end,
{
    if end > 1 && p[end - 1] == 0x2fu8 {
        strip_trailing_slashes_from(p, end - 1)
    } else {
        end
    }
}

/// Drops trailing slashes, keeping at least the first byte.
pub fn ensure_no_trailing_slash_except_root(path: &[u8]) -> (r: &[u8])
    ensures
        r@ == path@.subrange(0, strip_trailing_slashes_from(path@, path@.len() as int)),
{
    let mut end = path.len();
    while end > 1 && path[end - 1] == 0x2f
        invariant
            end <= path@.len(),
            strip_trailing_slashes_from(path@, end as int) == strip_trailing_slashes_from(
                path@,
                path@.len() as int,
            ),
        decreases end,
    {
        end -= 1;
    }
    &path[0..end]
}

pub open spec fn fat32_path(p: Seq<u8>) -> bool {
    p == "/disk1".spec_bytes() || (p.len() >= 7 && p.subrange(0, 7) == "/disk1/".spec_bytes()) || (p.len()
        >= 2 && p.subrange(0, 2) == "1:".spec_bytes())
}

pub(crate) fn starts_with_bytes(s: &[u8], prefix: &str) -> (r: bool)
    ensures
        r == (s@.len() >= prefix.spec_bytes().len() && s@.subrange(0, prefix.spec_bytes().len() as int)
            == prefix.spec_bytes()),
{
    let p = prefix.as_bytes();
    if s.len() < p.len() {
        return false;
    }
    let mut i: usize = 0;
    while i < p.len()
        invariant
            i <= p@.len() <= s@.len(),
            p@ == prefix.spec_bytes(),
            forall|k: int| 0 <= k < i ==> s@[k] == p@[k],
        decreases p@.len() - i,
    {
        if s[i] != p[i] {
            assert(s@.subrange(0, p@.len() as int)[i as int] != p@[i as int]);
            return false;
        }
        i += 1;
    }
    assert(s@.subrange(0, p@.len() as int) =~= p@);
    true
}

fn bytes_eq_str(s: &[u8], word: &str) -> (r: bool)
    ensures
        r == (s@ == word.spec_bytes()),
{
    let w = word.as_bytes();
    if s.len() != w.len() {
        return false;
    }
    let r = starts_with_bytes(s, word);
    assert(s@.subrange(0, s@.len() as int) =~= s@);
    r
}

/// Whether a path is on the FAT32 disk: "/disk1", anything under it, or a
/// "1:" path.
pub fn is_fat32_path(path: &[u8]) -> (r: bool)
    ensures
        r == fat32_path(path@),
{
    proof {
        reveal_strlit("/disk1/");
        reveal_strlit("1:");
        vstd::string::is_ascii_spec_bytes("/disk1/");
        vstd::string::is_ascii_spec_bytes("1:");
    }
    bytes_eq_str(path, "/disk1") || starts_with_bytes(path, "/disk1/") || starts_with_bytes(path, "1:")
}

/// Whether a path names a directory: the root or ending in a slash.
pub fn is_directory_path(path: &[u8]) -> (r: bool)
    ensures
        r == (path@ == seq![0x2fu8] || (path@.len() > 0 && path@.last() == 0x2fu8)),
{
    if path.len() == 1 && path[0] == 0x2f {
        assert(path@ =~= seq![0x2fu8]);
        return true;
    }
    path.len() > 0 && path[path.len() - 1] == 0x2f
}

/// The last slash before `end`, or 0.
pub open spec fn last_slash_before(p: Seq<u8>, end: int) -> int
    decreases end,
{
    if end <= 0 {
        0
    } else if p[end - 1] == 0x2fu8 {
        end - 1
    } else {
        last_slash_before(p, end - 1)
    }
}

proof fn lemma_strip_bounds(p: Seq<u8>, end: int)
    requires
        0 <= end,
    ensures
        0 <= strip_trailing_slashes_from(p, end) <= end,
    decreases end,
{
    if end > 1 && p[end - 1] == 0x2fu8 {
        lemma_strip_bounds(p, end - 1);
    }
}

/// The parent of a working directory: "/" stays "/"; otherwise trailing
/// slashes go, then everything from the last slash; a parent that would be
/// empty is "/", as is one that is not UTF-8.
pub open spec fn parent_spec(cwd: Seq<u8>) -> Seq<u8> {
    if cwd == seq![0x2fu8] {
        cwd
    } else {
        let end = strip_trailing_slashes_from(cwd, cwd.len() as int);
        let slash = last_slash_before(cwd, end);
        if slash == 0 || !valid_utf8(cwd.subrange(0, slash)) {
            seq![0x2fu8]
        } else {
            cwd.subrange(0, slash)
        }
    }
}

/// The working directory one level up (`CD ..`).
pub fn cd_parent(cwd: &[u8]) -> (r: Vec<u8>)
    ensures
        r@ == parent_spec(cwd@),
{
    let mut root: Vec<u8> = Vec::new();
    root.push(0x2f);
    if cwd.len() == 1 && cwd[0] == 0x2f {
        assert(cwd@ =~= seq![0x2fu8]);
        assert(root@ =~= seq![0x2fu8]);
        return root;
    }
    assert(cwd@ != seq![0x2fu8]);
    let trimmed = ensure_no_trailing_slash_except_root(cwd);
    let end = trimmed.len();
    let mut slash: usize = 0;
    let mut i: usize = end;
    proof {
        lemma_strip_bounds(cwd@, cwd@.len() as int);
    }
    while i > 0
        invariant_except_break
            slash == 0,
        invariant
            i <= end <= cwd@.len(),
            end == strip_trailing_slashes_from(cwd@, cwd@.len() as int),
            last_slash_before(cwd@, i as int) == last_slash_before(cwd@, end as int),
        ensures
            slash == last_slash_before(cwd@, end as int),
            slash <= end,
        decreases i,
    {
        if cwd[i - 1] == 0x2f {
            slash = i - 1;
            break;
        }
        i -= 1;
    }
    assert(root@ =~= seq![0x2fu8]);
    if slash == 0 {
        return root;
    }
    let prefix = &cwd[0..slash];
    if !str_from_utf8_is_ok(prefix) {
        return root;
    }
    crate::shell::commands::copy_bytes(prefix)
}

/// What `CD` does with the working directory.
#[derive(Debug)]
pub enum CdOutcome {
    /// The working directory becomes this path.
    Change(Vec<u8>),
    /// `CD .`: nothing changes.
    Unchanged,
    /// The path was refused with this error.
    Failed(VfsError),
    /// The path could not be made absolute.
    InvalidPath,
}

pub ghost enum CdView {
    Change(Seq<u8>),
    Unchanged,
    Failed(VfsError),
    InvalidPath,
}

pub open spec fn cd_view(c: CdOutcome) -> CdView {
    match c {
        CdOutcome::Change(p) => CdView::Change(p@),
        CdOutcome::Unchanged => CdView::Unchanged,
        CdOutcome::Failed(e) => CdView::Failed(e),
        CdOutcome::InvalidPath => CdView::InvalidPath,
    }
}

/// `CD arg` from `cwd`: no argument goes to "/", "." stays, ".." goes to
/// the parent; any other path is made absolute and must split as a disk
/// path, and then becomes the working directory without trailing slashes.
pub open spec fn cd_spec(arg: Seq<u8>, cwd: Seq<u8>) -> CdView {
    let a = trim_spec(arg);
    if a.len() == 0 {
        CdView::Change(seq![0x2fu8])
    } else if a == seq![0x2eu8] {
        CdView::Unchanged
    } else if a == seq![0x2eu8, 0x2eu8] {
        CdView::Change(parent_spec(cwd))
    } else {
        match absolute_path_spec(a, cwd) {
            None => CdView::InvalidPath,
            Some(p) => match parse_path_spec(p) {
                Ok(_) => CdView::Change(p.subrange(0, strip_trailing_slashes_from(p, p.len() as int))),
                Err(e) => CdView::Failed(e),
            },
        }
    }
}

/// Decides what `CD arg` does to the working directory `cwd`.
pub fn cd_command(arg: &[u8], cwd: &[u8]) -> (r: CdOutcome)
    ensures
        cd_view(r) == cd_spec(arg@, cwd@),
{
    let a = trim_ascii(arg);
    if a.len() == 0 {
        let mut root: Vec<u8> = Vec::new();
        root.push(0x2f);
        assert(root@ =~= seq![0x2fu8]);
        return CdOutcome::Change(root);
    }
    if a.len() == 1 && a[0] == 0x2e {
        assert(a@ =~= seq![0x2eu8]);
        return CdOutcome::Unchanged;
    }
    assert(a@ != seq![0x2eu8]);
    if a.len() == 2 && a[0] == 0x2e && a[1] == 0x2e {
        assert(a@ =~= seq![0x2eu8, 0x2eu8]);
        return CdOutcome::Change(cd_parent(cwd));
    }
    assert(a@ != seq![0x2eu8, 0x2eu8]);
    proof {
        lemma_trim_idempotent(arg@);
    }
    match make_absolute_path(a, cwd) {
        None => CdOutcome::InvalidPath,
        Some(path) => match parse_path(path.as_slice()) {
            Ok(_) => {
                let normalized = ensure_no_trailing_slash_except_root(path.as_slice());
                CdOutcome::Change(copy_bytes(normalized))
            },
            Err(e) => CdOutcome::Failed(e),
        },
    }
}

/// A copy of `s`.
pub fn copy_bytes(s: &[u8]) -> (r: Vec<u8>)
    ensures
        r@ == s@,
{
    let mut v: Vec<u8> = Vec::new();
    let mut i: usize = 0;
    while i < s.len()
        invariant
            i <= s@.len(),
            v@ == s@.subrange(0, i as int),
        decreases s@.len() - i,
    {
        v.push(s[i]);
        i += 1;
        assert(v@ =~= s@.subrange(0, i as int));
    }
    assert(s@.subrange(0, s@.len() as int) =~= s@);
    v
}

/// The block device name of disk `index`: "sda" to "sdp", then "sd?".
pub open spec fn sd_name_spec(index: usize) -> Seq<u8> {
    if index < 16 {
        seq![0x73u8, 0x64u8, (0x61 + index) as u8]
    } else {
        seq![0x73u8, 0x64u8, 0x3fu8]
    }
}

pub fn sd_name(index: usize) -> (r: [u8; 3])
    ensures
        r@ == sd_name_spec(index),
{
    let last: u8 = if index < 16 {
        0x61 + index as u8
    } else {
        0x3f
    };
    let r = [0x73u8, 0x64u8, last];
    assert(r@ =~= sd_name_spec(index));
    r
}

/// The two lower-case hex digits of a byte.
pub open spec fn hex_pair(b: u8) -> Seq<u8> {
    seq![crate::drivers::serial::hex_lower((b / 16) as nat), crate::drivers::serial::hex_lower((b % 16) as nat)]
}

/// A byte in the text column: printable ASCII as itself, the rest as '.'.
pub open spec fn shown(b: u8) -> u8 {
    if 0x20 <= b <= 0x7e {
        b
    } else {
        0x2eu8
    }
}

/// The hex column of a hexdump line from `offset`: 16 cells, two digits
/// and a space per byte, three spaces past the end.
pub open spec fn hex_cells(data: Seq<u8>, offset: int, i: int) -> Seq<u8>
    decreases i,
{
    if i <= 0 {
        Seq::empty()
    } else {
        hex_cells(data, offset, i - 1) + if offset + i - 1 < data.len() {
            hex_pair(data[offset + i - 1]).push(0x20u8)
        } else {
            seq![0x20u8, 0x20u8, 0x20u8]
        }
    }
}

/// The text column of a hexdump line from `offset`.
pub open spec fn text_cells(data: Seq<u8>, offset: int, i: int) -> Seq<u8>
    decreases i,
{
    if i <= 0 {
        Seq::empty()
    } else {
        text_cells(data, offset, i - 1) + if offset + i - 1 < data.len() {
            seq![shown(data[offset + i - 1])]
        } else {
            Seq::empty()
        }
    }
}

/// One hexdump line: the offset in hex, the bytes in hex, and the bytes as
/// text between bars.
pub open spec fn hexdump_line(data: Seq<u8>, offset: int) -> Seq<u8> {
    hex_text(offset as nat) + ": ".spec_bytes() + hex_cells(data, offset, 16) + " |".spec_bytes()
        + text_cells(data, offset, 16) + "|\n".spec_bytes()
}

/// The lines from `offset` on, stopping (with a note) once 256 bytes have
/// been shown.
pub open spec fn hexdump_from(data: Seq<u8>, offset: int) -> Seq<u8>
    decreases 256 - offset,
{
    if offset >= data.len() || offset < 0 {
        Seq::empty()
    } else if offset + 16 >= 256 {
        hexdump_line(data, offset) + "[hexdump truncated to 256 bytes]\n".spec_bytes()
    } else {
        hexdump_line(data, offset) + hexdump_from(data, offset + 16)
    }
}

pub(crate) fn push_str(out: &mut Vec<u8>, s: &str)
    ensures
        final(out)@ == old(out)@ + s.spec_bytes(),
{
    crate::shell::editor::append_str(out, s);
}

fn hex_digit_lower(d: u8) -> (r: u8)
    requires
        d < 16,
    ensures
        r == crate::drivers::serial::hex_lower(d as nat),
{
    if d < 10 {
        0x30 + d
    } else {
        0x61 + (d - 10)
    }
}

fn push_hexdump_line(out: &mut Vec<u8>, data: &[u8], offset: usize)
    requires
        offset + 16 <= usize::MAX,
    ensures
        final(out)@ == old(out)@ + hexdump_line(data@, offset as int),
{
    let ghost start = out@;
    let h = hex_bytes(offset as u64);
    crate::shell::editor::append_bytes(out, h.as_slice());
    push_str(out, ": ");
    let ghost mid = out@;
    let mut i: usize = 0;
    assert(out@ =~= mid + hex_cells(data@, offset as int, 0));
    while i < 16
        invariant
            i <= 16,
            offset + 16 <= usize::MAX,
            out@ == mid + hex_cells(data@, offset as int, i as int),
        decreases 16 - i,
    {
        if offset + i < data.len() {
            let b = data[offset + i];
            out.push(hex_digit_lower(b / 16));
            out.push(hex_digit_lower(b % 16));
            out.push(0x20);
        } else {
            out.push(0x20);
            out.push(0x20);
            out.push(0x20);
        }
        i += 1;
        assert(out@ =~= mid + hex_cells(data@, offset as int, i as int));
    }
    push_str(out, " |");
    let ghost mid2 = out@;
    let mut j: usize = 0;
    assert(out@ =~= mid2 + text_cells(data@, offset as int, 0));
    while j < 16
        invariant
            j <= 16,
            offset + 16 <= usize::MAX,
            out@ == mid2 + text_cells(data@, offset as int, j as int),
        decreases 16 - j,
    {
        if offset + j < data.len() {
            let b = data[offset + j];
            out.push(if 0x20 <= b && b <= 0x7e { b } else { 0x2e });
        }
        j += 1;
        assert(out@ =~= mid2 + text_cells(data@, offset as int, j as int));
    }
    push_str(out, "|\n");
    assert(out@ =~= start + hexdump_line(data@, offset as int));
}

/// A hexdump of the first 256 bytes of `data`: lines of 16 bytes with
/// their offset, hex and text, and a note when it stopped at 256 bytes.
pub fn hexdump(data: &[u8]) -> (r: Vec<u8>)
    ensures
        r@ == hexdump_from(data@, 0),
{
    let mut out: Vec<u8> = Vec::new();
    let mut offset: usize = 0;
    while offset < data.len()
        invariant_except_break
            offset <= 256,
            out@ + hexdump_from(data@, offset as int) == hexdump_from(data@, 0),
        ensures
            out@ == hexdump_from(data@, 0),
        decreases 256 - offset,
    {
        let ghost before = out@;
        push_hexdump_line(&mut out, data, offset);
        offset += 16;
        if offset >= 256 {
            push_str(&mut out, "[hexdump truncated to 256 bytes]\n");
            assert(out@ =~= before + hexdump_from(data@, offset - 16));
            break;
        }
        assert(out@ + hexdump_from(data@, offset as int) =~= before + hexdump_from(data@, offset - 16));
    }
    assert(out@ + Seq::<u8>::empty() =~= out@);
    out
}

/// What the serial log shows of raw bytes: UTF-8 text as the serial line
/// sends it, anything else byte by byte with non-printable bytes as '?'.
pub open spec fn serial_log_bytes(bytes: Seq<u8>) -> Seq<u8> {
    if valid_utf8(bytes) {
        crate::drivers::serial::serial_text(bytes)
    } else {
        bytes.map_values(|b: u8| if 0x20 <= b <= 0x7e { b } else { 0x3fu8 })
    }
}

/// The bytes that the serial log of `bytes` sends.
pub fn serial_write_bytes(bytes: &[u8]) -> (r: Vec<u8>)
    ensures
        r@ == serial_log_bytes(bytes@),
{
    if str_from_utf8_is_ok(bytes) {
        let mut out: Vec<u8> = Vec::new();
        let mut i: usize = 0;
        while i < bytes.len()
            invariant
                i <= bytes@.len(),
                out@ == crate::drivers::serial::serial_text(bytes@.subrange(0, i as int)),
            decreases bytes@.len() - i,
        {
            assert(bytes@.subrange(0, i + 1).drop_last() =~= bytes@.subrange(0, i as int));
            if bytes[i] == 0x0a {
                out.push(0x0d);
                out.push(0x0a);
            } else {
                out.push(bytes[i]);
            }
            i += 1;
        }
        assert(bytes@.subrange(0, bytes@.len() as int) =~= bytes@);
        return out;
    }
    let mut out: Vec<u8> = Vec::new();
    let mut i: usize = 0;
    while i < bytes.len()
        invariant
            i <= bytes@.len(),
            out@ == bytes@.subrange(0, i as int).map_values(
                |b: u8| if 0x20 <= b <= 0x7e { b } else { 0x3fu8 },
            ),
        decreases bytes@.len() - i,
    {
        let b = bytes[i];
        out.push(if 0x20 <= b && b <= 0x7e { b } else { 0x3f });
        i += 1;
        assert(out@ =~= bytes@.subrange(0, i as int).map_values(
            |b: u8| if 0x20 <= b <= 0x7e { b } else { 0x3fu8 },
        ));
    }
    assert(bytes@.subrange(0, bytes@.len() as int) =~= bytes@);
    out
}

/// What `TYPE` shows of a file: UTF-8 text as it is, with a line feed
/// added unless it ends in one; anything else a note to use HEXDUMP.
pub open spec fn type_text_spec(data: Seq<u8>) -> Seq<u8> {
    if !valid_utf8(data) {
        "Cannot display binary file. Use HEXDUMP instead.\n".spec_bytes()
    } else if data.len() > 0 && data.last() == 0x0au8 {
        data
    } else {
        data.push(0x0au8)
    }
}

/// The text `TYPE` shows for a file's contents.
pub fn type_text(data: &[u8]) -> (r: Vec<u8>)
    ensures
        r@ == type_text_spec(data@),
{
    if !str_from_utf8_is_ok(data) {
        return crate::text::str_bytes("Cannot display binary file. Use HEXDUMP instead.\n");
    }
    let mut out = copy_bytes(data);
    if data.len() == 0 || data[data.len() - 1] != 0x0a {
        out.push(0x0a);
    }
    out
}

/// The index of the first line feed of `s` at `i` or after, or its length.
pub open spec fn newline_at(s: Seq<u8>, i: int) -> int
    decreases s.len() - i,
{
    if i >= s.len() || s[i] == 0x0au8 {
        i
    } else {
        newline_at(s, i + 1)
    }
}

pub proof fn lemma_newline_bounds(s: Seq<u8>, i: int)
    requires
        0 <= i <= s.len(),
    ensures
        i <= newline_at(s, i) <= s.len(),
    decreases s.len() - i,
{
    if i < s.len() && s[i] != 0x0au8 {
        lemma_newline_bounds(s, i + 1);
    }
}

/// The commands of a script from byte `i` on: each line trimmed, blank
/// lines left out.
pub open spec fn script_from(s: Seq<u8>, i: int) -> Seq<Seq<u8>>
    decreases s.len() - i,
{
    if i < 0 || i >= s.len() {
        Seq::empty()
    } else {
        let end = newline_at(s, i);
        proof {
            lemma_newline_bounds(s, i);
        }
        let line = trim_spec(s.subrange(i, end));
        let here = if line.len() > 0 { seq![line] } else { Seq::empty() };
        here + (if end < s.len() { script_from(s, end + 1) } else { Seq::empty() })
    }
}

pub open spec fn lines_view(v: Seq<Vec<u8>>) -> Seq<Seq<u8>> {
    v.map_values(|l: Vec<u8>| l@)
}

/// The commands a script (`RUN`) runs, in order: its lines, trimmed,
/// without blank ones; `None` when it is not text.
pub fn script_commands(data: &[u8]) -> (r: Option<Vec<Vec<u8>>>)
    ensures
        match r {
            Some(v) => valid_utf8(data@) && lines_view(v@) == script_from(data@, 0),
            None => !valid_utf8(data@),
        },
{
    if !str_from_utf8_is_ok(data) {
        return None;
    }
    let mut out: Vec<Vec<u8>> = Vec::new();
    let mut i: usize = 0;
    while i < data.len()
        invariant
            i <= data@.len(),
            lines_view(out@) + script_from(data@, i as int) == script_from(data@, 0),
        decreases data@.len() - i,
    {
        let mut end = i;
        while end < data.len() && data[end] != 0x0a
            invariant
                i <= end <= data@.len(),
                newline_at(data@, end as int) == newline_at(data@, i as int),
            decreases data@.len() - end,
        {
            end += 1;
        }
        let line = trim_ascii(&data[i..end]);
        let ghost before = lines_view(out@);
        if line.len() > 0 {
            out.push(copy_bytes(line));
            assert(lines_view(out@) =~= before + seq![line@]);
        }
        if end >= data.len() {
            assert(lines_view(out@) + script_from(data@, end as int) =~= before + script_from(data@, i as int));
            i = end;
        } else {
            assert(lines_view(out@) + script_from(data@, end + 1) =~= before + script_from(data@, i as int));
            i = end + 1;
        }
    }
    assert(script_from(data@, i as int) =~= Seq::<Seq<u8>>::empty());
    assert(lines_view(out@) + Seq::<Seq<u8>>::empty() =~= lines_view(out@));
    Some(out)
}

/// One disk in the `LSBLK` listing: its name, then its first partition
/// and where that is mounted (only the first disk can be, at /disk1).
pub open spec fn lsblk_row(i: usize, disk1_mounted: bool) -> Seq<u8> {
    sd_name_spec(i) + "\n  - ".spec_bytes() + sd_name_spec(i) + "1   ".spec_bytes() + (if i == 0
        && disk1_mounted {
        "/disk1".spec_bytes()
    } else {
        "(not mounted)".spec_bytes()
    }) + "\n".spec_bytes()
}

pub open spec fn lsblk_rows(n: int, disk1_mounted: bool) -> Seq<u8>
    decreases n,
{
    if n <= 0 {
        Seq::empty()
    } else {
        lsblk_rows(n - 1, disk1_mounted) + lsblk_row((n - 1) as usize, disk1_mounted)
    }
}

/// The `LSBLK` listing: the RAM disk, then the SATA disks and the legacy
/// ATA disks, `disks` in all.
pub open spec fn lsblk_spec(disks: usize, disk1_mounted: bool) -> Seq<u8> {
    "NAME     PART   MOUNTPOINT\nloop0\n  - loop0p1   /ram\n".spec_bytes() + lsblk_rows(
        disks as int,
        disk1_mounted,
    )
}

/// The text of `LSBLK` for `sata` SATA disks and `ata` legacy ATA disks.
pub fn lsblk_text(sata: usize, ata: usize, disk1_mounted: bool) -> (r: Vec<u8>)
    requires
        sata + ata <= usize::MAX,
    ensures
        r@ == lsblk_spec((sata + ata) as usize, disk1_mounted),
{
    let total = sata + ata;
    let mut out: Vec<u8> = Vec::new();
    push_str(&mut out, "NAME     PART   MOUNTPOINT\nloop0\n  - loop0p1   /ram\n");
    let mut i: usize = 0;
    while i < total
        invariant
            i <= total,
            out@ == "NAME     PART   MOUNTPOINT\nloop0\n  - loop0p1   /ram\n".spec_bytes() + lsblk_rows(
                i as int,
                disk1_mounted,
            ),
        decreases total - i,
    {
        let ghost before = out@;
        let name = sd_name(i);
        crate::shell::editor::append_bytes(&mut out, &name);
        push_str(&mut out, "\n  - ");
        crate::shell::editor::append_bytes(&mut out, &name);
        push_str(&mut out, "1   ");
        if i == 0 && disk1_mounted {
            push_str(&mut out, "/disk1");
        } else {
            push_str(&mut out, "(not mounted)");
        }
        push_str(&mut out, "\n");
        assert(out@ =~= before + lsblk_row(i, disk1_mounted));
        i += 1;
    }
    out
}

/// What `DISKINFO` says of disk 1.
#[derive(Clone, Copy, PartialEq, Eq, Structural, Debug)]
pub enum Disk1State {
    /// A FAT32 volume is mounted at /disk1.
    Mounted,
    /// A storage controller or drive was found, nothing mounted.
    Present,
    /// No storage at all.
    Absent,
}

/// Disk 1 is mounted when FAT32 is; present when PCI storage, a legacy
/// channel or any legacy drive was found; absent otherwise.
pub fn disk1_state(
    fat32_mounted: bool,
    pci: crate::drivers::pci::StorageSummary,
    ata: crate::drivers::pci::LegacyAtaSummary,
) -> (r: Disk1State)
    requires
        pci.ide + pci.sata + pci.scsi + pci.nvme + pci.other <= usize::MAX,
    ensures
        r == (if fat32_mounted {
            Disk1State::Mounted
        } else if pci.ide + pci.sata + pci.scsi + pci.nvme + pci.other > 0 || ata.channels > 0
            || ata.ata_devices > 0 || ata.atapi_devices > 0 {
            Disk1State::Present
        } else {
            Disk1State::Absent
        }),
{
    let has_storage = pci.total() > 0 || ata.channels > 0 || ata.ata_devices > 0 || ata.atapi_devices > 0;
    if fat32_mounted {
        Disk1State::Mounted
    } else if has_storage {
        Disk1State::Present
    } else {
        Disk1State::Absent
    }
}

/// What the shell prints for a line that names no command.
pub open spec fn bad_command_spec() -> Seq<u8> {
    "Bad command or file name\n".spec_bytes()
}

/// The reply to a line that names no command (`CommandKind::Bad`).
pub fn bad_command_text() -> (r: Vec<u8>)
    ensures
        r@ == bad_command_spec(),
{
    crate::text::str_bytes("Bad command or file name\n")
}

/// What `VER` prints: the kernel's name and version in brackets.
pub open spec fn version_spec() -> Seq<u8> {
    "Rootleaf Kernel [Version ".spec_bytes() + crate::drivers::graphics::console::KERNEL_VERSION.spec_bytes()
        + "]\n".spec_bytes()
}

/// The reply to `VER` and `VERSION`.
pub fn version_text() -> (r: Vec<u8>)
    ensures
        r@ == version_spec(),
{
    let mut out: Vec<u8> = Vec::new();
    push_str(&mut out, "Rootleaf Kernel [Version ");
    push_str(&mut out, crate::drivers::graphics::console::KERNEL_VERSION);
    push_str(&mut out, "]\n");
    out
}

/// What `ABOUT` prints.
pub open spec fn about_spec() -> Seq<u8> {
    "Rootleaf is a small experimental OS made by segfaultuwu\n".spec_bytes()
        + "Source code available at: https://github.com/segfaultuwu/rootleaf\n".spec_bytes()
}

/// The reply to `ABOUT`.
pub fn about_text() -> (r: Vec<u8>)
    ensures
        r@ == about_spec(),
{
    let mut out: Vec<u8> = Vec::new();
    push_str(&mut out, "Rootleaf is a small experimental OS made by segfaultuwu\n");
    push_str(&mut out, "Source code available at: https://github.com/segfaultuwu/rootleaf\n");
    out
}

pub(crate) fn push_decimal(out: &mut Vec<u8>, v: u64)
    ensures
        final(out)@ == old(out)@ + decimal(v as nat),
{
    let mut buf: Vec<u8> = vec![0u8; 20];
    proof {
        lemma_decimal_len(v as nat);
    }
    let n = crate::convert::u64_to_str(v, buf.as_mut_slice());
    assert(decimal(v as nat).subrange(0, n as int) =~= decimal(v as nat));
    crate::shell::editor::append_bytes(out, &buf.as_slice()[0..n]);
}

/// What `LSDEV` prints: the CPU's vendor, the fixed devices, the storage
/// controllers found on the PCI bus with the number of SATA disks, and the
/// legacy ATA channels and drives, with a CD-ROM line when an ATAPI drive
/// answered.
pub open spec fn lsdev_spec(vendor: Seq<u8>, st: StorageSummary, sata_disks: nat, ata: LegacyAtaSummary) -> Seq<u8> {
    "Devices\n=======\n\nCPU:             ".spec_bytes() + vendor + "\n".spec_bytes()
        + "Interrupt Ctrl:  8259 PIC\nKeyboard:        PS/2 (IRQ1)\nDisplay:         Limine framebuffer\n".spec_bytes()
        + "Console:         Rootleaf framebuffer console\nSerial:          COM1 (0x3F8)\n".spec_bytes()
        + "Storage Ctrl:    IDE: ".spec_bytes() + decimal(st.ide as nat)
        + ", SATA/AHCI controllers: ".spec_bytes() + decimal(st.sata as nat)
        + ", SATA disks: ".spec_bytes() + decimal(sata_disks)
        + ", SCSI: ".spec_bytes() + decimal(st.scsi as nat)
        + ", NVMe: ".spec_bytes() + decimal(st.nvme as nat)
        + ", Other: ".spec_bytes() + decimal(st.other as nat) + "\n".spec_bytes()
        + "Legacy ATA:      Channels: ".spec_bytes() + decimal(ata.channels as nat)
        + ", ATA drives: ".spec_bytes() + decimal(ata.ata_devices as nat)
        + ", ATAPI drives: ".spec_bytes() + decimal(ata.atapi_devices as nat) + "\n".spec_bytes()
        + if ata.atapi_devices > 0 { "CD-ROM:          ATAPI device detected\n".spec_bytes() } else { Seq::empty() }
}

/// The text of `LSDEV` for the CPU vendor `vendor`, the storage controllers
/// `st`, `sata_disks` SATA disks and the legacy ATA summary `ata`.
pub fn lsdev_text(vendor: &[u8], st: StorageSummary, sata_disks: usize, ata: LegacyAtaSummary) -> (r: Vec<u8>)
    ensures
        r@ == lsdev_spec(vendor@, st, sata_disks as nat, ata),
{
    let mut out: Vec<u8> = Vec::new();
    push_str(&mut out, "Devices\n=======\n\nCPU:             ");
    crate::shell::editor::append_bytes(&mut out, vendor);
    push_str(&mut out, "\n");
    push_str(&mut out, "Interrupt Ctrl:  8259 PIC\nKeyboard:        PS/2 (IRQ1)\nDisplay:         Limine framebuffer\n");
    push_str(&mut out, "Console:         Rootleaf framebuffer console\nSerial:          COM1 (0x3F8)\n");
    push_str(&mut out, "Storage Ctrl:    IDE: ");
    push_decimal(&mut out, st.ide as u64);
    push_str(&mut out, ", SATA/AHCI controllers: ");
    push_decimal(&mut out, st.sata as u64);
    push_str(&mut out, ", SATA disks: ");
    push_decimal(&mut out, sata_disks as u64);
    push_str(&mut out, ", SCSI: ");
    push_decimal(&mut out, st.scsi as u64);
    push_str(&mut out, ", NVMe: ");
    push_decimal(&mut out, st.nvme as u64);
    push_str(&mut out, ", Other: ");
    push_decimal(&mut out, st.other as u64);
    push_str(&mut out, "\n");
    push_str(&mut out, "Legacy ATA:      Channels: ");
    push_decimal(&mut out, ata.channels as u64);
    push_str(&mut out, ", ATA drives: ");
    push_decimal(&mut out, ata.ata_devices as u64);
    push_str(&mut out, ", ATAPI drives: ");
    push_decimal(&mut out, ata.atapi_devices as u64);
    push_str(&mut out, "\n");
    let ghost body = out@;
    if ata.atapi_devices > 0 {
        push_str(&mut out, "CD-ROM:          ATAPI device detected\n");
    } else {
        assert(body + Seq::<u8>::empty() =~= body);
    }
    out
}

/// What `HELP` prints: the commands, the paths and a few examples.
pub open spec fn help_spec() -> Seq<u8> {
    "Available commands:\n  HELP                 Show this help\n  VER, VERSION         Show system version\n  ABOUT                About Rootleaf\n  CLS, CLEAR           Clear screen\n  ECHO <TEXT>          Print text\n".spec_bytes()
        + "  PWD                  Print current working directory\n  CD <PATH>            Change directory\n  CD ..                Go to parent directory\n  LS, DIR              List current directory\n  LS <PATH>            List directory\n  DIR <PATH>           List directory\n".spec_bytes()
        + "  TYPE <FILE>          Show text file\n  CAT <FILE>           Show text file\n  HD <FILE>            Hexdump file\n  HEXDUMP <FILE>       Hexdump file\n  TOUCH <FILE>         Create empty RAMFS file\n  WRITE <FILE> <TEXT>  Write text to RAMFS file\n".spec_bytes()
        + "  RM <FILE>            Delete RAMFS file\n  DEL <FILE>           Delete RAMFS file\n  EDIT <FILE>          Launch editor for RAMFS file\n  RUN <FILE>           Execute shell script\n  ELF <FILE>           Load and run ELF64 binary\n  EXEC <FILE>          Alias for ELF\n".spec_bytes()
        + "  MOUNT <SRC><DST>[FS] Mount image or /dev/sdX device\n  UMOUNT               Unmount /disk1\n  DISKINFO             Show disk information\n  MOUNTS               Show mounted filesystems\n  LSDEV                List detected devices\n  TASKS                Show task count\n".spec_bytes()
        + "  MEM                  Print memory information\n  SYSINFO              Print OS information\n  MMAP                 Show Limine memory map\n  REBOOT               Restart machine\n\nLinux-style paths:\n".spec_bytes()
        + "  /                    Virtual root\n  /ram                 RAMFS\n  /disk1               FAT32 disk\nExamples:\n  LS /\n  LS /disk1\n".spec_bytes()
        + "  TYPE /disk1/README.TXT\n  ELF /disk1/APP.ELF\n".spec_bytes()
}

/// The text of `HELP`.
pub fn help_text() -> (r: Vec<u8>)
    ensures
        r@ == help_spec(),
{
    let mut out: Vec<u8> = Vec::new();
    push_str(&mut out, "Available commands:\n  HELP                 Show this help\n  VER, VERSION         Show system version\n  ABOUT                About Rootleaf\n  CLS, CLEAR           Clear screen\n  ECHO <TEXT>          Print text\n");
    push_str(&mut out, "  PWD                  Print current working directory\n  CD <PATH>            Change directory\n  CD ..                Go to parent directory\n  LS, DIR              List current directory\n  LS <PATH>            List directory\n  DIR <PATH>           List directory\n");
    push_str(&mut out, "  TYPE <FILE>          Show text file\n  CAT <FILE>           Show text file\n  HD <FILE>            Hexdump file\n  HEXDUMP <FILE>       Hexdump file\n  TOUCH <FILE>         Create empty RAMFS file\n  WRITE <FILE> <TEXT>  Write text to RAMFS file\n");
    push_str(&mut out, "  RM <FILE>            Delete RAMFS file\n  DEL <FILE>           Delete RAMFS file\n  EDIT <FILE>          Launch editor for RAMFS file\n  RUN <FILE>           Execute shell script\n  ELF <FILE>           Load and run ELF64 binary\n  EXEC <FILE>          Alias for ELF\n");
    push_str(&mut out, "  MOUNT <SRC><DST>[FS] Mount image or /dev/sdX device\n  UMOUNT               Unmount /disk1\n  DISKINFO             Show disk information\n  MOUNTS               Show mounted filesystems\n  LSDEV                List detected devices\n  TASKS                Show task count\n");
    push_str(&mut out, "  MEM                  Print memory information\n  SYSINFO              Print OS information\n  MMAP                 Show Limine memory map\n  REBOOT               Restart machine\n\nLinux-style paths:\n");
    push_str(&mut out, "  /                    Virtual root\n  /ram                 RAMFS\n  /disk1               FAT32 disk\nExamples:\n  LS /\n  LS /disk1\n");
    push_str(&mut out, "  TYPE /disk1/README.TXT\n  ELF /disk1/APP.ELF\n");
    out
}

/// What `SYSINFO` prints for the CPU vendor `vendor`, `usable_mib` MiB of
/// usable memory, the working directory `cwd` and whether /disk1 is
/// mounted.
pub open spec fn sysinfo_spec(vendor: Seq<u8>, usable_mib: u64, cwd: Seq<u8>, disk1_mounted: bool) -> Seq<u8> {
    "Rootleaf System Information\nKernel:      Rootleaf v".spec_bytes()
        + crate::drivers::graphics::console::KERNEL_VERSION.spec_bytes()
        + "\nBootloader:  Limine\nVideo:       Framebuffer\nKeyboard:    PS/2\nCPU:         ".spec_bytes() + vendor
        + "\nRAM:         ".spec_bytes() + decimal(usable_mib as nat) + " MiB usable\nCWD:         ".spec_bytes()
        + cwd + "\nDisk1:       ".spec_bytes()
        + if disk1_mounted { "mounted at /disk1\n".spec_bytes() } else { "not mounted\n".spec_bytes() }
}

/// The text of `SYSINFO`.
pub fn sysinfo_text(vendor: &[u8], usable_mib: u64, cwd: &[u8], disk1_mounted: bool) -> (r: Vec<u8>)
    ensures
        r@ == sysinfo_spec(vendor@, usable_mib, cwd@, disk1_mounted),
{
    let mut out: Vec<u8> = Vec::new();
    push_str(&mut out, "Rootleaf System Information\nKernel:      Rootleaf v");
    push_str(&mut out, crate::drivers::graphics::console::KERNEL_VERSION);
    push_str(&mut out, "\nBootloader:  Limine\nVideo:       Framebuffer\nKeyboard:    PS/2\nCPU:         ");
    crate::shell::editor::append_bytes(&mut out, vendor);
    push_str(&mut out, "\nRAM:         ");
    push_decimal(&mut out, usable_mib);
    push_str(&mut out, " MiB usable\nCWD:         ");
    crate::shell::editor::append_bytes(&mut out, cwd);
    push_str(&mut out, "\nDisk1:       ");
    if disk1_mounted {
        push_str(&mut out, "mounted at /disk1\n");
    } else {
        push_str(&mut out, "not mounted\n");
    }
    out
}

/// What `DISKINFO` prints for the state of disk 1.
pub open spec fn diskinfo_spec(state: Disk1State) -> Seq<u8> {
    "Disks\n=====\n\nram:    RAMFS mounted at /ram\n".spec_bytes() + match state {
        Disk1State::Mounted => "disk1:  FAT32 mounted at /disk1\n".spec_bytes(),
        Disk1State::Present => "disk1:  present, not mounted\n".spec_bytes(),
        Disk1State::Absent => "disk1:  not present\n".spec_bytes(),
    }
}

/// The text of `DISKINFO` (see `disk1_state`).
pub fn diskinfo_text(state: Disk1State) -> (r: Vec<u8>)
    ensures
        r@ == diskinfo_spec(state),
{
    let mut out: Vec<u8> = Vec::new();
    push_str(&mut out, "Disks\n=====\n\nram:    RAMFS mounted at /ram\n");
    match state {
        Disk1State::Mounted => push_str(&mut out, "disk1:  FAT32 mounted at /disk1\n"),
        Disk1State::Present => push_str(&mut out, "disk1:  present, not mounted\n"),
        Disk1State::Absent => push_str(&mut out, "disk1:  not present\n"),
    }
    out
}

/// What `TASKS` prints for `count` tasks.
pub open spec fn tasks_spec(count: nat) -> Seq<u8> {
    "Task count: ".spec_bytes() + decimal(count) + "\n".spec_bytes()
}

/// The text of `TASKS`.
pub fn tasks_text(count: usize) -> (r: Vec<u8>)
    ensures
        r@ == tasks_spec(count as nat),
{
    let mut out: Vec<u8> = Vec::new();
    push_str(&mut out, "Task count: ");
    push_decimal(&mut out, count as u64);
    push_str(&mut out, "\n");
    out
}

/// One row of `MMAP`: the base in hexadecimal after "0x", the length in
/// KiB and the type's name.
pub open spec fn mmap_row(e: crate::memory::info::MemmapEntry) -> Seq<u8> {
    "  ".spec_bytes() + seq![0x30u8, 0x78u8] + hex(e.base as nat) + "  ".spec_bytes() + decimal((e.length / 1024) as nat)
        + " KiB  ".spec_bytes() + crate::memory::info::memory_type_spec(e.kind).spec_bytes() + "\n".spec_bytes()
}

pub open spec fn mmap_rows(es: Seq<crate::memory::info::MemmapEntry>) -> Seq<u8>
    decreases es.len(),
{
    if es.len() == 0 {
        Seq::empty()
    } else {
        mmap_rows(es.drop_last()) + mmap_row(es.last())
    }
}

/// What `MMAP` prints for the memory map `es`.
pub open spec fn mmap_spec(es: Seq<crate::memory::info::MemmapEntry>) -> Seq<u8> {
    "Memory map:\n  Base       Length     Type\n".spec_bytes() + mmap_rows(es)
}

/// The text of `MMAP`.
pub fn mmap_text(entries: &[crate::memory::info::MemmapEntry]) -> (r: Vec<u8>)
    ensures
        r@ == mmap_spec(entries@),
{
    let mut out: Vec<u8> = Vec::new();
    push_str(&mut out, "Memory map:\n  Base       Length     Type\n");
    let ghost head = out@;
    let mut i: usize = 0;
    assert(entries@.take(0) =~= Seq::<crate::memory::info::MemmapEntry>::empty());
    assert(head + Seq::<u8>::empty() =~= head);
    while i < entries.len()
        invariant
            i <= entries@.len(),
            head == "Memory map:\n  Base       Length     Type\n".spec_bytes(),
            out@ == head + mmap_rows(entries@.take(i as int)),
        decreases entries@.len() - i,
    {
        let e = entries[i];
        let ghost before = out@;
        push_str(&mut out, "  ");
        let mut buf: Vec<u8> = vec![0u8; 20];
        proof {
            crate::convert::lemma_hex_len(e.base as nat);
        }
        let n = crate::convert::u64_to_hex(e.base, buf.as_mut_slice());
        assert(hex(e.base as nat).subrange(0, hex(e.base as nat).len() as int) =~= hex(e.base as nat));
        crate::shell::editor::append_bytes(&mut out, &buf.as_slice()[0..n]);
        push_str(&mut out, "  ");
        push_decimal(&mut out, e.length / 1024);
        push_str(&mut out, " KiB  ");
        push_str(&mut out, crate::memory::info::memory_type_name(e.kind));
        push_str(&mut out, "\n");
        proof {
            assert(entries@.take(i + 1).drop_last() =~= entries@.take(i as int));
            assert(entries@.take(i + 1).last() == e);
            assert(out@ =~= before + mmap_row(e));
            assert(head + mmap_rows(entries@.take(i as int)) + mmap_row(e) =~= head + mmap_rows(entries@.take(i + 1)));
        }
        i += 1;
    }
    assert(entries@.take(entries@.len() as int) =~= entries@);
    out
}

} // verus!
