//! Shell path helpers: ASCII trimming, case-insensitive comparison and the
//! construction of absolute, slash-normalised paths.

use vstd::prelude::*;
use vstd::utf8::valid_utf8;
use crate::text::str_from_utf8_is_ok;

verus! {

/// Size of the shell's path buffer; longer paths are refused.
pub const PATH_BUFFER_LEN: usize = 128;

pub open spec fn is_ascii_ws(b: u8) -> bool {
    b == 0x20u8 || b == 0x09u8 || b == 0x0au8 || b == 0x0cu8 || b == 0x0du8
}

/// `u8::is_ascii_whitespace`: space, tab, line feed, form feed, carriage return.
pub fn is_ascii_space(b: u8) -> (r: bool)
    ensures
        r == is_ascii_ws(b),
{
    b == 0x20 || b == 0x09 || b == 0x0a || b == 0x0c || b == 0x0d
}

pub open spec fn trim_start_spec(s: Seq<u8>) -> Seq<u8>
    decreases s.len(),
{
    if s.len() > 0 && is_ascii_ws(s[0]) {
        trim_start_spec(s.subrange(1, s.len() as int))
    } else {
        s
    }
}

pub open spec fn trim_end_spec(s: Seq<u8>) -> Seq<u8>
    decreases s.len(),
{
    if s.len() > 0 && is_ascii_ws(s[s.len() - 1]) {
        trim_end_spec(s.subrange(0, s.len() - 1))
    } else {
        s
    }
}

/// `s` without its leading and trailing ASCII whitespace.
pub open spec fn trim_spec(s: Seq<u8>) -> Seq<u8> {
    trim_end_spec(trim_start_spec(s))
}

proof fn lemma_trim_start_shape(s: Seq<u8>)
    ensures
        trim_start_spec(s).len() == 0 || !is_ascii_ws(trim_start_spec(s)[0]),
    decreases s.len(),
{
    if s.len() > 0 && is_ascii_ws(s[0]) {
        lemma_trim_start_shape(s.subrange(1, s.len() as int));
    }
}

proof fn lemma_trim_end_shape(s: Seq<u8>)
    ensures
        trim_end_spec(s).len() <= s.len(),
        trim_end_spec(s) == s.subrange(0, trim_end_spec(s).len() as int),
        trim_end_spec(s).len() == 0 || !is_ascii_ws(trim_end_spec(s).last()),
    decreases s.len(),
{
    if s.len() > 0 && is_ascii_ws(s[s.len() - 1]) {
        let t = s.subrange(0, s.len() - 1);
        lemma_trim_end_shape(t);
        assert(t.subrange(0, trim_end_spec(t).len() as int) =~= s.subrange(0, trim_end_spec(t).len() as int));
    } else {
        assert(s.subrange(0, s.len() as int) =~= s);
    }
}

/// Trimming twice gives what trimming once gave.
pub proof fn lemma_trim_idempotent(s: Seq<u8>)
    ensures
        trim_spec(trim_spec(s)) == trim_spec(s),
{
    let x = trim_start_spec(s);
    let t = trim_end_spec(x);
    lemma_trim_start_shape(s);
    lemma_trim_end_shape(x);
    if t.len() > 0 {
        assert(t[0] == x[0]);
    }
    assert(trim_start_spec(t) == t);
    assert(trim_end_spec(t) == t);
}

/// Removes leading and trailing ASCII whitespace.
pub fn trim_ascii(input: &[u8]) -> (r: &[u8])
    ensures
        r@ == trim_spec(input@),
{
    let len = input.len();
    let mut lo: usize = 0;
    assert(input@.subrange(0, len as int) =~= input@);
    while lo < len && is_ascii_space(input[lo])
        invariant
            lo <= len,
            len == input@.len(),
            trim_start_spec(input@) == trim_start_spec(input@.subrange(lo as int, len as int)),
        decreases len - lo,
    {
        assert(input@.subrange(lo as int, len as int).subrange(1, len - lo) =~= input@.subrange(
            lo + 1,
            len as int,
        ));
        lo += 1;
    }
    let mut hi: usize = len;
    while hi > lo && is_ascii_space(input[hi - 1])
        invariant
            lo <= hi <= len,
            len == input@.len(),
            trim_start_spec(input@) == input@.subrange(lo as int, len as int),
            trim_spec(input@) == trim_end_spec(input@.subrange(lo as int, hi as int)),
        decreases hi,
    {
        assert(input@.subrange(lo as int, hi as int).subrange(0, hi - lo - 1) =~= input@.subrange(
            lo as int,
            hi - 1,
        ));
        hi -= 1;
    }
    &input[lo..hi]
}

/// Zeroes the whole line buffer.
pub fn clear_line_buffer(line: &mut [u8; 128])
    ensures
        forall|i: int| 0 <= i < 128 ==> final(line)@[i] == 0u8,
{
    let mut i: usize = 0;
    while i < 128
        invariant
            0 <= i <= 128,
            forall|j: int| 0 <= j < i ==> line@[j] == 0u8,
        decreases 128 - i,
    {
        line[i] = 0;
        i += 1;
    }
}

pub open spec fn upper_spec(b: u8) -> u8 {
    if 0x61u8 <= b && b <= 0x7au8 {
        (b - 32) as u8
    } else {
        b
    }
}

/// ASCII upper-casing of one byte; other bytes are unchanged.
pub fn to_ascii_upper(byte: u8) -> (r: u8)
    ensures
        r == upper_spec(byte),
{
    if byte >= 0x61 && byte <= 0x7a {
        byte - 32
    } else {
        byte
    }
}

/// Same length and the same bytes once both are upper-cased.
pub open spec fn eq_ignore_case_spec(a: Seq<u8>, b: Seq<u8>) -> bool {
    a.len() == b.len() && forall|i: int| 0 <= i < a.len() ==> upper_spec(#[trigger] a[i]) == upper_spec(
        b[i],
    )
}

pub fn eq_ignore_ascii_case(a: &[u8], b: &[u8]) -> (r: bool)
    ensures
        r == eq_ignore_case_spec(a@, b@),
{
    if a.len() != b.len() {
        return false;
    }
    let mut i: usize = 0;
    while i < a.len()
        invariant
            i <= a@.len(),
            a@.len() == b@.len(),
            forall|j: int| 0 <= j < i ==> upper_spec(#[trigger] a@[j]) == upper_spec(b@[j]),
        decreases a@.len() - i,
    {
        if to_ascii_upper(a[i]) != to_ascii_upper(b[i]) {
            return false;
        }
        i += 1;
    }
    true
}

pub open spec fn starts_with_ignore_case_spec(a: Seq<u8>, prefix: Seq<u8>) -> bool {
    a.len() >= prefix.len() && eq_ignore_case_spec(a.subrange(0, prefix.len() as int), prefix)
}

pub fn starts_with_ignore_ascii_case(a: &[u8], prefix: &[u8]) -> (r: bool)
    ensures
        r == starts_with_ignore_case_spec(a@, prefix@),
{
    if a.len() < prefix.len() {
        return false;
    }
    eq_ignore_ascii_case(&a[0..prefix.len()], prefix)
}

// ---------------------------------------------------------------------------
// Absolute paths
// ---------------------------------------------------------------------------
pub open spec fn unify_sep(b: u8) -> u8 {
    if b == 0x5cu8 {
        0x2fu8
    } else {
        b
    }
}

/// Every backslash turned into a slash.
pub open spec fn unify_seps(s: Seq<u8>) -> Seq<u8> {
    Seq::new(s.len(), |i: int| unify_sep(s[i]))
}

/// Runs of slashes collapsed into one; `after_slash` says whether the byte
/// before `s` was a slash.
pub open spec fn collapse_slashes(s: Seq<u8>, after_slash: bool) -> Seq<u8>
    decreases s.len(),
{
    if s.len() == 0 {
        Seq::empty()
    } else if s[0] == 0x2fu8 {
        if after_slash {
            collapse_slashes(s.subrange(1, s.len() as int), true)
        } else {
            seq![0x2fu8] + collapse_slashes(s.subrange(1, s.len() as int), true)
        }
    } else {
        seq![s[0]] + collapse_slashes(s.subrange(1, s.len() as int), false)
    }
}

pub open spec fn normalize_slashes_spec(s: Seq<u8>) -> Seq<u8> {
    collapse_slashes(unify_seps(s), false)
}

/// Trailing slashes removed, but a lone "/" is kept.
pub open spec fn strip_trailing_slashes(s: Seq<u8>) -> Seq<u8>
    decreases s.len(),
{
    if s.len() > 1 && s[s.len() - 1] == 0x2fu8 {
        strip_trailing_slashes(s.subrange(0, s.len() - 1))
    } else {
        s
    }
}

pub open spec fn finish_path(s: Seq<u8>) -> Seq<u8> {
    strip_trailing_slashes(normalize_slashes_spec(s))
}

/// A relative path is appended to the working directory, with one slash
/// between them; an absolute one stands alone.
pub open spec fn join_spec(input: Seq<u8>, cwd: Seq<u8>) -> Seq<u8> {
    if input.len() > 0 && input[0] == 0x2fu8 {
        input
    } else if cwd.len() == 0 || cwd[cwd.len() - 1] != 0x2fu8 {
        cwd + seq![0x2fu8] + input
    } else {
        cwd + input
    }
}

/// "0:..." and "1:..." style paths.
pub open spec fn is_legacy_spec(s: Seq<u8>) -> bool {
    s.len() >= 2 && s[1] == 0x3au8
}

pub open spec fn ram_root() -> Seq<u8> {
    seq![0x2fu8, 0x72u8, 0x61u8, 0x6du8]
}

pub open spec fn disk1_root() -> Seq<u8> {
    seq![0x2fu8, 0x64u8, 0x69u8, 0x73u8, 0x6bu8, 0x31u8]
}

/// The mount point that a legacy drive digit names ("0" is the RAM disk,
/// "1" the first disk).
pub open spec fn legacy_root(d: u8) -> Option<Seq<u8>> {
    if d == 0x30u8 {
        Some(ram_root())
    } else if d == 0x31u8 {
        Some(disk1_root())
    } else {
        None
    }
}

pub open spec fn strip_leading_seps(s: Seq<u8>) -> Seq<u8>
    decreases s.len(),
{
    if s.len() > 0 && (s[0] == 0x5cu8 || s[0] == 0x2fu8) {
        strip_leading_seps(s.subrange(1, s.len() as int))
    } else {
        s
    }
}

pub open spec fn legacy_joined(root: Seq<u8>, s: Seq<u8>) -> Seq<u8> {
    let rest = strip_leading_seps(s.subrange(2, s.len() as int));
    if rest.len() > 0 {
        root + seq![0x2fu8] + rest
    } else {
        root
    }
}

/// No backslash in `s`.
pub open spec fn no_backslash(s: Seq<u8>) -> bool {
    forall|i: int| 0 <= i < s.len() ==> s[i] != 0x5cu8
}

/// No two slashes in a row in `s`.
pub open spec fn no_double_slash(s: Seq<u8>) -> bool {
    forall|i: int| 0 <= i < s.len() - 1 ==> !(#[trigger] s[i] == 0x2fu8 && s[i + 1] == 0x2fu8)
}

/// Whether `s` is what normalisation produces: no backslashes, no runs of
/// slashes, and no trailing slash unless it is the only byte.
pub open spec fn is_normal(s: Seq<u8>) -> bool {
    &&& no_backslash(s)
    &&& no_double_slash(s)
    &&& (s.len() > 1 ==> s.last() != 0x2fu8)
}

proof fn lemma_collapse_shape(x: Seq<u8>, after: bool)
    requires
        no_backslash(x),
    ensures
        no_backslash(collapse_slashes(x, after)),
        no_double_slash(collapse_slashes(x, after)),
        after ==> (collapse_slashes(x, after).len() == 0 || collapse_slashes(x, after)[0] != 0x2fu8),
    decreases x.len(),
{
    if x.len() > 0 {
        let rest = x.subrange(1, x.len() as int);
        lemma_collapse_shape(rest, x[0] == 0x2fu8);
        let c = collapse_slashes(rest, x[0] == 0x2fu8);
        let r = collapse_slashes(x, after);
        if x[0] == 0x2fu8 {
            if !after {
                assert(r == seq![0x2fu8] + c);
                assert forall|i: int| 0 <= i < r.len() - 1 implies !(#[trigger] r[i] == 0x2fu8 && r[i + 1]
                    == 0x2fu8) by {
                    if i > 0 {
                        assert(r[i] == c[i - 1] && r[i + 1] == c[i]);
                    }
                }
            }
        } else {
            assert(r == seq![x[0]] + c);
            assert forall|i: int| 0 <= i < r.len() - 1 implies !(#[trigger] r[i] == 0x2fu8 && r[i + 1]
                == 0x2fu8) by {
                if i > 0 {
                    assert(r[i] == c[i - 1] && r[i + 1] == c[i]);
                }
            }
        }
    }
}

proof fn lemma_collapse_fixed(x: Seq<u8>, after: bool)
    requires
        no_double_slash(x),
        after ==> (x.len() == 0 || x[0] != 0x2fu8),
    ensures
        collapse_slashes(x, after) == x,
    decreases x.len(),
{
    if x.len() > 0 {
        let rest = x.subrange(1, x.len() as int);
        assert forall|i: int| 0 <= i < rest.len() - 1 implies !(#[trigger] rest[i] == 0x2fu8 && rest[i + 1]
            == 0x2fu8) by {
            assert(rest[i] == x[i + 1] && rest[i + 1] == x[i + 2]);
            assert(!(x[i + 1] == 0x2fu8 && x[i + 2] == 0x2fu8));
        }
        if x[0] == 0x2fu8 && rest.len() > 0 {
            assert(!(x[0] == 0x2fu8 && x[1] == 0x2fu8));
        }
        lemma_collapse_fixed(rest, x[0] == 0x2fu8);
        assert(seq![x[0]] + rest =~= x);
    }
}

proof fn lemma_strip_shape(x: Seq<u8>)
    requires
        no_backslash(x),
        no_double_slash(x),
    ensures
        is_normal(strip_trailing_slashes(x)),
    decreases x.len(),
{
    if x.len() > 1 && x[x.len() - 1] == 0x2fu8 {
        let y = x.subrange(0, x.len() - 1);
        assert forall|i: int| 0 <= i < y.len() - 1 implies !(#[trigger] y[i] == 0x2fu8 && y[i + 1] == 0x2fu8) by {
            assert(y[i] == x[i] && y[i + 1] == x[i + 1]);
        }
        lemma_strip_shape(y);
    }
}

proof fn lemma_unify_fixed(x: Seq<u8>)
    requires
        no_backslash(x),
    ensures
        unify_seps(x) == x,
{
    assert(unify_seps(x) =~= x);
}

/// What normalisation makes of a path is normal, and normalising it again
/// changes nothing.
pub proof fn lemma_finish_idempotent(s: Seq<u8>)
    ensures
        is_normal(finish_path(s)),
        finish_path(finish_path(s)) == finish_path(s),
{
    let u = unify_seps(s);
    assert(no_backslash(u));
    lemma_collapse_shape(u, false);
    let n = collapse_slashes(u, false);
    lemma_strip_shape(n);
    let f = finish_path(s);
    lemma_unify_fixed(f);
    lemma_collapse_fixed(f, false);
    assert(strip_trailing_slashes(f) == f);
}

/// The buffer holds at most `PATH_BUFFER_LEN` bytes before normalisation;
/// the result must be UTF-8.
pub open spec fn bounded_finish(joined: Seq<u8>) -> Option<Seq<u8>> {
    if joined.len() > PATH_BUFFER_LEN {
        None
    } else if valid_utf8(finish_path(joined)) {
        Some(finish_path(joined))
    } else {
        None
    }
}

pub open spec fn legacy_path_spec(s: Seq<u8>) -> Option<Seq<u8>> {
    match legacy_root(s[0]) {
        None => None,
        Some(root) => bounded_finish(legacy_joined(root, s)),
    }
}

/// What `make_absolute_path` makes of `input` in the working directory `cwd`.
pub open spec fn absolute_path_spec(input: Seq<u8>, cwd: Seq<u8>) -> Option<Seq<u8>> {
    let t = trim_spec(input);
    if t.len() == 0 || !valid_utf8(t) {
        None
    } else if is_legacy_spec(t) {
        legacy_path_spec(t)
    } else {
        bounded_finish(join_spec(t, cwd))
    }
}

proof fn lemma_collapse_len(x: Seq<u8>, after: bool)
    ensures
        collapse_slashes(x, after).len() <= x.len(),
    decreases x.len(),
{
    if x.len() > 0 {
        lemma_collapse_len(x.subrange(1, x.len() as int), x[0] == 0x2fu8);
    }
}

proof fn lemma_strip_len(x: Seq<u8>)
    ensures
        strip_trailing_slashes(x).len() <= x.len(),
    decreases x.len(),
{
    if x.len() > 1 && x[x.len() - 1] == 0x2fu8 {
        lemma_strip_len(x.subrange(0, x.len() - 1));
    }
}

/// An absolute path that `make_absolute_path` built comes back unchanged
/// when it is given again, from any working directory, unless it looks
/// like a drive path ("x:...") or ends in whitespace.
pub proof fn lemma_absolute_path_stable(input: Seq<u8>, cwd: Seq<u8>, other_cwd: Seq<u8>)
    requires
        absolute_path_spec(input, cwd) is Some,
        ({
            let p = absolute_path_spec(input, cwd).unwrap();
            &&& p.len() > 0
            &&& p[0] == 0x2fu8
            &&& !(p.len() >= 2 && p[1] == 0x3au8)
            &&& !is_ascii_ws(p.last())
        }),
    ensures
        absolute_path_spec(absolute_path_spec(input, cwd).unwrap(), other_cwd) == absolute_path_spec(input, cwd),
{
    let p = absolute_path_spec(input, cwd).unwrap();
    let t = trim_spec(input);
    let joined = if is_legacy_spec(t) {
        legacy_joined(legacy_root(t[0]).unwrap(), t)
    } else {
        join_spec(t, cwd)
    };
    assert(p == finish_path(joined) && joined.len() <= PATH_BUFFER_LEN);
    lemma_finish_idempotent(joined);
    let u = unify_seps(joined);
    lemma_collapse_len(u, false);
    lemma_strip_len(collapse_slashes(u, false));
    assert(trim_start_spec(p) == p);
    assert(trim_end_spec(p) == p);
    assert(trim_spec(p) == p);
    assert(join_spec(p, other_cwd) == p);
}

proof fn lemma_strip_first(x: Seq<u8>)
    requires
        x.len() >= 1,
    ensures
        strip_trailing_slashes(x).len() >= 1,
        strip_trailing_slashes(x)[0] == x[0],
    decreases x.len(),
{
    if x.len() > 1 && x[x.len() - 1] == 0x2fu8 {
        lemma_strip_first(x.subrange(0, x.len() - 1));
    }
}

/// Normalising a path that starts with a slash keeps the slash first.
proof fn lemma_finish_rooted(s: Seq<u8>)
    requires
        s.len() > 0,
        s[0] == 0x2fu8,
    ensures
        finish_path(s).len() > 0,
        finish_path(s)[0] == 0x2fu8,
{
    let u = unify_seps(s);
    assert(u[0] == 0x2fu8);
    let c = collapse_slashes(u, false);
    assert(c == seq![0x2fu8] + collapse_slashes(u.subrange(1, u.len() as int), true));
    lemma_strip_first(c);
}

/// What `make_absolute_path` builds, from a working directory that is empty
/// or starts with a slash, is an absolute path in normal form: it starts
/// with a slash, holds no backslash and no two slashes in a row, and ends
/// in a slash only when it is "/".
pub proof fn lemma_absolute_path_shape(input: Seq<u8>, cwd: Seq<u8>)
    requires
        cwd.len() == 0 || cwd[0] == 0x2fu8,
        absolute_path_spec(input, cwd) is Some,
    ensures
        ({
            let p = absolute_path_spec(input, cwd).unwrap();
            &&& p.len() > 0
            &&& p[0] == 0x2fu8
            &&& is_normal(p)
        }),
{
    let t = trim_spec(input);
    let joined = if is_legacy_spec(t) {
        legacy_joined(legacy_root(t[0]).unwrap(), t)
    } else {
        join_spec(t, cwd)
    };
    assert(absolute_path_spec(input, cwd) == Some(finish_path(joined)));
    if is_legacy_spec(t) {
        let root = legacy_root(t[0]).unwrap();
        assert(root[0] == 0x2fu8);
        let rest = strip_leading_seps(t.subrange(2, t.len() as int));
        if rest.len() > 0 {
            assert((root + seq![0x2fu8] + rest)[0] == root[0]);
        }
    } else if t[0] != 0x2fu8 {
        if cwd.len() == 0 || cwd[cwd.len() - 1] != 0x2fu8 {
            assert((cwd + seq![0x2fu8] + t)[0] == 0x2fu8);
        } else {
            assert((cwd + t)[0] == cwd[0]);
        }
    }
    lemma_finish_rooted(joined);
    lemma_finish_idempotent(joined);
}

pub open spec fn opt_view(r: Option<Vec<u8>>) -> Option<Seq<u8>> {
    match r {
        Some(v) => Some(v@),
        None => None,
    }
}

/// The buffer's first `len` bytes.
pub open spec fn filled(buffer: Seq<u8>, len: usize) -> Seq<u8> {
    buffer.subrange(0, len as int)
}

fn push_byte(buffer: &mut Vec<u8>, len: &mut usize, byte: u8) -> (r: Option<()>)
    requires
        old(buffer)@.len() == PATH_BUFFER_LEN,
        *old(len) <= PATH_BUFFER_LEN,
    ensures
        final(buffer)@.len() == PATH_BUFFER_LEN,
        *final(len) <= PATH_BUFFER_LEN,
        r is Some <==> *old(len) < PATH_BUFFER_LEN,
        r is Some ==> filled(final(buffer)@, *final(len)) == filled(old(buffer)@, *old(len)).push(
            byte,
        ),
{
    if *len >= buffer.len() {
        return None;
    }
    let ghost before = buffer@;
    buffer[*len] = byte;
    *len = *len + 1;
    assert(filled(buffer@, *len) =~= filled(before, (*len - 1) as usize).push(byte));
    Some(())
}

fn copy_bytes(bytes: &[u8], buffer: &mut Vec<u8>, len: &mut usize) -> (r: Option<()>)
    requires
        old(buffer)@.len() == PATH_BUFFER_LEN,
        *old(len) <= PATH_BUFFER_LEN,
    ensures
        final(buffer)@.len() == PATH_BUFFER_LEN,
        *final(len) <= PATH_BUFFER_LEN,
        r is Some <==> *old(len) + bytes@.len() <= PATH_BUFFER_LEN,
        r is Some ==> filled(final(buffer)@, *final(len)) == filled(old(buffer)@, *old(len)) + bytes@,
{
    let ghost start = filled(buffer@, *len);
    let ghost start_len = *len;
    let mut i: usize = 0;
    assert(start + bytes@.subrange(0, 0) =~= start);
    while i < bytes.len()
        invariant
            buffer@.len() == PATH_BUFFER_LEN,
            i <= bytes@.len(),
            *len == start_len + i,
            start_len == *old(len),
            *len <= PATH_BUFFER_LEN,
            filled(buffer@, *len) == start + bytes@.subrange(0, i as int),
        decreases bytes@.len() - i,
    {
        if push_byte(buffer, len, bytes[i]).is_none() {
            return None;
        }
        assert(start + bytes@.subrange(0, i + 1) =~= (start + bytes@.subrange(0, i as int)).push(
            bytes@[i as int],
        ));
        i += 1;
    }
    assert(bytes@.subrange(0, i as int) =~= bytes@);
    Some(())
}

proof fn lemma_collapse_step(u: Seq<u8>, read: int, last: bool)
    requires
        0 <= read < u.len(),
    ensures
        collapse_slashes(u.subrange(read, u.len() as int), last) == (if u[read] == 0x2fu8 {
            if last {
                collapse_slashes(u.subrange(read + 1, u.len() as int), true)
            } else {
                seq![0x2fu8] + collapse_slashes(u.subrange(read + 1, u.len() as int), true)
            }
        } else {
            seq![u[read]] + collapse_slashes(u.subrange(read + 1, u.len() as int), false)
        }),
{
    let s = u.subrange(read, u.len() as int);
    assert(s.subrange(1, s.len() as int) =~= u.subrange(read + 1, u.len() as int));
}

/// Turns backslashes into slashes and collapses runs of slashes, within the
/// first `len` bytes of the buffer.
fn normalize_slashes_in_place(buffer: &mut Vec<u8>, len: &mut usize)
    requires
        *old(len) <= old(buffer)@.len(),
    ensures
        final(buffer)@.len() == old(buffer)@.len(),
        *final(len) <= *old(len),
        filled(final(buffer)@, *final(len)) == normalize_slashes_spec(filled(old(buffer)@, *old(len))),
{
    let n = *len;
    let ghost orig = filled(buffer@, n);
    let mut i: usize = 0;
    while i < n
        invariant
            n <= buffer@.len(),
            buffer@.len() == old(buffer)@.len(),
            n == *old(len),
            orig == filled(old(buffer)@, n),
            i <= n,
            forall|k: int| 0 <= k < i ==> buffer@[k] == unify_sep(orig[k]),
            forall|k: int| i <= k < n ==> buffer@[k] == orig[k],
        decreases n - i,
    {
        if buffer[i] == 0x5c {
            buffer[i] = 0x2f;
        }
        i += 1;
    }
    let ghost u = unify_seps(orig);
    assert(filled(buffer@, n) =~= u);
    let mut read: usize = 0;
    let mut write: usize = 0;
    let mut last_was_slash = false;
    assert(u.subrange(0, n as int) =~= u);
    assert(filled(buffer@, 0) =~= Seq::<u8>::empty());
    while read < n
        invariant
            n <= buffer@.len(),
            buffer@.len() == old(buffer)@.len(),
            u.len() == n,
            write <= read <= n,
            forall|k: int| read <= k < n ==> buffer@[k] == u[k],
            filled(buffer@, write) + collapse_slashes(u.subrange(read as int, n as int), last_was_slash)
                == collapse_slashes(u, false),
        decreases n - read,
    {
        let b = buffer[read];
        proof {
            lemma_collapse_step(u, read as int, last_was_slash);
        }
        let ghost before = buffer@;
        if b == 0x2f {
            if !last_was_slash {
                buffer[write] = b;
                write += 1;
                assert(filled(buffer@, write) =~= filled(before, (write - 1) as usize).push(b));
            }
            last_was_slash = true;
        } else {
            buffer[write] = b;
            write += 1;
            assert(filled(buffer@, write) =~= filled(before, (write - 1) as usize).push(b));
            last_was_slash = false;
        }
        read += 1;
    }
    assert(u.subrange(n as int, n as int) =~= Seq::<u8>::empty());
    assert(filled(buffer@, write) + Seq::<u8>::empty() =~= filled(buffer@, write));
    *len = write;
}

/// Drops trailing slashes from the first `len` bytes, keeping a lone "/".
fn strip_trailing_in_place(buffer: &Vec<u8>, len: &mut usize)
    requires
        *old(len) <= buffer@.len(),
    ensures
        *final(len) <= *old(len),
        filled(buffer@, *final(len)) == strip_trailing_slashes(filled(buffer@, *old(len))),
{
    while *len > 1 && buffer[*len - 1] == 0x2f
        invariant
            *len <= buffer@.len(),
            *len <= *old(len),
            strip_trailing_slashes(filled(buffer@, *old(len))) == strip_trailing_slashes(
                filled(buffer@, *len),
            ),
        decreases *len,
    {
        assert(filled(buffer@, *len).subrange(0, *len - 1) =~= filled(buffer@, (*len - 1) as usize));
        *len = *len - 1;
    }
}

/// Normalises the first `len` bytes, then returns them if they are UTF-8.
fn finish_buffer(buffer: &mut Vec<u8>, len: usize) -> (r: Option<Vec<u8>>)
    requires
        len <= old(buffer)@.len(),
    ensures
        opt_view(r) == (if valid_utf8(finish_path(filled(old(buffer)@, len))) {
            Some(finish_path(filled(old(buffer)@, len)))
        } else {
            None
        }),
{
    let mut n = len;
    normalize_slashes_in_place(buffer, &mut n);
    strip_trailing_in_place(buffer, &mut n);
    let out = slice_to_vec(&buffer.as_slice()[0..n]);
    if str_from_utf8_is_ok(out.as_slice()) {
        Some(out)
    } else {
        None
    }
}

fn slice_to_vec(s: &[u8]) -> (r: Vec<u8>)
    ensures
        r@ == s@,
{
    let mut v: Vec<u8> = Vec::new();
    let mut i: usize = 0;
    while i < s.len()
        invariant
            i <= s@.len(),
            v@ == s@.subrange(0, i as int),
        decreases s@.len() - i,
    {
        v.push(s[i]);
        i += 1;
        assert(v@ =~= s@.subrange(0, i as int));
    }
    v
}

fn is_legacy_disk_path(path: &[u8]) -> (r: bool)
    ensures
        r == is_legacy_spec(path@),
{
    path.len() >= 2 && path[1] == 0x3a
}

fn legacy_to_linux_path(path: &[u8]) -> (r: Option<Vec<u8>>)
    requires
        is_legacy_spec(path@),
    ensures
        opt_view(r) == legacy_path_spec(path@),
{
    let mut buffer: Vec<u8> = vec![0u8; 128];
    let mut len: usize = 0;
    assert(filled(buffer@, 0) =~= Seq::<u8>::empty());
    let root: &str;
    if path[0] == 0x30 {
        root = "/ram";
        proof {
            reveal_strlit("/ram");
            vstd::string::is_ascii_spec_bytes(root);
        }
    } else if path[0] == 0x31 {
        root = "/disk1";
        proof {
            reveal_strlit("/disk1");
            vstd::string::is_ascii_spec_bytes(root);
        }
    } else {
        return None;
    }
    let root_bytes = root.as_bytes();
    assert(legacy_root(path@[0]) == Some(root_bytes@));
    if copy_bytes(root_bytes, &mut buffer, &mut len).is_none() {
        return None;
    }
    assert(filled(buffer@, len) =~= root_bytes@);
    let mut start: usize = 2;
    let n = path.len();
    assert(path@.subrange(2, n as int).subrange(0, 0) =~= Seq::<u8>::empty());
    while start < n && (path[start] == 0x5c || path[start] == 0x2f)
        invariant
            2 <= start <= n,
            n == path@.len(),
            strip_leading_seps(path@.subrange(2, n as int)) == strip_leading_seps(
                path@.subrange(start as int, n as int),
            ),
        decreases n - start,
    {
        assert(path@.subrange(start as int, n as int).subrange(1, n - start) =~= path@.subrange(
            start + 1,
            n as int,
        ));
        start += 1;
    }
    let rest = &path[start..n];
    assert(rest@ == strip_leading_seps(path@.subrange(2, n as int)));
    if rest.len() > 0 {
        if push_byte(&mut buffer, &mut len, 0x2f).is_none() {
            return None;
        }
        if copy_bytes(rest, &mut buffer, &mut len).is_none() {
            return None;
        }
        assert(filled(buffer@, len) =~= root_bytes@ + seq![0x2fu8] + rest@);
    }
    finish_buffer(&mut buffer, len)
}

/// Builds an absolute path from what the user typed and the working
/// directory: trims it, maps "0:" and "1:" drive paths to "/ram" and
/// "/disk1", appends relative paths to `cwd`, then collapses separators and
/// drops trailing slashes. `None` for empty or non-UTF-8 input, an unknown
/// drive, or a path longer than the 128-byte buffer.
pub fn make_absolute_path(input: &[u8], cwd: &[u8]) -> (r: Option<Vec<u8>>)
    ensures
        opt_view(r) == absolute_path_spec(input@, cwd@),
{
    let input = trim_ascii(input);
    if input.len() == 0 {
        return None;
    }
    if !str_from_utf8_is_ok(input) {
        return None;
    }
    if is_legacy_disk_path(input) {
        return legacy_to_linux_path(input);
    }
    let mut buffer: Vec<u8> = vec![0u8; 128];
    let mut len: usize = 0;
    assert(filled(buffer@, 0) =~= Seq::<u8>::empty());
    if input[0] == 0x2f {
        if copy_bytes(input, &mut buffer, &mut len).is_none() {
            return None;
        }
        assert(filled(buffer@, len) =~= input@);
    } else {
        if copy_bytes(cwd, &mut buffer, &mut len).is_none() {
            assert(join_spec(input@, cwd@).len() > PATH_BUFFER_LEN);
            return None;
        }
        assert(filled(buffer@, len) =~= cwd@);
        if len == 0 || buffer[len - 1] != 0x2f {
            if push_byte(&mut buffer, &mut len, 0x2f).is_none() {
                return None;
            }
            if copy_bytes(input, &mut buffer, &mut len).is_none() {
                return None;
            }
            assert(filled(buffer@, len) =~= cwd@ + seq![0x2fu8] + input@);
        } else {
            if copy_bytes(input, &mut buffer, &mut len).is_none() {
                return None;
            }
            assert(filled(buffer@, len) =~= cwd@ + input@);
        }
    }
    finish_buffer(&mut buffer, len)
}

} // verus!
