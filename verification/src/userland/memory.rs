//! The C library's byte routines, over slices: copy, fill, move within one
//! buffer, and compare.

use vstd::prelude::*;

verus! {

/// Copies the first `n` bytes of `src` to the front of `dest`; the rest of
/// `dest` stays as it was.
pub fn memcpy(dest: &mut [u8], src: &[u8], n: usize)
    requires
        n <= old(dest)@.len(),
        n <= src@.len(),
    ensures
        final(dest)@.len() == old(dest)@.len(),
        final(dest)@ == src@.subrange(0, n as int) + old(dest)@.subrange(n as int, old(dest)@.len() as int),
{
    let mut i: usize = 0;
    while i < n
        invariant
            i <= n,
            n <= dest@.len(),
            n <= src@.len(),
            dest@.len() == old(dest)@.len(),
            forall|k: int| 0 <= k < i ==> dest@[k] == src@[k],
            forall|k: int| i <= k < dest@.len() ==> dest@[k] == old(dest)@[k],
        decreases n - i,
    {
        dest[i] = src[i];
        i += 1;
    }
    assert(dest@ =~= src@.subrange(0, n as int) + old(dest)@.subrange(n as int, old(dest)@.len() as int));
}

/// The byte that `memset` stores: the low eight bits of `value`.
pub open spec fn fill_byte(value: i32) -> u8 {
    (value as int % 256) as u8
}

/// Sets the first `n` bytes of `dest` to the low byte of `value`.
pub fn memset(dest: &mut [u8], value: i32, n: usize)
    requires
        n <= old(dest)@.len(),
    ensures
        final(dest)@.len() == old(dest)@.len(),
        forall|k: int| 0 <= k < n ==> final(dest)@[k] == fill_byte(value),
        forall|k: int| n <= k < old(dest)@.len() ==> final(dest)@[k] == old(dest)@[k],
{
    let byte: u8 = (value & 0xff) as u8;
    assert((value & 0xff) as u8 == fill_byte(value)) by (bit_vector);
    let mut i: usize = 0;
    while i < n
        invariant
            i <= n,
            n <= dest@.len(),
            dest@.len() == old(dest)@.len(),
            byte == fill_byte(value),
            forall|k: int| 0 <= k < i ==> dest@[k] == byte,
            forall|k: int| i <= k < dest@.len() ==> dest@[k] == old(dest)@[k],
        decreases n - i,
    {
        dest[i] = byte;
        i += 1;
    }
}

/// What `buf` holds after `n` bytes at `src` were moved to `dest`: the
/// moved bytes as they were before the move, everything else unchanged.
pub open spec fn moved(buf: Seq<u8>, dest: int, src: int, n: int) -> Seq<u8> {
    Seq::new(buf.len(), |p: int| if dest <= p < dest + n { buf[src + p - dest] } else { buf[p] })
}

/// Moves `n` bytes within `buf` from offset `src` to offset `dest`. The
/// two ranges may overlap: the bytes land as they were before the move.
pub fn memmove(buf: &mut [u8], dest: usize, src: usize, n: usize)
    requires
        dest + n <= old(buf)@.len(),
        src + n <= old(buf)@.len(),
    ensures
        final(buf)@ == moved(old(buf)@, dest as int, src as int, n as int),
{
    let ghost orig = buf@;
    let len = buf.len();
    if dest <= src {
        let mut i: usize = 0;
        while i < n
            invariant
                i <= n,
                dest <= src,
                dest + n <= orig.len(),
                src + n <= orig.len(),
                buf@.len() == orig.len(),
                orig.len() == len,
                forall|p: int|
                    0 <= p < orig.len() ==> #[trigger] buf@[p] == (if dest <= p < dest + i {
                        orig[src + p - dest]
                    } else {
                        orig[p]
                    }),
            decreases n - i,
        {
            let b = buf[src + i];
            buf[dest + i] = b;
            i += 1;
        }
    } else {
        let mut i: usize = n;
        while i > 0
            invariant
                i <= n,
                dest > src,
                dest + n <= orig.len(),
                src + n <= orig.len(),
                buf@.len() == orig.len(),
                orig.len() == len,
                forall|p: int|
                    0 <= p < orig.len() ==> #[trigger] buf@[p] == (if dest + i <= p < dest + n {
                        orig[src + p - dest]
                    } else {
                        orig[p]
                    }),
            decreases i,
        {
            i -= 1;
            let b = buf[src + i];
            buf[dest + i] = b;
        }
    }
    assert(buf@ =~= moved(orig, dest as int, src as int, n as int));
}

/// `memcmp` of the first `n` bytes: zero where they agree, else the
/// difference of the first pair that differs.
pub open spec fn compare_from(a: Seq<u8>, b: Seq<u8>, i: int, n: int) -> i32
    decreases n - i,
{
    if i >= n {
        0
    } else if a[i] != b[i] {
        (a[i] - b[i]) as i32
    } else {
        compare_from(a, b, i + 1, n)
    }
}

/// The result of comparing the first `n` bytes of `a` and `b`.
pub open spec fn first_difference(a: Seq<u8>, b: Seq<u8>, n: usize) -> i32 {
    compare_from(a, b, 0, n as int)
}

/// Whether the first `n` bytes of `a` and `b` agree.
pub open spec fn same_prefix(a: Seq<u8>, b: Seq<u8>, n: usize) -> bool {
    a.subrange(0, n as int) == b.subrange(0, n as int)
}

fn compare_bytes(a: &[u8], b: &[u8], n: usize) -> (r: i32)
    requires
        n <= a@.len(),
        n <= b@.len(),
    ensures
        r == first_difference(a@, b@, n),
        r == 0 <==> same_prefix(a@, b@, n),
{
    let mut i: usize = 0;
    while i < n
        invariant
            i <= n,
            n <= a@.len(),
            n <= b@.len(),
            compare_from(a@, b@, 0, n as int) == compare_from(a@, b@, i as int, n as int),
            forall|k: int| 0 <= k < i ==> a@[k] == b@[k],
        decreases n - i,
    {
        let av = a[i];
        let bv = b[i];
        if av != bv {
            assert(a@.subrange(0, n as int)[i as int] != b@.subrange(0, n as int)[i as int]);
            return av as i32 - bv as i32;
        }
        i += 1;
    }
    assert(a@.subrange(0, n as int) =~= b@.subrange(0, n as int));
    0
}

/// Compares the first `n` bytes of `a` and `b`.
pub fn memcmp(a: &[u8], b: &[u8], n: usize) -> (r: i32)
    requires
        n <= a@.len(),
        n <= b@.len(),
    ensures
        r == first_difference(a@, b@, n),
        r == 0 <==> same_prefix(a@, b@, n),
{
    compare_bytes(a, b, n)
}

/// `bcmp`: the same comparison as `memcmp`.
pub fn bcmp(a: &[u8], b: &[u8], n: usize) -> (r: i32)
    requires
        n <= a@.len(),
        n <= b@.len(),
    ensures
        r == first_difference(a@, b@, n),
        r == 0 <==> same_prefix(a@, b@, n),
{
    memcmp(a, b, n)
}

} // verus!
