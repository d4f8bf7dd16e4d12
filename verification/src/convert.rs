//! Number formatting into caller-provided byte buffers.

use vstd::prelude::*;

verus! {

/// The ASCII decimal digits of `n`, most significant first, no leading zeros.
pub open spec fn decimal(n: nat) -> Seq<u8>
    decreases n,
{
    if n < 10 {
        seq![(0x30 + n) as u8]
    } else {
        decimal(n / 10).push((0x30 + n % 10) as u8)
    }
}

pub open spec fn hex_digit(d: nat) -> u8 {
    if d < 10 {
        (0x30 + d) as u8
    } else {
        (0x41 + d - 10) as u8
    }
}

/// The upper-case hexadecimal digits of `n`, no leading zeros.
pub open spec fn hex(n: nat) -> Seq<u8>
    decreases n,
{
    if n < 16 {
        seq![hex_digit(n)]
    } else {
        hex(n / 16).push(hex_digit(n % 16))
    }
}

/// The number that a string of ASCII decimal digits stands for.
pub open spec fn digits_value(s: Seq<u8>) -> nat
    decreases s.len(),
{
    if s.len() == 0 {
        0
    } else {
        digits_value(s.drop_last()) * 10 + (s.last() - 0x30) as nat
    }
}

pub open spec fn pow(base: nat, e: nat) -> nat
    decreases e,
{
    if e == 0 {
        1
    } else {
        base * pow(base, (e - 1) as nat)
    }
}

proof fn lemma_digits_bound(n: nat, base: nat, e: nat, len: nat)
    requires
        base == 10 || base == 16,
        1 <= e,
        n < pow(base, e),
        len == (if base == 10 { decimal(n).len() } else { hex(n).len() }),
    ensures
        1 <= len <= e,
    decreases e,
{
    if n < base {
    } else {
        assert(pow(base, e) == base * pow(base, (e - 1) as nat));
        if e == 1 {
            assert(pow(base, 0) == 1);
        } else {
            assert(n / base < pow(base, (e - 1) as nat));
            if base == 10 {
                lemma_digits_bound(n / 10, 10, (e - 1) as nat, decimal(n / 10).len());
            } else {
                lemma_digits_bound(n / 16, 16, (e - 1) as nat, hex(n / 16).len());
            }
        }
    }
}

pub proof fn lemma_decimal_len(n: nat)
    ensures
        1 <= decimal(n).len(),
        n < 0x1_0000_0000 ==> decimal(n).len() <= 10,
        n < 0x1_0000_0000_0000_0000 ==> decimal(n).len() <= 20,
        forall|i: int| 0 <= i < decimal(n).len() ==> 0x30 <= #[trigger] decimal(n)[i] <= 0x39,
    decreases n,
{
    reveal_with_fuel(pow, 21);
    assert(pow(10, 10) == 10000000000);
    assert(pow(10, 20) == 100000000000000000000);
    if n < 0x1_0000_0000_0000_0000 {
        lemma_digits_bound(n, 10, 20, decimal(n).len());
    }
    if n < 0x1_0000_0000 {
        lemma_digits_bound(n, 10, 10, decimal(n).len());
    }
    if n >= 10 {
        lemma_decimal_len(n / 10);
        assert forall|i: int| 0 <= i < decimal(n).len() implies 0x30 <= #[trigger] decimal(n)[i]
            <= 0x39 by {
            if i < decimal(n / 10).len() {
                assert(decimal(n)[i] == decimal(n / 10)[i]);
            }
        }
    }
}

pub proof fn lemma_hex_len(n: nat)
    ensures
        1 <= hex(n).len(),
        n < 0x1_0000_0000_0000_0000 ==> hex(n).len() <= 16,
    decreases n,
{
    reveal_with_fuel(pow, 18);
    assert(pow(16, 16) == 0x1_0000_0000_0000_0000);
    if n < 0x1_0000_0000_0000_0000 {
        lemma_digits_bound(n, 16, 16, hex(n).len());
    }
    if n >= 16 {
        lemma_hex_len(n / 16);
    }
}

/// Reading the digits back gives the number.
pub proof fn lemma_decimal_value(n: nat)
    ensures
        digits_value(decimal(n)) == n,
    decreases n,
{
    let d = decimal(n);
    if n >= 10 {
        lemma_decimal_value(n / 10);
        assert(d.drop_last() =~= decimal(n / 10));
        assert(d.last() == (0x30 + n % 10) as u8);
        assert((d.last() - 0x30) as nat == n % 10);
        assert(digits_value(d) == digits_value(d.drop_last()) * 10 + (d.last() - 0x30) as nat);
        assert(n == (n / 10) * 10 + n % 10);
    } else {
        assert(d.drop_last() =~= Seq::<u8>::empty());
        assert(d.last() == (0x30 + n) as u8);
        assert(digits_value(d) == digits_value(d.drop_last()) * 10 + (d.last() - 0x30) as nat);
    }
}

/// Writes the decimal digits of `value` into `buf` and returns the range
/// that holds them: `buf[0..1]` for zero, otherwise the tail `buf[start..10]`.
pub fn u32_to_str(value: u32, buf: &mut [u8; 10]) -> (range: (usize, usize))
    ensures
        range.0 < range.1 <= 10,
        value == 0 ==> range == (0usize, 1usize),
        value != 0 ==> range.1 == 10,
        final(buf)@.subrange(range.0 as int, range.1 as int) == decimal(value as nat),
        forall|i: int| 0 <= i < 10 && !(range.0 <= i < range.1) ==> final(buf)@[i] == old(buf)@[i],
{
    proof {
        lemma_decimal_len(value as nat);
    }
    if value == 0 {
        buf[0] = 0x30;
        assert(decimal(0) =~= seq![0x30u8]);
        assert(buf@.subrange(0, 1) =~= seq![0x30u8]);
        return (0, 1);
    }
    let mut v = value;
    let mut i: usize = 10;
    let ghost mut suffix: Seq<u8> = Seq::empty();
    while v > 0
        invariant
            i <= 10,
            suffix.len() == 10 - i,
            buf@.subrange(i as int, 10) == suffix,
            forall|k: int| 0 <= k < i ==> buf@[k] == old(buf)@[k],
            v == 0 ==> decimal(value as nat) == suffix,
            v > 0 ==> decimal(value as nat) == decimal(v as nat) + suffix,
            v > 0 ==> decimal(v as nat).len() <= i,
        decreases v,
    {
        proof {
            lemma_decimal_len(v as nat);
        }
        i -= 1;
        let d = (v % 10) as u8;
        buf[i] = 0x30 + d;
        let ghost old_suffix = suffix;
        proof {
            suffix = seq![(0x30 + d) as u8] + old_suffix;
        }
        assert(buf@.subrange(i as int, 10) =~= suffix);
        if v >= 10 {
            assert(decimal(v as nat) == decimal((v / 10) as nat).push((0x30 + (v % 10)) as u8));
            assert(decimal(v as nat) + old_suffix =~= decimal((v / 10) as nat) + suffix);
        } else {
            assert(decimal(v as nat) =~= seq![(0x30 + v) as u8]);
            assert(decimal(v as nat) + old_suffix =~= suffix);
        }
        v = v / 10;
    }
    (i, 10)
}

/// Writes the decimal digits of `value` at the front of `buffer`, as many
/// as fit; returns how many were written.
pub fn u64_to_str(value: u64, buffer: &mut [u8]) -> (n: usize)
    ensures
        final(buffer)@.len() == old(buffer)@.len(),
        n == (if decimal(value as nat).len() < old(buffer)@.len() {
            decimal(value as nat).len()
        } else {
            old(buffer)@.len()
        }),
        final(buffer)@.subrange(0, n as int) == decimal(value as nat).subrange(0, n as int),
        forall|i: int| n <= i < old(buffer)@.len() ==> final(buffer)@[i] == old(buffer)@[i],
{
    proof {
        lemma_decimal_len(value as nat);
    }
    if buffer.len() == 0 {
        return 0;
    }
    // Digits in reverse order.
    let mut temp: Vec<u8> = Vec::new();
    let mut v = value;
    let ghost mut rest: nat = value as nat;
    while v > 0
        invariant
            temp@.len() <= 20,
            v == 0 ==> decimal(value as nat) == temp@.reverse() || value == 0,
            v > 0 ==> decimal(value as nat) == decimal(v as nat) + temp@.reverse(),
            v > 0 ==> temp@.len() + decimal(v as nat).len() <= 20,
        decreases v,
    {
        proof {
            lemma_decimal_len(v as nat);
        }
        let d = (v % 10) as u8;
        let ghost old_temp = temp@;
        temp.push(0x30 + d);
        assert(temp@.reverse() =~= seq![(0x30 + d) as u8] + old_temp.reverse());
        if v >= 10 {
            assert(decimal(v as nat) == decimal((v / 10) as nat).push((0x30 + (v % 10)) as u8));
            assert(decimal(v as nat) + old_temp.reverse() =~= decimal((v / 10) as nat)
                + temp@.reverse());
        } else {
            assert(decimal(v as nat) =~= seq![(0x30 + v) as u8]);
            assert(decimal(v as nat) + old_temp.reverse() =~= temp@.reverse());
        }
        v = v / 10;
    }
    let ghost digits = decimal(value as nat);
    if value == 0 {
        buffer[0] = 0x30;
        assert(buffer@.subrange(0, 1) =~= decimal(0).subrange(0, 1));
        return 1;
    }
    let len = temp.len();
    assert(digits =~= temp@.reverse());
    let out_len = if len < buffer.len() {
        len
    } else {
        buffer.len()
    };
    let mut i: usize = 0;
    while i < out_len
        invariant
            out_len <= len,
            len == temp@.len(),
            digits == temp@.reverse(),
            out_len <= buffer@.len(),
            buffer@.len() == old(buffer)@.len(),
            i <= out_len,
            forall|k: int| 0 <= k < i ==> buffer@[k] == digits[k],
            forall|k: int| i <= k < old(buffer)@.len() ==> buffer@[k] == old(buffer)@[k],
        decreases out_len - i,
    {
        buffer[i] = temp[len - 1 - i];
        i += 1;
    }
    assert(buffer@.subrange(0, out_len as int) =~= digits.subrange(0, out_len as int));
    out_len
}

/// Writes "0x" and the upper-case hexadecimal digits of `value` at the
/// front of `buffer`, as many digits as fit; returns how many bytes were
/// written. A buffer shorter than 3 bytes gets nothing.
pub fn u64_to_hex(value: u64, buffer: &mut [u8]) -> (n: usize)
    ensures
        final(buffer)@.len() == old(buffer)@.len(),
        old(buffer)@.len() < 3 ==> n == 0 && final(buffer)@ == old(buffer)@,
        old(buffer)@.len() >= 3 ==> {
            let d = if hex(value as nat).len() < old(buffer)@.len() - 2 {
                hex(value as nat).len()
            } else {
                (old(buffer)@.len() - 2) as nat
            };
            &&& n == 2 + d
            &&& final(buffer)@.subrange(0, n as int) == seq![0x30u8, 0x78u8] + hex(
                value as nat,
            ).subrange(0, d as int)
            &&& forall|i: int| n <= i < old(buffer)@.len() ==> final(buffer)@[i] == old(buffer)@[i]
        },
{
    proof {
        lemma_hex_len(value as nat);
    }
    if buffer.len() < 3 {
        return 0;
    }
    buffer[0] = 0x30;
    buffer[1] = 0x78;
    if value == 0 {
        buffer[2] = 0x30;
        assert(hex(0) =~= seq![0x30u8]);
        assert(buffer@.subrange(0, 3) =~= seq![0x30u8, 0x78u8] + hex(0).subrange(0, 1));
        return 3;
    }
    let mut temp: Vec<u8> = Vec::new();
    let mut v = value;
    while v > 0
        invariant
            v > 0 ==> hex(value as nat) == hex(v as nat) + temp@.reverse(),
            v == 0 ==> hex(value as nat) == temp@.reverse(),
            v > 0 ==> temp@.len() + hex(v as nat).len() <= 16,
            temp@.len() <= 16,
        decreases v,
    {
        proof {
            lemma_hex_len(v as nat);
        }
        let d = v & 0xf;
        assert(d == v % 16) by (bit_vector)
            requires
                d == v & 0xf,
        ;
        let c: u8 = if d < 10 {
            0x30 + (d as u8)
        } else {
            0x41 + (d as u8) - 10
        };
        let ghost old_temp = temp@;
        temp.push(c);
        assert(temp@.reverse() =~= seq![c] + old_temp.reverse());
        let next = v >> 4;
        assert(next == v / 16) by (bit_vector)
            requires
                next == v >> 4,
        ;
        if v >= 16 {
            assert(hex(v as nat) == hex((v / 16) as nat).push(hex_digit((v % 16) as nat)));
            assert(hex(v as nat) + old_temp.reverse() =~= hex((v / 16) as nat) + temp@.reverse());
        } else {
            assert(hex(v as nat) =~= seq![hex_digit(v as nat)]);
            assert(hex(v as nat) + old_temp.reverse() =~= temp@.reverse());
        }
        v = next;
    }
    let ghost digits = hex(value as nat);
    let len = temp.len();
    let max_digits = buffer.len() - 2;
    let digits_n = if len < max_digits {
        len
    } else {
        max_digits
    };
    let mut i: usize = 0;
    while i < digits_n
        invariant
            digits_n <= len,
            len == temp@.len(),
            digits == temp@.reverse(),
            digits_n + 2 <= buffer.len(),
            buffer@.len() == old(buffer)@.len(),
            buffer@[0] == 0x30u8,
            buffer@[1] == 0x78u8,
            i <= digits_n,
            forall|k: int| 0 <= k < i ==> buffer@[2 + k] == digits[k],
            forall|k: int| 2 + i <= k < old(buffer)@.len() ==> buffer@[k] == old(buffer)@[k],
        decreases digits_n - i,
    {
        buffer[2 + i] = temp[len - 1 - i];
        i += 1;
    }
    assert(buffer@.subrange(0, (2 + digits_n) as int) =~= seq![0x30u8, 0x78u8] + digits.subrange(
        0,
        digits_n as int,
    ));
    2 + digits_n
}

} // verus!
