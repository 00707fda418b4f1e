//! Fixed-width little-endian integers, the building block of the record format.

use vstd::prelude::*;

verus! {

/// The `width` least significant base-256 digits of `value`, least significant first.
pub open spec fn le_bytes(value: nat, width: nat) -> Seq<u8>
    decreases width,
{
    if width == 0 {
        Seq::empty()
    } else {
        seq![(value % 256) as u8] + le_bytes(value / 256, (width - 1) as nat)
    }
}

/// The number whose base-256 digits, least significant first, are `bytes`.
pub open spec fn le_value(bytes: Seq<u8>) -> nat
    decreases bytes.len(),
{
    if bytes.len() == 0 {
        0
    } else {
        bytes[0] as nat + 256 * le_value(bytes.skip(1))
    }
}

/// `256` to the power `width`: the number of values that `width` bytes can hold.
pub open spec fn capacity(width: nat) -> nat
    decreases width,
{
    if width == 0 {
        1
    } else {
        256 * capacity((width - 1) as nat)
    }
}

/// The capacities of the widths up to eight bytes.
pub proof fn lemma_capacity_values()
    ensures
        capacity(0) == 1,
        capacity(1) == 0x100,
        capacity(2) == 0x1_0000,
        capacity(3) == 0x100_0000,
        capacity(4) == 0x1_0000_0000,
        capacity(5) == 0x100_0000_0000,
        capacity(6) == 0x1_0000_0000_0000,
        capacity(7) == 0x100_0000_0000_0000,
        capacity(8) == 0x1_0000_0000_0000_0000,
{
    reveal_with_fuel(capacity, 10);
}

/// More bytes hold more values, and even no byte holds one.
pub proof fn lemma_capacity_monotonic(small: nat, large: nat)
    requires
        small <= large,
    ensures
        capacity(small) <= capacity(large),
        capacity(small) >= 1,
    decreases large,
{
    if small < large {
        lemma_capacity_monotonic(small, (large - 1) as nat);
    } else if small > 0 {
        lemma_capacity_monotonic((small - 1) as nat, (large - 1) as nat);
    }
}

/// Writing a number in `width` bytes gives `width` bytes.
pub proof fn lemma_le_bytes_len(value: nat, width: nat)
    ensures
        le_bytes(value, width).len() == width,
    decreases width,
{
    if width > 0 {
        lemma_le_bytes_len(value / 256, (width - 1) as nat);
    }
}

/// A byte string of a given length denotes a number below the capacity of that length.
pub proof fn lemma_le_value_bound(bytes: Seq<u8>)
    ensures
        le_value(bytes) < capacity(bytes.len()),
    decreases bytes.len(),
{
    if bytes.len() > 0 {
        lemma_le_value_bound(bytes.skip(1));
    }
}

/// Reading back the digits of a number that fits gives the number.
pub proof fn lemma_le_value_of_bytes(value: nat, width: nat)
    requires
        value < capacity(width),
    ensures
        le_value(le_bytes(value, width)) == value,
    decreases width,
{
    lemma_le_bytes_len(value, width);
    if width > 0 {
        let rest = le_bytes(value / 256, (width - 1) as nat);
        assert(le_bytes(value, width).skip(1) =~= rest);
        lemma_le_value_of_bytes(value / 256, (width - 1) as nat);
    }
}

/// Writing out the number that a byte string denotes gives the byte string.
pub proof fn lemma_le_bytes_of_value(bytes: Seq<u8>)
    ensures
        le_bytes(le_value(bytes), bytes.len()) == bytes,
    decreases bytes.len(),
{
    if bytes.len() > 0 {
        let rest = bytes.skip(1);
        lemma_le_bytes_of_value(rest);
        let value = le_value(bytes);
        assert(value % 256 == bytes[0] as nat);
        assert(value / 256 == le_value(rest));
        assert(le_bytes(value, bytes.len()) =~= bytes);
    }
}

/// Appends the `width` little-endian bytes of `value` to `out`.
pub fn put_le(out: &mut Vec<u8>, value: u64, width: usize)
    ensures
        final(out)@ == old(out)@ + le_bytes(value as nat, width as nat),
{
    let mut rest: u64 = value;
    let mut done: usize = 0;
    while done < width
        invariant
            done <= width,
            old(out)@ + le_bytes(value as nat, width as nat) == out@ + le_bytes(
                rest as nat,
                (width - done) as nat,
            ),
        decreases width - done,
    {
        let digit: u8 = (rest % 256) as u8;
        proof {
            let tail = le_bytes((rest / 256) as nat, (width - done - 1) as nat);
            assert(le_bytes(rest as nat, (width - done) as nat) == seq![digit] + tail);
            assert(out@ + (seq![digit] + tail) =~= out@.push(digit) + tail);
        }
        out.push(digit);
        rest = rest / 256;
        done = done + 1;
    }
    assert(out@ + le_bytes(rest as nat, 0) =~= out@);
}

/// Reads the number that the `width` bytes of `bytes` from `start` on denote.
pub fn get_le(bytes: &[u8], start: usize, width: usize) -> (value: u64)
    requires
        width <= 8,
        start + width <= bytes@.len(),
    ensures
        value == le_value(bytes@.subrange(start as int, start + width)),
{
    let total: usize = bytes.len();
    let mut value: u64 = 0;
    let mut left: usize = width;
    while left > 0
        invariant
            left <= width <= 8,
            start + width <= bytes@.len() == total,
            value == le_value(bytes@.subrange(start + left, start + width)),
        decreases left,
    {
        left = left - 1;
        let digit: u8 = bytes[start + left];
        proof {
            let tail = bytes@.subrange(start + left + 1, start + width);
            let whole = bytes@.subrange(start + left as int, start + width);
            assert(whole.skip(1) =~= tail);
            assert(whole[0] == digit);
            lemma_le_value_bound(tail);
            lemma_capacity_monotonic(tail.len(), 7);
            lemma_capacity_values();
        }
        value = value * 256 + digit as u64;
    }
    value
}

/// Appends all of `bytes` to `out`.
pub fn put_bytes(out: &mut Vec<u8>, bytes: &[u8])
    ensures
        final(out)@ == old(out)@ + bytes@,
{
    let total: usize = bytes.len();
    let mut at: usize = 0;
    while at < total
        invariant
            at <= total == bytes@.len(),
            out@ == old(out)@ + bytes@.subrange(0, at as int),
        decreases total - at,
    {
        out.push(bytes[at]);
        at = at + 1;
        assert(out@ =~= old(out)@ + bytes@.subrange(0, at as int));
    }
    assert(bytes@.subrange(0, total as int) =~= bytes@);
}

/// A copy of the bytes of `bytes` from `start` up to `end`.
pub fn get_bytes(bytes: &[u8], start: usize, end: usize) -> (out: Vec<u8>)
    requires
        start <= end <= bytes@.len(),
    ensures
        out@ == bytes@.subrange(start as int, end as int),
{
    let mut out: Vec<u8> = Vec::new();
    let mut at: usize = start;
    while at < end
        invariant
            start <= at <= end <= bytes@.len(),
            out@ == bytes@.subrange(start as int, at as int),
        decreases end - at,
    {
        out.push(bytes[at]);
        at = at + 1;
        assert(out@ =~= bytes@.subrange(start as int, at as int));
    }
    out
}

} // verus!
