//! Little-endian integers on the wire.

use vstd::prelude::*;

verus! {

/// The number that `bytes` spell in base 256, least significant byte first.
pub open spec fn le_value(bytes: Seq<u8>) -> nat
    decreases bytes.len(),
{
    if bytes.len() == 0 {
        0
    } else {
        bytes[0] as nat + 256 * le_value(bytes.drop_first())
    }
}

/// The `width` low base-256 digits of `value`, least significant first.
pub open spec fn le_bytes(value: nat, width: nat) -> Seq<u8>
    decreases width,
{
    if width == 0 {
        Seq::empty()
    } else {
        seq![(value % 256) as u8] + le_bytes(value / 256, (width - 1) as nat)
    }
}

/// 256 to the power `width`.
pub open spec fn radix(width: nat) -> nat
    decreases width,
{
    if width == 0 {
        1
    } else {
        256 * radix((width - 1) as nat)
    }
}

/// The eight bytes that carry `value` on the wire.
pub open spec fn u64_le(value: u64) -> Seq<u8> {
    le_bytes(value as nat, 8)
}

/// Eight bytes reach as far as a `u64`.
pub proof fn lemma_radix_8()
    ensures
        radix(8) == 0x1_0000_0000_0000_0000,
{
    reveal_with_fuel(radix, 9);
}

/// An encoding is as long as its width.
pub proof fn lemma_le_bytes_len(value: nat, width: nat)
    ensures
        le_bytes(value, width).len() == width,
    decreases width,
{
    if width > 0 {
        lemma_le_bytes_len(value / 256, (width - 1) as nat);
    }
}

/// Bytes spell a number below 256 to the power of their count.
pub proof fn lemma_le_value_bound(bytes: Seq<u8>)
    ensures
        le_value(bytes) < radix(bytes.len()),
    decreases bytes.len(),
{
    if bytes.len() > 0 {
        lemma_le_value_bound(bytes.drop_first());
    }
}

/// Decoding what was encoded gives the value back, as far as it fits the width.
pub proof fn lemma_le_value_of_bytes(value: nat, width: nat)
    requires
        value < radix(width),
    ensures
        le_value(le_bytes(value, width)) == value,
    decreases width,
{
    if width > 0 {
        let rest = le_bytes(value / 256, (width - 1) as nat);
        lemma_le_value_of_bytes(value / 256, (width - 1) as nat);
        assert(le_bytes(value, width).drop_first() =~= rest);
    }
}

/// Eight bytes hold every `u64`, and only one `u64` each.
pub proof fn lemma_u64_le_round_trip(value: u64)
    ensures
        u64_le(value).len() == 8,
        le_value(u64_le(value)) == value,
{
    lemma_radix_8();
    lemma_le_bytes_len(value as nat, 8);
    lemma_le_value_of_bytes(value as nat, 8);
}

/// Appends the eight little-endian bytes of `value` to `out`.
pub fn put_u64_le(out: &mut Vec<u8>, value: u64)
    ensures
        final(out)@ == old(out)@ + u64_le(value),
{
    let mut rest: u64 = value;
    let mut i: usize = 0;
    while i < 8
        invariant
            0 <= i <= 8,
            out@ + le_bytes(rest as nat, (8 - i) as nat) == old(out)@ + u64_le(value),
        decreases 8 - i,
    {
        out.push((rest % 256) as u8);
        rest = rest / 256;
        i += 1;
    }
}

/// Reads the `u64` whose little-endian bytes stand at `bytes[at .. at + 8]`.
pub fn get_u64_le(bytes: &[u8], at: usize) -> (value: u64)
    requires
        at + 8 <= bytes@.len(),
    ensures
        value == le_value(bytes@.subrange(at as int, at + 8)),
{
    let len = bytes.len();
    let mut value: u64 = 0;
    let mut i: usize = 8;
    while i > 0
        invariant
            0 <= i <= 8,
            len == bytes@.len(),
            at + 8 <= len,
            value == le_value(bytes@.subrange(at + i, at + 8)),
        decreases i,
    {
        i -= 1;
        proof {
            let wider = bytes@.subrange(at + i, at + 8);
            let narrower = bytes@.subrange(at + i + 1, at + 8);
            assert(wider.drop_first() =~= narrower);
            lemma_le_value_bound(wider);
            lemma_radix_8();
            reveal_with_fuel(radix, 9);
        }
        value = value * 256 + bytes[at + i] as u64;
    }
    value
}

} // verus!
