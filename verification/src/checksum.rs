//! Fletcher-16 checksum over bytes, as used by every frame of the protocol.

use vstd::prelude::*;
use vstd::arithmetic::div_mod::{lemma_add_mod_noop_right, lemma_fundamental_div_mod};

verus! {

/// The two running sums of Fletcher-16 after consuming `data`, both reduced mod 255.
pub open spec fn fletcher_sums(data: Seq<u8>) -> (int, int)
    decreases data.len(),
{
    if data.len() == 0 {
        (0, 0)
    } else {
        let prev = fletcher_sums(data.drop_last());
        let sum1 = (prev.0 + data.last()) % 255;
        let sum2 = (prev.1 + sum1) % 255;
        (sum1, sum2)
    }
}

/// The Fletcher-16 checksum bytes `[sum2, sum1]` of `data`.
pub open spec fn spec_fletcher16(data: Seq<u8>) -> Seq<u8> {
    let sums = fletcher_sums(data);
    seq![sums.1 as u8, sums.0 as u8]
}

/// Both sums always stay below 255.
pub proof fn lemma_fletcher_sums_bounded(data: Seq<u8>)
    ensures
        0 <= fletcher_sums(data).0 < 255,
        0 <= fletcher_sums(data).1 < 255,
    decreases data.len(),
{
    if data.len() > 0 {
        lemma_fletcher_sums_bounded(data.drop_last());
    }
}

/// The sum of the bytes of `data`.
pub open spec fn byte_sum(data: Seq<u8>) -> int
    decreases data.len(),
{
    if data.len() == 0 {
        0
    } else {
        byte_sum(data.drop_last()) + data.last()
    }
}

/// The sum of `byte_sum` over every non-empty prefix of `data`: each byte counted
/// once for every prefix that holds it.
pub open spec fn prefix_sums(data: Seq<u8>) -> int
    decreases data.len(),
{
    if data.len() == 0 {
        0
    } else {
        prefix_sums(data.drop_last()) + byte_sum(data)
    }
}

/// `data` with the bytes at `i` and `i + 1` swapped.
pub open spec fn swap_adjacent(data: Seq<u8>, i: int) -> Seq<u8> {
    data.update(i, data[i + 1]).update(i + 1, data[i])
}

/// The two sums of Fletcher-16 are the byte sum and the prefix sums, mod 255.
pub proof fn lemma_fletcher_sums_closed(data: Seq<u8>)
    ensures
        fletcher_sums(data).0 == byte_sum(data) % 255,
        fletcher_sums(data).1 == prefix_sums(data) % 255,
    decreases data.len(),
{
    if data.len() > 0 {
        let p = data.drop_last();
        lemma_fletcher_sums_closed(p);
        lemma_add_mod_noop_right(data.last() as int, byte_sum(p), 255);
        lemma_add_mod_noop_right(fletcher_sums(data).0, prefix_sums(p), 255);
        lemma_add_mod_noop_right(prefix_sums(p), byte_sum(data), 255);
    }
}

proof fn lemma_byte_sum_update(data: Seq<u8>, i: int, v: u8)
    requires
        0 <= i < data.len(),
    ensures
        byte_sum(data.update(i, v)) == byte_sum(data) - data[i] + v,
    decreases data.len(),
{
    let u = data.update(i, v);
    if i == data.len() - 1 {
        assert(u.drop_last() =~= data.drop_last());
    } else {
        assert(u.drop_last() =~= data.drop_last().update(i, v));
        lemma_byte_sum_update(data.drop_last(), i, v);
    }
}

proof fn lemma_swap_sums(data: Seq<u8>, i: int)
    requires
        0 <= i,
        i + 1 < data.len(),
    ensures
        byte_sum(swap_adjacent(data, i)) == byte_sum(data),
        prefix_sums(swap_adjacent(data, i)) == prefix_sums(data) + data[i + 1] - data[i],
    decreases data.len(),
{
    let a = data[i];
    let b = data[i + 1];
    let s = swap_adjacent(data, i);
    lemma_byte_sum_update(data, i, b);
    lemma_byte_sum_update(data.update(i, b), i + 1, a);
    let p = data.drop_last();
    if i + 2 == data.len() {
        // The last prefix that differs ends with the first swapped byte.
        let q = p.update(i, b);
        assert(s.drop_last() =~= q);
        assert(q.drop_last() =~= p.drop_last());
        lemma_byte_sum_update(p, i, b);
        assert(prefix_sums(s) == prefix_sums(q) + byte_sum(s));
        assert(prefix_sums(q) == prefix_sums(p.drop_last()) + byte_sum(q));
        assert(prefix_sums(p) == prefix_sums(p.drop_last()) + byte_sum(p));
    } else {
        assert(s.drop_last() =~= swap_adjacent(p, i));
        lemma_swap_sums(p, i);
        assert(prefix_sums(s) == prefix_sums(swap_adjacent(p, i)) + byte_sum(s));
    }
    assert(prefix_sums(data) == prefix_sums(p) + byte_sum(data));
}

proof fn lemma_mod_distinct(x: int, d: int)
    requires
        1 <= d <= 254 || -254 <= d <= -1,
    ensures
        (x + d) % 255 != x % 255,
{
    lemma_fundamental_div_mod(x, 255);
    lemma_fundamental_div_mod(x + d, 255);
    if (x + d) % 255 == x % 255 {
        assert(d == 255 * ((x + d) / 255) - 255 * (x / 255));
        assert(d == 255 * ((x + d) / 255 - x / 255)) by (nonlinear_arith)
            requires
                d == 255 * ((x + d) / 255) - 255 * (x / 255);
    }
}

/// Fletcher-16 detects every single-bit error: flipping any one bit of the data
/// changes the checksum.
pub proof fn law_single_bit_errors_detected(data: Seq<u8>, i: int, bit: u8)
    requires
        0 <= i < data.len(),
        bit < 8,
    ensures
        spec_fletcher16(data.update(i, data[i] ^ (1u8 << bit))) != spec_fletcher16(data),
{
    let b = data[i];
    let v = b ^ (1u8 << bit);
    assert(v as int - b as int == (1u8 << bit) as int || b as int - v as int == (1u8 << bit) as int) by (bit_vector)
        requires
            v == b ^ (1u8 << bit),
            bit < 8;
    assert(1 <= (1u8 << bit) <= 128) by (bit_vector)
        requires
            bit < 8;
    let flipped = data.update(i, v);
    lemma_byte_sum_update(data, i, v);
    lemma_fletcher_sums_closed(data);
    lemma_fletcher_sums_closed(flipped);
    lemma_fletcher_sums_bounded(data);
    lemma_fletcher_sums_bounded(flipped);
    lemma_mod_distinct(byte_sum(data), v - b);
    assert(spec_fletcher16(flipped)[1] != spec_fletcher16(data)[1]);
}

/// Fletcher-16 detects swapped neighbours: exchanging two adjacent bytes changes the
/// checksum, unless the two bytes are equal modulo 255 (equal bytes, or `0x00` and
/// `0xFF`).
pub proof fn law_adjacent_swaps_detected(data: Seq<u8>, i: int)
    requires
        0 <= i,
        i + 1 < data.len(),
        data[i] % 255 != data[i + 1] % 255,
    ensures
        spec_fletcher16(swap_adjacent(data, i)) != spec_fletcher16(data),
{
    let s = swap_adjacent(data, i);
    lemma_swap_sums(data, i);
    lemma_fletcher_sums_closed(data);
    lemma_fletcher_sums_closed(s);
    lemma_fletcher_sums_bounded(data);
    lemma_fletcher_sums_bounded(s);
    let d = data[i + 1] - data[i];
    assert(d != 0 && d != 255 && d != -255);
    lemma_mod_distinct(prefix_sums(data), d);
    assert(spec_fletcher16(s)[0] != spec_fletcher16(data)[0]);
}

/// Fletcher-16 checksum of `data`: `[sum2, sum1]`, where
/// `sum1 = (sum1 + b) % 255` and `sum2 = (sum2 + sum1) % 255` for every byte `b`.
pub fn fletcher16(data: &[u8]) -> (ck: [u8; 2])
    ensures
        ck@ == spec_fletcher16(data@),
{
    let mut sum1: u32 = 0;
    let mut sum2: u32 = 0;
    let mut i: usize = 0;
    while i < data.len()
        invariant
            i <= data@.len(),
            sum1 == fletcher_sums(data@.take(i as int)).0,
            sum2 == fletcher_sums(data@.take(i as int)).1,
            sum1 < 255,
            sum2 < 255,
        decreases data@.len() - i,
    {
        proof {
            assert(data@.take(i + 1).drop_last() =~= data@.take(i as int));
        }
        sum1 = (sum1 + data[i] as u32) % 255;
        sum2 = (sum2 + sum1) % 255;
        i = i + 1;
    }
    proof {
        assert(data@.take(i as int) =~= data@);
    }
    [sum2 as u8, sum1 as u8]
}

} // verus!
