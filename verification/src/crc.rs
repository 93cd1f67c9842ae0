//! CRC-16 as the console's boot ROM computes it: accumulator seeded
//! with 0xFFFF, then for each byte `acc = (acc >> 8) ^ table[(acc &
//! 0xFF) ^ byte]`, where `table` is the standard reversed table with
//! generator 0xA001. No final XOR or reflection.

use vstd::prelude::*;

verus! {

/// One shift round of the table generator: shift right once, folding
/// the generator polynomial in when a bit falls off.
pub open spec fn crc_shift(a: u16) -> u16 {
    if a & 1 == 1 {
        (a >> 1) ^ 0xA001
    } else {
        a >> 1
    }
}

/// Entry `n` of the 256-entry lookup table: eight shift rounds of `n`.
pub open spec fn crc_table_entry(n: u8) -> u16 {
    crc_shift(
        crc_shift(
            crc_shift(
                crc_shift(crc_shift(crc_shift(crc_shift(crc_shift(n as u16))))),
            ),
        ),
    )
}

/// The accumulator after absorbing one input byte.
pub open spec fn crc_absorb(acc: u16, b: u8) -> u16 {
    (acc >> 8) ^ crc_table_entry(((acc & 0xFF) as u8) ^ b)
}

/// The accumulator after absorbing every byte of `s` in order.
pub open spec fn crc_fold(acc: u16, s: Seq<u8>) -> u16
    decreases s.len(),
{
    if s.len() <= 0 {
        acc
    } else {
        crc_fold(crc_absorb(acc, s[0]), s.drop_first())
    }
}

/// The CRC-16 of `s`: fold every byte into an accumulator seeded with
/// 0xFFFF.
pub open spec fn crc16_spec(s: Seq<u8>) -> u16 {
    crc_fold(0xFFFF, s)
}

/// Computes table entry `n` by running the eight shift rounds.
fn table_entry(n: u8) -> (r: u16)
    ensures
        r == crc_table_entry(n),
{
    let mut a: u16 = n as u16;
    let mut k: usize = 0;
    while k < 8
        invariant
            k <= 8,
            a == crc_shift_iter(n as u16, k as nat),
        decreases 8 - k,
    {
        a = if a & 1 == 1 {
            (a >> 1) ^ 0xA001
        } else {
            a >> 1
        };
        k = k + 1;
    }
    proof {
        lemma_shift_iter_unroll(n as u16);
    }
    a
}

/// `a` after `k` shift rounds.
pub open spec fn crc_shift_iter(a: u16, k: nat) -> u16
    decreases k,
{
    if k == 0 {
        a
    } else {
        crc_shift(crc_shift_iter(a, (k - 1) as nat))
    }
}

/// Eight iterated shift rounds are exactly the table-entry definition.
proof fn lemma_shift_iter_unroll(a: u16)
    ensures
        crc_shift_iter(a, 8) == crc_shift(
            crc_shift(
                crc_shift(crc_shift(crc_shift(crc_shift(crc_shift(crc_shift(a)))))),
            ),
        ),
{
    assert(crc_shift_iter(a, 0) == a);
    assert(crc_shift_iter(a, 1) == crc_shift(crc_shift_iter(a, 0)));
    assert(crc_shift_iter(a, 2) == crc_shift(crc_shift_iter(a, 1)));
    assert(crc_shift_iter(a, 3) == crc_shift(crc_shift_iter(a, 2)));
    assert(crc_shift_iter(a, 4) == crc_shift(crc_shift_iter(a, 3)));
    assert(crc_shift_iter(a, 5) == crc_shift(crc_shift_iter(a, 4)));
    assert(crc_shift_iter(a, 6) == crc_shift(crc_shift_iter(a, 5)));
    assert(crc_shift_iter(a, 7) == crc_shift(crc_shift_iter(a, 6)));
    assert(crc_shift_iter(a, 8) == crc_shift(crc_shift_iter(a, 7)));
}

/// Folds one byte into the accumulator.
fn absorb(acc: u16, b: u8) -> (r: u16)
    ensures
        r == crc_absorb(acc, b),
{
    proof {
        assert(acc & 0xFF < 256) by (bit_vector);
    }
    let lo: u8 = (acc & 0xFF) as u8;
    (acc >> 8) ^ table_entry(lo ^ b)
}

/// CRC-16 over the byte range `[start, end)` of `data`.
pub fn crc16_range(data: &Vec<u8>, start: usize, end: usize) -> (r: u16)
    requires
        start <= end <= data@.len(),
    ensures
        r == crc16_spec(data@.subrange(start as int, end as int)),
{
    let ghost whole = data@.subrange(start as int, end as int);
    let mut acc: u16 = 0xFFFF;
    let mut i: usize = start;
    while i < end
        invariant
            start <= i <= end <= data@.len(),
            crc_fold(acc, data@.subrange(i as int, end as int)) == crc16_spec(whole),
        decreases end - i,
    {
        proof {
            let cur = data@.subrange(i as int, end as int);
            assert(cur[0] == data@[i as int]);
            assert(cur.drop_first() =~= data@.subrange(i + 1, end as int));
        }
        acc = absorb(acc, data[i]);
        i = i + 1;
    }
    acc
}

} // verus!
