//! Bit-for-bit reinterpretation of raw little-endian bytes as scalar
//! values: the arithmetic the projector's primitive leaves rest on.

use vstd::prelude::*;

verus! {

/// The unsigned integer a little-endian byte sequence stands for.
pub open spec fn le_value(bytes: Seq<u8>) -> nat
    decreases bytes.len(),
{
    if bytes.len() == 0 {
        0
    } else {
        (bytes[0] + 256 * le_value(bytes.drop_first())) as nat
    }
}

/// `256^n`: the number of values `n` bytes can hold.
pub open spec fn pow256(n: nat) -> nat
    decreases n,
{
    if n == 0 {
        1
    } else {
        256 * pow256((n - 1) as nat)
    }
}

/// The signed integer a little-endian byte sequence stands for, read as
/// two's complement.
pub open spec fn twos_complement(bytes: Seq<u8>) -> int {
    if le_value(bytes) < pow256(bytes.len()) / 2 {
        le_value(bytes) as int
    } else {
        le_value(bytes) - pow256(bytes.len())
    }
}

/// The concrete powers a decoder of up to eight bytes needs.
proof fn lemma_pow256_values()
    ensures
        pow256(0) == 1,
        pow256(1) == 0x100,
        pow256(2) == 0x10000,
        pow256(3) == 0x1000000,
        pow256(4) == 0x100000000,
        pow256(5) == 0x10000000000,
        pow256(6) == 0x1000000000000,
        pow256(7) == 0x100000000000000,
        pow256(8) == 0x10000000000000000,
{
    assert(pow256(0) == 1);
    assert(pow256(1) == 0x100);
    assert(pow256(2) == 0x10000);
    assert(pow256(3) == 0x1000000);
    assert(pow256(4) == 0x100000000);
    assert(pow256(5) == 0x10000000000);
    assert(pow256(6) == 0x1000000000000);
    assert(pow256(7) == 0x100000000000000);
    assert(pow256(8) == 0x10000000000000000);
}

/// The count of values held by each byte width a scalar can have.
pub proof fn lemma_pow256_widths()
    ensures
        pow256(1) == 0x100,
        pow256(2) == 0x10000,
        pow256(4) == 0x100000000,
        pow256(8) == 0x10000000000000000,
{
    lemma_pow256_values();
}

/// Up to eight bytes of value always fit an unsigned 64-bit integer.
pub proof fn lemma_pow256_le_u64(n: nat)
    requires
        n <= 8,
    ensures
        pow256(n) <= 0x10000000000000000,
        pow256(n) / 2 <= 0x8000000000000000,
{
    lemma_pow256_values();
    if n == 0 {
    } else if n == 1 {
    } else if n == 2 {
    } else if n == 3 {
    } else if n == 4 {
    } else if n == 5 {
    } else if n == 6 {
    } else if n == 7 {
    }
}

/// A byte sequence's value is below the count of values its length can
/// hold.
pub proof fn lemma_le_value_bound(bytes: Seq<u8>)
    ensures
        le_value(bytes) < pow256(bytes.len()),
    decreases bytes.len(),
{
    if bytes.len() == 0 {
    } else {
        lemma_le_value_bound(bytes.drop_first());
    }
}

/// Reads up to eight bytes as one little-endian unsigned integer.
pub fn read_le_u64(bytes: &[u8]) -> (r: u64)
    requires
        bytes@.len() <= 8,
    ensures
        r as nat == le_value(bytes@),
{
    proof {
        lemma_pow256_values();
    }
    let n = bytes.len();
    let mut acc: u64 = 0;
    let mut i: usize = n;
    while i > 0
        invariant
            n == bytes@.len(),
            n <= 8,
            i <= n,
            acc as nat == le_value(bytes@.skip(i as int)),
            (acc as nat) < pow256((n - i) as nat),
        decreases i,
    {
        proof {
            lemma_pow256_values();
            assert(bytes@.skip(i - 1).drop_first() =~= bytes@.skip(i as int));
            assert(bytes@.skip(i - 1)[0] == bytes@[i - 1]);
            assert(pow256((n - (i - 1)) as nat) == 256 * pow256((n - i) as nat));
            assert(pow256((n - (i - 1)) as nat) <= pow256(8)) by {
                assert forall|a: nat| a <= 8 implies #[trigger] pow256(a) <= pow256(8) by {
                    lemma_pow256_values();
                    if a == 0 {
                    } else if a == 1 {
                    } else if a == 2 {
                    } else if a == 3 {
                    } else if a == 4 {
                    } else if a == 5 {
                    } else if a == 6 {
                    } else if a == 7 {
                    }
                }
            }
        }
        i = i - 1;
        acc = acc * 256 + (bytes[i] as u64);
    }
    proof {
        assert(bytes@.skip(0) =~= bytes@);
    }
    acc
}

/// Reads one, two, four or eight bytes as a little-endian two's
/// complement signed integer.
pub fn read_le_i64(bytes: &[u8]) -> (r: i64)
    requires
        bytes@.len() == 1 || bytes@.len() == 2 || bytes@.len() == 4 || bytes@.len() == 8,
    ensures
        r as int == twos_complement(bytes@),
{
    proof {
        lemma_pow256_values();
        lemma_le_value_bound(bytes@);
    }
    let n = bytes.len();
    let u = read_le_u64(bytes);
    if n == 8 {
        if u < 0x8000000000000000 {
            u as i64
        } else {
            let mag: u64 = (u64::MAX - u) + 1;
            if mag == 0x8000000000000000 {
                i64::MIN
            } else {
                -(mag as i64)
            }
        }
    } else {
        let half: u64 = if n == 1 {
            0x80
        } else if n == 2 {
            0x8000
        } else {
            0x80000000
        };
        if u < half {
            u as i64
        } else {
            let mag: u64 = 2 * half - u;
            -(mag as i64)
        }
    }
}

} // verus!
