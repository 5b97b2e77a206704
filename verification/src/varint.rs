use crate::error::DbError;
use vstd::arithmetic::div_mod::{lemma_basic_div, lemma_div_denominator};
use vstd::prelude::*;

verus! {

/// A decoded variable-length integer.
#[derive(Clone, Copy, Debug, PartialEq, Eq)]
pub struct Varint(pub i64);

/// The number of bytes that the variable-length integer at the start of
/// `bytes` occupies: one more than the number of leading bytes with the high
/// bit set, and nine at most. Where `bytes` ends before the integer does, the
/// result is larger than `bytes.len()`.
pub open spec fn varint_width(bytes: Seq<u8>) -> int {
    if bytes.len() < 1 || bytes[0] < 0x80 {
        1
    } else if bytes.len() < 2 || bytes[1] < 0x80 {
        2
    } else if bytes.len() < 3 || bytes[2] < 0x80 {
        3
    } else if bytes.len() < 4 || bytes[3] < 0x80 {
        4
    } else if bytes.len() < 5 || bytes[4] < 0x80 {
        5
    } else if bytes.len() < 6 || bytes[5] < 0x80 {
        6
    } else if bytes.len() < 7 || bytes[6] < 0x80 {
        7
    } else if bytes.len() < 8 || bytes[7] < 0x80 {
        8
    } else {
        9
    }
}

/// The number that the low seven bits of the first `n` bytes spell, most
/// significant group first.
pub open spec fn low7_value(bytes: Seq<u8>, n: nat) -> int
    decreases n,
{
    if n == 0 {
        0
    } else {
        low7_value(bytes, (n - 1) as nat) * 128 + bytes[n - 1] % 128
    }
}

/// The signed 64-bit number whose two's complement bit pattern is `x`, for
/// `0 <= x < 2^64`.
pub open spec fn as_signed64(x: int) -> int {
    if x >= 0x8000_0000_0000_0000 {
        x - 0x1_0000_0000_0000_0000
    } else {
        x
    }
}

/// The value of the variable-length integer at the start of `bytes`: seven
/// bits from each of the first eight bytes, and all eight bits of a ninth.
pub open spec fn varint_value(bytes: Seq<u8>) -> int {
    let w = varint_width(bytes);
    if w <= 8 {
        low7_value(bytes, w as nat)
    } else {
        as_signed64(low7_value(bytes, 8) * 256 + bytes[8])
    }
}

/// `128^n`.
pub open spec fn pow128(n: nat) -> int
    decreases n,
{
    if n == 0 {
        1
    } else {
        128 * pow128((n - 1) as nat)
    }
}

proof fn lemma_low7_bound(bytes: Seq<u8>, n: nat)
    ensures
        0 <= low7_value(bytes, n) < pow128(n),
    decreases n,
{
    if n > 0 {
        lemma_low7_bound(bytes, (n - 1) as nat);
    }
}

proof fn lemma_pow128_values()
    ensures
        pow128(0) == 1,
        pow128(1) == 0x80,
        pow128(2) == 0x4000,
        pow128(3) == 0x20_0000,
        pow128(4) == 0x1000_0000,
        pow128(5) == 0x8_0000_0000,
        pow128(6) == 0x400_0000_0000,
        pow128(7) == 0x2_0000_0000_0000,
        pow128(8) == 0x100_0000_0000_0000,
{
    reveal_with_fuel(pow128, 10);
}

impl Varint {
    /// Decodes the variable-length integer at the start of `bytes` and says
    /// how many bytes it took. Fails where `bytes` ends before the integer
    /// does.
    pub fn parse(bytes: &[u8]) -> (r: Result<(Varint, usize), DbError>)
        ensures
            r is Ok <==> varint_width(bytes@) <= bytes@.len(),
            r matches Ok((v, n)) ==> n == varint_width(bytes@) && v.0 == varint_value(bytes@)
                && 1 <= n <= 9,
            r matches Err(e) ==> e == DbError::Bounds,
    {
        let mut acc: u64 = 0;
        let mut i: usize = 0;
        while i < 8
            invariant
                i <= 8,
                i <= bytes@.len(),
                forall|j: int| 0 <= j < i ==> bytes@[j] >= 0x80,
                acc == low7_value(bytes@, i as nat),
            decreases 8 - i,
        {
            if i >= bytes.len() {
                return Err(DbError::Bounds);
            }
            let b = bytes[i];
            proof {
                lemma_low7_bound(bytes@, i as nat);
                lemma_pow128_values();
            }
            assert(acc < 0x2_0000_0000_0000);
            let next: u64 = (acc << 7) | ((b & 0x7f) as u64);
            assert(next == acc * 128 + b % 128) by (bit_vector)
                requires
                    acc < 0x2_0000_0000_0000,
                    next == (acc << 7) | ((b & 0x7f) as u64),
            ;
            acc = next;
            if b < 0x80 {
                let v = acc as i64;
                assert(v == acc) by (bit_vector)
                    requires
                        v == acc as i64,
                        acc < 0x100_0000_0000_0000,
                ;
                return Ok((Varint(v), i + 1));
            }
            i += 1;
        }
        if bytes.len() < 9 {
            return Err(DbError::Bounds);
        }
        let b = bytes[8];
        proof {
            lemma_low7_bound(bytes@, 8);
            lemma_pow128_values();
        }
        let full: u64 = (acc << 8) | (b as u64);
        assert(full == acc * 256 + b) by (bit_vector)
            requires
                acc < 0x100_0000_0000_0000,
                full == (acc << 8) | (b as u64),
        ;
        let v = full as i64;
        assert(v == as_signed64(full as int)) by (bit_vector)
            requires
                v == full as i64,
        ;
        Ok((Varint(v), 9))
    }
}

/// The bit pattern of the signed 64-bit number `v`, read as an unsigned
/// number.
pub open spec fn as_unsigned64(v: int) -> int {
    if v < 0 {
        v + 0x1_0000_0000_0000_0000
    } else {
        v
    }
}

/// The number of bytes of the shortest encoding of the bit pattern `u`: as
/// many groups of seven bits as it takes to hold `u`, or nine bytes where
/// eight groups are too few.
pub open spec fn varint_len(u: int) -> nat {
    if u < 0x80 {
        1
    } else if u < 0x4000 {
        2
    } else if u < 0x20_0000 {
        3
    } else if u < 0x1000_0000 {
        4
    } else if u < 0x8_0000_0000 {
        5
    } else if u < 0x400_0000_0000 {
        6
    } else if u < 0x2_0000_0000_0000 {
        7
    } else if u < 0x100_0000_0000_0000 {
        8
    } else {
        9
    }
}

/// The `i`-th of the `n` groups of seven bits of `x`, most significant group
/// first.
pub open spec fn group7(x: int, n: nat, i: int) -> int {
    (x / pow128((n - 1 - i) as nat)) % 128
}

/// The shortest encoding of `v`. Up to eight bytes hold seven bits each, all
/// but the last with the high bit set. Where that is too few, eight such
/// bytes hold the upper 56 bits and a ninth holds the lowest eight.
pub open spec fn varint_encode(v: i64) -> Seq<u8> {
    let u = as_unsigned64(v as int);
    let n = varint_len(u);
    if n == 9 {
        Seq::new(
            9,
            |i: int|
                if i < 8 {
                    (0x80 + group7(u / 256, 8, i)) as u8
                } else {
                    (u % 256) as u8
                },
        )
    } else {
        Seq::new(
            n,
            |i: int|
                if i < n - 1 {
                    (0x80 + group7(u, n, i)) as u8
                } else {
                    group7(u, n, i) as u8
                },
        )
    }
}

proof fn lemma_pow128_positive(n: nat)
    ensures
        pow128(n) > 0,
    decreases n,
{
    if n > 0 {
        lemma_pow128_positive((n - 1) as nat);
    }
}

/// The low seven bits of the first `k` bytes spell the upper `k` groups of
/// `x`, where the bytes hold the `n` groups of `x`.
proof fn lemma_groups_value(x: int, n: nat, s: Seq<u8>, k: nat)
    requires
        0 <= x < pow128(n),
        k <= n <= s.len(),
        forall|i: int| 0 <= i < n ==> #[trigger] s[i] % 128 == group7(x, n, i),
    ensures
        low7_value(s, k) == x / pow128((n - k) as nat),
    decreases k,
{
    lemma_pow128_positive((n - k) as nat);
    if k == 0 {
        lemma_basic_div(x, pow128(n));
    } else {
        lemma_groups_value(x, n, s, (k - 1) as nat);
        let a = pow128((n - k) as nat);
        lemma_div_denominator(x, a, 128);
        assert(pow128((n - k + 1) as nat) == 128 * a);
        assert(a * 128 == 128 * a);
        assert(s[k - 1] % 128 == group7(x, n, k - 1));
        assert((n - 1 - (k - 1)) as nat == (n - k) as nat);
    }
}

/// Decoding the shortest encoding of a number gives the number back, and
/// takes all the bytes of the encoding.
pub proof fn lemma_varint_roundtrip(v: i64)
    ensures
        varint_encode(v).len() == varint_len(as_unsigned64(v as int)),
        varint_width(varint_encode(v)) == varint_encode(v).len(),
        varint_value(varint_encode(v)) == v,
{
    let u = as_unsigned64(v as int);
    let n = varint_len(u);
    let s = varint_encode(v);
    lemma_pow128_values();
    if n == 9 {
        let x = u / 256;
        assert forall|i: int| 0 <= i < 8 implies #[trigger] s[i] % 128 == group7(x, 8, i)
            && s[i] >= 0x80 by {
            let g = group7(x, 8, i);
            assert(0 <= g < 128);
        }
        lemma_groups_value(x, 8, s, 8);
        assert(pow128(0) == 1);
        assert(low7_value(s, 8) == x);
        assert(s[8] == u % 256);
    } else {
        assert forall|i: int| 0 <= i < n implies #[trigger] s[i] % 128 == group7(u, n, i) && (i
            < n - 1 ==> s[i] >= 0x80) by {
            let g = group7(u, n, i);
            assert(0 <= g < 128);
        }
        lemma_groups_value(u, n, s, n);
        assert(pow128(0) == 1);
        assert(low7_value(s, n) == u);
        assert(group7(u, n, n - 1) == u % 128);
        assert(s[n - 1] < 0x80);
    }
}

} // verus!
