use vstd::prelude::*;

verus! {

/// The unsigned number that the two bytes at `off` spell, most significant
/// byte first.
pub open spec fn be16_at(bytes: Seq<u8>, off: int) -> int {
    bytes[off] * 0x100 + bytes[off + 1]
}

/// The unsigned number that the four bytes at `off` spell, most significant
/// byte first.
pub open spec fn be32_at(bytes: Seq<u8>, off: int) -> int {
    bytes[off] * 0x100_0000 + bytes[off + 1] * 0x1_0000 + bytes[off + 2] * 0x100 + bytes[off + 3]
}

/// The unsigned number that the `n` bytes at `off` spell, most significant
/// byte first.
pub open spec fn be_uint_at(bytes: Seq<u8>, off: int, n: nat) -> int
    decreases n,
{
    if n == 0 {
        0
    } else {
        be_uint_at(bytes, off, (n - 1) as nat) * 0x100 + bytes[off + n - 1]
    }
}

/// `256^n`.
pub open spec fn pow256(n: nat) -> int
    decreases n,
{
    if n == 0 {
        1
    } else {
        0x100 * pow256((n - 1) as nat)
    }
}

/// The two's complement number that the `n` bytes at `off` spell, most
/// significant byte first: negative where the top bit of the first byte is
/// set.
pub open spec fn be_int_at(bytes: Seq<u8>, off: int, n: nat) -> int {
    if n > 0 && bytes[off] >= 0x80 {
        be_uint_at(bytes, off, n) - pow256(n)
    } else {
        be_uint_at(bytes, off, n)
    }
}

pub(crate) proof fn lemma_be_uint_bound(bytes: Seq<u8>, off: int, n: nat)
    ensures
        0 <= be_uint_at(bytes, off, n) < pow256(n),
        n > 0 ==> (bytes[off] >= 0x80 <==> be_uint_at(bytes, off, n) >= pow256(n) / 2),
        n > 0 ==> pow256(n) % 2 == 0,
    decreases n,
{
    if n > 0 {
        lemma_be_uint_bound(bytes, off, (n - 1) as nat);
        if n == 1 {
            assert(be_uint_at(bytes, off, 0) == 0);
            assert(pow256(0) == 1);
        }
    }
}

pub(crate) proof fn lemma_pow256_values()
    ensures
        pow256(0) == 1,
        pow256(1) == 0x100,
        pow256(2) == 0x1_0000,
        pow256(3) == 0x100_0000,
        pow256(4) == 0x1_0000_0000,
        pow256(5) == 0x100_0000_0000,
        pow256(6) == 0x1_0000_0000_0000,
        pow256(7) == 0x100_0000_0000_0000,
        pow256(8) == 0x1_0000_0000_0000_0000,
{
    reveal_with_fuel(pow256, 10);
}

/// Reads the big-endian `u16` at `off`.
pub(crate) fn read_u16(bytes: &[u8], off: usize) -> (r: u16)
    requires
        off + 2 <= bytes@.len(),
    ensures
        r == be16_at(bytes@, off as int),
{
    let hi: u16 = bytes[off] as u16;
    let lo: u16 = bytes[off + 1] as u16;
    hi * 0x100 + lo
}

/// Reads the big-endian `u32` at `off`.
pub(crate) fn read_u32(bytes: &[u8], off: usize) -> (r: u32)
    requires
        off + 4 <= bytes@.len(),
    ensures
        r == be32_at(bytes@, off as int),
{
    let b0: u32 = bytes[off] as u32;
    let b1: u32 = bytes[off + 1] as u32;
    let b2: u32 = bytes[off + 2] as u32;
    let b3: u32 = bytes[off + 3] as u32;
    b0 * 0x100_0000 + b1 * 0x1_0000 + b2 * 0x100 + b3
}

/// Reads the `n` bytes at `off` as one unsigned big-endian number.
pub(crate) fn read_uint(bytes: &[u8], off: usize, n: usize) -> (r: u64)
    requires
        n <= 8,
        off + n <= bytes@.len(),
    ensures
        r == be_uint_at(bytes@, off as int, n as nat),
{
    let mut acc: u64 = 0;
    let mut i: usize = 0;
    while i < n
        invariant
            i <= n <= 8,
            off + n <= bytes.len(),
            acc == be_uint_at(bytes@, off as int, i as nat),
        decreases n - i,
    {
        proof {
            lemma_be_uint_bound(bytes@, off as int, i as nat);
            lemma_pow256_values();
        }
        acc = acc * 0x100 + bytes[off + i] as u64;
        i += 1;
    }
    acc
}

/// Reads the `n` bytes at `off` as one two's complement big-endian number,
/// extending the sign from the top bit of the first byte.
pub(crate) fn read_int(bytes: &[u8], off: usize, n: usize) -> (r: i64)
    requires
        1 <= n <= 8,
        off + n <= bytes@.len(),
    ensures
        r == be_int_at(bytes@, off as int, n as nat),
        -pow256(n as nat) / 2 <= r < pow256(n as nat) / 2,
{
    let u: u64 = read_uint(bytes, off, n);
    proof {
        lemma_be_uint_bound(bytes@, off as int, n as nat);
        lemma_pow256_values();
    }
    if bytes[off] >= 0x80 {
        // u - 256^n, computed without leaving the range of i64
        let half: u64 = half_range(n);
        let low: i64 = (u - half) as i64;
        low - (half - 1) as i64 - 1
    } else {
        u as i64
    }
}

/// `256^n / 2`, the number of non-negative values of an `n`-byte integer.
fn half_range(n: usize) -> (r: u64)
    requires
        1 <= n <= 8,
    ensures
        r == pow256(n as nat) / 2,
{
    proof {
        lemma_pow256_values();
    }
    if n == 1 {
        0x80
    } else if n == 2 {
        0x8000
    } else if n == 3 {
        0x80_0000
    } else if n == 4 {
        0x8000_0000
    } else if n == 5 {
        0x80_0000_0000
    } else if n == 6 {
        0x8000_0000_0000
    } else if n == 7 {
        0x80_0000_0000_0000
    } else {
        0x8000_0000_0000_0000
    }
}

} // verus!
