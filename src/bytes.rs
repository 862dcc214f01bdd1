use vstd::prelude::*;
use crate::types::Pubkey;

verus! {

/// The unsigned little-endian number held in `n` bytes of `s` from `off`.
pub open spec fn le(s: Seq<u8>, off: int, n: nat) -> nat
    decreases n,
{
    if n == 0 {
        0
    } else {
        s[off] as nat + 256 * le(s, off + 1, (n - 1) as nat)
    }
}

pub open spec fn pow256(n: nat) -> nat
    decreases n,
{
    if n == 0 {
        1
    } else {
        256 * pow256((n - 1) as nat)
    }
}

/// Reads an unsigned little-endian number of `n <= 16` bytes.
pub fn read_le(v: &[u8], off: usize, n: usize) -> (r: u128)
    requires
        n <= 16,
        off + n <= v.len(),
    ensures
        r == le(v@, off as int, n as nat),
        r < pow256(n as nat),
{
    let mut r: u128 = 0;
    let mut k: usize = n;
    proof {
        reveal_with_fuel(pow256, 17);
    }
    while k > 0
        invariant
            n <= 16,
            off + n <= v.len(),
            k <= n,
            r == le(v@, (off + k) as int, (n - k) as nat),
            r < pow256((n - k) as nat),
            pow256(15) * 256 == 0x1_0000_0000_0000_0000_0000_0000_0000_0000,
        decreases k,
    {
        let b = v[off + k - 1];
        proof {
            lemma_pow256_mono((n - k) as nat, 15);
            assert(r * 256 + b < pow256((n - k) as nat) * 256) by (nonlinear_arith)
                requires
                    r < pow256((n - k) as nat),
                    b < 256,
            ;
            assert(pow256((n - k) as nat) * 256 <= pow256(15) * 256) by (nonlinear_arith)
                requires
                    pow256((n - k) as nat) <= pow256(15),
            ;
            assert(pow256((n - k + 1) as nat) == 256 * pow256((n - k) as nat));
            assert(le(v@, (off + k - 1) as int, (n - k + 1) as nat) == b as nat + 256 * le(
                v@,
                (off + k) as int,
                (n - k) as nat,
            ));
        }
        r = r * 256 + b as u128;
        k = k - 1;
    }
    r
}

proof fn lemma_pow256_mono(a: nat, b: nat)
    requires
        a <= b,
    ensures
        pow256(a) <= pow256(b),
    decreases b,
{
    if a < b {
        lemma_pow256_mono(a, (b - 1) as nat);
    }
}

pub fn read_u16(v: &[u8], off: usize) -> (r: u16)
    requires
        off + 2 <= v.len(),
    ensures
        r == le(v@, off as int, 2),
{
    proof {
        reveal_with_fuel(pow256, 3);
    }
    read_le(v, off, 2) as u16
}

pub fn read_u64(v: &[u8], off: usize) -> (r: u64)
    requires
        off + 8 <= v.len(),
    ensures
        r == le(v@, off as int, 8),
{
    proof {
        reveal_with_fuel(pow256, 9);
    }
    read_le(v, off, 8) as u64
}

/// A signed number stored in eight little-endian bytes, two's complement.
pub open spec fn le_i64(s: Seq<u8>, off: int) -> int {
    if le(s, off, 8) <= i64::MAX {
        le(s, off, 8) as int
    } else {
        le(s, off, 8) - 0x1_0000_0000_0000_0000
    }
}

pub fn read_i64(v: &[u8], off: usize) -> (r: i64)
    requires
        off + 8 <= v.len(),
    ensures
        r == le_i64(v@, off as int),
{
    let u = read_u64(v, off);
    if u <= i64::MAX as u64 {
        u as i64
    } else {
        (u as i128 - 0x1_0000_0000_0000_0000i128) as i64
    }
}

pub fn read_u128(v: &[u8], off: usize) -> (r: u128)
    requires
        off + 16 <= v.len(),
    ensures
        r == le(v@, off as int, 16),
{
    read_le(v, off, 16)
}

/// A 32-byte id, as four little-endian words.
pub open spec fn key_at(s: Seq<u8>, off: int) -> Pubkey {
    Pubkey {
        w0: le(s, off, 8) as u64,
        w1: le(s, off + 8, 8) as u64,
        w2: le(s, off + 16, 8) as u64,
        w3: le(s, off + 24, 8) as u64,
    }
}

pub fn read_key(v: &[u8], off: usize) -> (r: Pubkey)
    requires
        off + 32 <= v.len(),
    ensures
        r == key_at(v@, off as int),
{
    Pubkey {
        w0: read_u64(v, off),
        w1: read_u64(v, off + 8),
        w2: read_u64(v, off + 16),
        w3: read_u64(v, off + 24),
    }
}

/// 32 raw bytes.
pub fn read_bytes32(v: &[u8], off: usize) -> (r: [u8; 32])
    requires
        off + 32 <= v.len(),
    ensures
        r@ == v@.subrange(off as int, off + 32),
{
    let mut out: [u8; 32] = [0u8; 32];
    let mut i: usize = 0;
    while i < 32
        invariant
            off + 32 <= v.len(),
            i <= 32,
            out@.len() == 32,
            forall|j: int| 0 <= j < i ==> out@[j] == v@[off + j],
        decreases 32 - i,
    {
        out.set(i, v[off + i]);
        i = i + 1;
    }
    assert(out@ =~= v@.subrange(off as int, off + 32));
    out
}

} // verus!
