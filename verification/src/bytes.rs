//! Little-endian fields inside byte buffers.
use vstd::prelude::*;
use vstd::utf8::{encode_utf8, valid_utf8};

verus! {

/// Whether `n` is a power of two.
pub open spec fn is_power_of_two(n: u64) -> bool {
    n != 0 && n & ((n - 1) as u64) == 0
}

/// The 16-bit little-endian value of the two bytes at `at`.
pub open spec fn le16(s: Seq<u8>, at: int) -> int {
    s[at] as int + 0x100 * (s[at + 1] as int)
}

/// The 32-bit little-endian value of the four bytes at `at`.
pub open spec fn le32(s: Seq<u8>, at: int) -> int {
    le16(s, at) + 0x1_0000 * le16(s, at + 2)
}

/// The 64-bit little-endian value of the eight bytes at `at`.
pub open spec fn le64(s: Seq<u8>, at: int) -> int {
    le32(s, at) + 0x1_0000_0000 * le32(s, at + 4)
}

/// Reads a little-endian `u16` at offset `at`.
pub fn read_u16(s: &[u8], at: usize) -> (r: u16)
    requires
        at + 2 <= s@.len(),
    ensures
        r as int == le16(s@, at as int),
{
    (s[at] as u16) + 0x100 * (s[at + 1] as u16)
}

/// Reads a little-endian `u32` at offset `at`.
pub fn read_u32(s: &[u8], at: usize) -> (r: u32)
    requires
        at + 4 <= s@.len(),
    ensures
        r as int == le32(s@, at as int),
{
    let _n = s.len();
    (read_u16(s, at) as u32) + 0x1_0000 * (read_u16(s, at + 2) as u32)
}

/// Reads a little-endian `u64` at offset `at`.
pub fn read_u64(s: &[u8], at: usize) -> (r: u64)
    requires
        at + 8 <= s@.len(),
    ensures
        r as int == le64(s@, at as int),
{
    let _n = s.len();
    (read_u32(s, at) as u64) + 0x1_0000_0000 * (read_u32(s, at + 4) as u64)
}

/// Copies `N` bytes starting at `at` into an array.
pub fn read_array<const N: usize>(s: &[u8], at: usize) -> (r: [u8; N])
    requires
        at + N <= s@.len(),
    ensures
        r@ == s@.subrange(at as int, at + N),
{
    let n = s.len();
    let mut out: [u8; N] = [0u8; N];
    let mut i: usize = 0;
    while i < N
        invariant
            i <= N,
            n == s@.len(),
            at + N <= s@.len(),
            forall|j: int| 0 <= j < i ==> out@[j] == s@[at + j],
        decreases N - i,
    {
        out[i] = s[at + i];
        i += 1;
    }
    assert(out@ =~= s@.subrange(at as int, at + N));
    out
}

/// Byte `k` (counted from the least significant) of `v`.
pub open spec fn byte_of(v: int, k: nat) -> u8
    decreases k,
{
    if k == 0 {
        (v % 0x100) as u8
    } else {
        byte_of(v / 0x100, (k - 1) as nat)
    }
}

/// The `n` low bytes of `v`, least significant first.
pub open spec fn le_bytes(v: int, n: nat) -> Seq<u8> {
    Seq::new(n, |k: int| byte_of(v, k as nat))
}

/// The two bytes of a `u16`, least significant first.
pub fn u16_to_le(v: u16) -> (r: [u8; 2])
    ensures
        r@ == le_bytes(v as int, 2),
{
    let r = [(v % 0x100) as u8, (v / 0x100) as u8];
    proof {
        reveal_with_fuel(byte_of, 3);
        assert(r@ =~= le_bytes(v as int, 2));
    }
    r
}

/// The four bytes of a `u32`, least significant first.
pub fn u32_to_le(v: u32) -> (r: [u8; 4])
    ensures
        r@ == le_bytes(v as int, 4),
{
    let r = [
        (v % 0x100) as u8,
        (v / 0x100 % 0x100) as u8,
        (v / 0x1_0000 % 0x100) as u8,
        (v / 0x100_0000) as u8,
    ];
    proof {
        reveal_with_fuel(byte_of, 5);
        assert(r@ =~= le_bytes(v as int, 4));
    }
    r
}

/// The eight bytes of a `u64`, least significant first.
pub fn u64_to_le(v: u64) -> (r: [u8; 8])
    ensures
        r@ == le_bytes(v as int, 8),
{
    let r = [
        (v % 0x100) as u8,
        (v / 0x100 % 0x100) as u8,
        (v / 0x1_0000 % 0x100) as u8,
        (v / 0x100_0000 % 0x100) as u8,
        (v / 0x1_0000_0000 % 0x100) as u8,
        (v / 0x100_0000_0000 % 0x100) as u8,
        (v / 0x1_0000_0000_0000 % 0x100) as u8,
        (v / 0x100_0000_0000_0000) as u8,
    ];
    proof {
        reveal_with_fuel(byte_of, 9);
        assert(r@ =~= le_bytes(v as int, 8));
    }
    r
}

/// `String::from_utf8` on a copy of the bytes: it succeeds exactly on valid
/// UTF-8, and the string it then returns is the one that these bytes encode.
#[verifier::external_body]
pub(crate) fn utf8_to_string(bytes: &[u8]) -> (r: Option<String>)
    ensures
        r is Some <==> valid_utf8(bytes@),
        r is Some ==> encode_utf8(r.unwrap()@) == bytes@,
{
    String::from_utf8(bytes.to_vec()).ok()
}

} // verus!
