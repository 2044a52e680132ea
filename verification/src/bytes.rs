//! Fixed-width fields in a byte buffer.
use vstd::prelude::*;

verus! {

/// The little-endian 32-bit field of `s` at `at`.
pub open spec fn u32_le(s: Seq<u8>, at: int) -> nat {
    (s[at] + 0x100 * s[at + 1] + 0x1_0000 * s[at + 2] + 0x100_0000 * s[at + 3]) as nat
}

/// The big-endian 32-bit field of `s` at `at`.
pub open spec fn u32_be(s: Seq<u8>, at: int) -> nat {
    (0x100_0000 * s[at] + 0x1_0000 * s[at + 1] + 0x100 * s[at + 2] + s[at + 3]) as nat
}

/// The little-endian 64-bit field of `s` at `at`: the low half comes first.
pub open spec fn u64_le(s: Seq<u8>, at: int) -> nat {
    u32_le(s, at) + 0x1_0000_0000 * u32_le(s, at + 4)
}

/// The bytes of `pattern` stand in `s` at `at`.
pub open spec fn has_bytes(s: Seq<u8>, at: int, pattern: Seq<u8>) -> bool {
    s.subrange(at, at + pattern.len()) == pattern
}

/// Reads a little-endian 32-bit field.
pub fn read_u32_le(s: &[u8], at: usize) -> (r: u32)
    requires
        at + 4 <= s@.len(),
    ensures
        r == u32_le(s@, at as int),
{
    s[at] as u32 + 0x100 * s[at + 1] as u32 + 0x1_0000 * s[at + 2] as u32 + 0x100_0000 * s[at
        + 3] as u32
}

/// Reads a big-endian 32-bit field.
pub fn read_u32_be(s: &[u8], at: usize) -> (r: u32)
    requires
        at + 4 <= s@.len(),
    ensures
        r == u32_be(s@, at as int),
{
    0x100_0000 * s[at] as u32 + 0x1_0000 * s[at + 1] as u32 + 0x100 * s[at + 2] as u32 + s[at
        + 3] as u32
}

/// Reads a little-endian 64-bit field.
pub fn read_u64_le(s: &[u8], at: usize) -> (r: u64)
    requires
        at + 8 <= s@.len(),
    ensures
        r == u64_le(s@, at as int),
{
    assert(s@.len() == s.len());
    read_u32_le(s, at) as u64 + 0x1_0000_0000 * read_u32_le(s, at + 4) as u64
}

/// Whether the bytes of `pattern` stand in `s` at `at`.
pub fn bytes_at(s: &[u8], at: usize, pattern: &[u8]) -> (r: bool)
    requires
        at + pattern@.len() <= s@.len(),
    ensures
        r == has_bytes(s@, at as int, pattern@),
{
    assert(s@.len() == s.len());
    let mut i: usize = 0;
    while i < pattern.len()
        invariant
            at + pattern@.len() <= s@.len() <= usize::MAX,
            i <= pattern@.len(),
            forall|j: int| 0 <= j < i ==> s@[at + j] == pattern@[j],
        decreases pattern@.len() - i,
    {
        if s[at + i] != pattern[i] {
            assert(s@.subrange(at as int, at + pattern@.len())[i as int] != pattern@[i as int]);
            return false;
        }
        i = i + 1;
    }
    assert(s@.subrange(at as int, at + pattern@.len()) == pattern@);
    true
}

/// The first `n` bytes of `s` are all zero.
pub open spec fn zero_prefix(s: Seq<u8>, n: int) -> bool {
    forall|i: int| 0 <= i < n ==> s[i] == 0
}

/// Whether the first `n` bytes of `s` are all zero.
pub fn is_zero_prefix(s: &[u8], n: usize) -> (r: bool)
    requires
        n <= s@.len(),
    ensures
        r == zero_prefix(s@, n as int),
{
    let mut i: usize = 0;
    while i < n
        invariant
            i <= n <= s@.len(),
            zero_prefix(s@, i as int),
        decreases n - i,
    {
        if s[i] != 0 {
            return false;
        }
        i = i + 1;
    }
    true
}

} // verus!
