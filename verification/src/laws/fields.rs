//! What the fields of a buffer and of a container superblock are, byte by byte.
use crate::apfs;
use crate::apfs::{ApfsInfo, EncryptionEvidence};
use crate::bytes;
use vstd::prelude::*;

verus! {

/// A 32-bit number written low byte first is read back.
pub proof fn little_endian_32_is_read_back(s: Seq<u8>, at: int, x: u32)
    requires
        s[at] == x % 256,
        s[at + 1] == x / 256 % 256,
        s[at + 2] == x / 65536 % 256,
        s[at + 3] == x / 16777216,
    ensures
        bytes::u32_le(s, at) == x,
{
}

/// A 32-bit number written high byte first is read back.
pub proof fn big_endian_32_is_read_back(s: Seq<u8>, at: int, x: u32)
    requires
        s[at + 3] == x % 256,
        s[at + 2] == x / 256 % 256,
        s[at + 1] == x / 65536 % 256,
        s[at] == x / 16777216,
    ensures
        bytes::u32_be(s, at) == x,
{
}

/// A 64-bit number is two 32-bit ones, the low one first.
pub proof fn little_endian_64_is_two_halves(s: Seq<u8>, at: int, low: u32, high: u32)
    requires
        bytes::u32_le(s, at) == low,
        bytes::u32_le(s, at + 4) == high,
    ensures
        bytes::u64_le(s, at) % 0x1_0000_0000 == low,
        bytes::u64_le(s, at) / 0x1_0000_0000 == high,
{
}

/// A pattern stands where each of its bytes stands.
pub proof fn pattern_is_byte_by_byte(s: Seq<u8>, at: int, pattern: Seq<u8>)
    requires
        0 <= at,
        at + pattern.len() <= s.len(),
    ensures
        bytes::has_bytes(s, at, pattern) <==> forall|j: int|
            0 <= j < pattern.len() ==> s[at + j] == #[trigger] pattern[j],
{
    let here = s.subrange(at, at + pattern.len());
    if bytes::has_bytes(s, at, pattern) {
        assert forall|j: int| 0 <= j < pattern.len() implies s[at + j] == #[trigger] pattern[j] by {
            assert(here[j] == pattern[j]);
        }
    } else if forall|j: int| 0 <= j < pattern.len() ==> s[at + j] == #[trigger] pattern[j] {
        assert(here == pattern);
    }
}

/// A stretch of zeros may be any number of bytes long, and one other byte in it ends it.
pub proof fn zeros_end_with_another_byte(s: Seq<u8>, n: int, i: int)
    requires
        0 <= i < n <= s.len(),
    ensures
        bytes::zero_prefix(Seq::new(n as nat, |k: int| 0u8) + s, n),
        s[i] != 0 ==> !bytes::zero_prefix(s, n),
        bytes::zero_prefix(s, i) && (forall|k: int| i <= k < n ==> #[trigger] s[k] == 0)
            ==> bytes::zero_prefix(s, n),
{
}

/// A container superblock says something exactly where the buffer reaches to the end of the
/// keybag's range and `NXSB` stands at 0x20. The fields are those at 0x24, 0x28, 0x40 and 0x610.
pub proof fn superblock_is_read_by_offset(sb: Seq<u8>)
    ensures
        apfs::superblock(sb) is Some <==> sb.len() >= 0x618 && sb[0x20] == 78 && sb[0x21] == 88
            && sb[0x22] == 83 && sb[0x23] == 66,
        apfs::superblock(sb) matches Some(a) ==> {
            &&& a.block_size == bytes::u32_le(sb, 0x24)
            &&& a.block_count == bytes::u64_le(sb, 0x28)
            &&& a.incompatible_features == bytes::u64_le(sb, 0x40)
            &&& a.keylocker_blocks == bytes::u64_le(sb, 0x610)
        },
{
    if sb.len() >= 0x618 {
        pattern_is_byte_by_byte(sb, 0x20, apfs::NX_MAGIC@);
        let m = apfs::NX_MAGIC@;
        assert(m.len() == 4 && m[0] == 78 && m[1] == 88 && m[2] == 83 && m[3] == 66);
        assert(0x20 + 0 == 0x20 && 0x20 + 1 == 0x21 && 0x20 + 2 == 0x22 && 0x20 + 3 == 0x23);
    }
}

/// Bytes of a superblock outside its magic and its four fields do not matter, and each field is
/// read from its own bytes.
pub proof fn superblock_fields_are_independent(sb: Seq<u8>, at: int, v: u8)
    requires
        sb.len() >= 0x618,
        0 <= at < sb.len(),
    ensures
        ({
            let changed = sb.update(at, v);
            match (apfs::superblock(sb), apfs::superblock(changed)) {
                (Some(a), Some(c)) => {
                    &&& !(0x24 <= at < 0x28) ==> a.block_size == c.block_size
                    &&& !(0x28 <= at < 0x30) ==> a.block_count == c.block_count
                    &&& !(0x40 <= at < 0x48) ==> a.incompatible_features == c.incompatible_features
                    &&& !(0x610 <= at < 0x618) ==> a.keylocker_blocks == c.keylocker_blocks
                },
                (None, None) => true,
                _ => 0x20 <= at < 0x24,
            }
        }),
{
    superblock_is_read_by_offset(sb);
    superblock_is_read_by_offset(sb.update(at, v));
}

/// A container has a keybag exactly where the range of its keybag is not empty, whatever else its
/// superblock says.
pub proof fn keybag_is_a_range_that_is_not_empty(a: ApfsInfo)
    ensures
        a.has_keybag() <==> a.keylocker_blocks > 0,
{
}

/// Two containers with keybag ranges of the same length are judged alike.
pub proof fn only_the_keybag_counts(a: ApfsInfo, c: ApfsInfo)
    requires
        a.keylocker_blocks == c.keylocker_blocks,
    ensures
        a.has_keybag() == c.has_keybag(),
        a.has_keybag() ==> a.keylocker_blocks != 0,
        !a.has_keybag() ==> a.keylocker_blocks == 0,
{
}

/// Evidence is worded as what was observed.
pub proof fn evidence_is_worded(e: EncryptionEvidence)
    ensures
        e is NoContainerKeybagObserved ==> e.label_text() == "no container keybag observed"@,
        e is ContainerKeybagObserved ==> e.label_text() == "CONTAINER KEYBAG OBSERVED"@,
        e is Unknown ==> e.label_text() == "encryption state unknown"@,
{
}

} // verus!
