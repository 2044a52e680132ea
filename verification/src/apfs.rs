//! The APFS container superblock.
use crate::bytes;
use vstd::prelude::*;

verus! {

/// `NXSB`, the magic of an APFS container superblock.
pub const NX_MAGIC: [u8; 4] = [0x4e, 0x58, 0x53, 0x42];

/// How many bytes of a container superblock are read: up to the end of `nx_keylocker`.
pub const SUPERBLOCK_LEN: usize = 0x618;

/// Details read out of an APFS container superblock.
#[derive(Debug, Clone)]
pub struct ApfsInfo {
    pub block_size: u32,
    pub block_count: u64,
    pub incompatible_features: u64,
    /// The container keybag (`nx_keylocker`, offset 0x608). A non-empty range
    /// means encryption key material exists for this container.
    pub keylocker_blocks: u64,
}

impl Default for ApfsInfo {
    fn default() -> (r: Self)
        ensures
            r == (ApfsInfo {
                block_size: 0,
                block_count: 0,
                incompatible_features: 0,
                keylocker_blocks: 0,
            }),
    {
        ApfsInfo { block_size: 0, block_count: 0, incompatible_features: 0, keylocker_blocks: 0 }
    }
}

/// What the container superblock alone can tell us about encryption.
///
/// Deliberately not a boolean. A container-level keybag says nothing
/// definitive about every volume inside, and its absence is not proof that
/// everything is readable.
#[derive(Debug, Clone, Copy, PartialEq, Eq, Structural)]
pub enum EncryptionEvidence {
    /// nx_keylocker range is empty. Suggestive, not conclusive.
    NoContainerKeybagObserved,
    /// A container keybag exists: encryption is in play somewhere.
    ContainerKeybagObserved,
    /// Superblock unreadable or unparsed.
    Unknown,
}

impl EncryptionEvidence {
    /// The words for this evidence.
    pub open spec fn label_text(self) -> Seq<char> {
        match self {
            EncryptionEvidence::NoContainerKeybagObserved => "no container keybag observed"@,
            EncryptionEvidence::ContainerKeybagObserved => "CONTAINER KEYBAG OBSERVED"@,
            EncryptionEvidence::Unknown => "encryption state unknown"@,
        }
    }

    /// The words for this evidence.
    pub fn label(self) -> (r: &'static str)
        ensures
            r@ == self.label_text(),
    {
        match self {
            EncryptionEvidence::NoContainerKeybagObserved => "no container keybag observed",
            EncryptionEvidence::ContainerKeybagObserved => "CONTAINER KEYBAG OBSERVED",
            EncryptionEvidence::Unknown => "encryption state unknown",
        }
    }
}

impl ApfsInfo {
    /// The container has a non-empty keybag.
    pub open spec fn has_keybag(self) -> bool {
        self.keylocker_blocks > 0
    }

    /// What this superblock says about encryption.
    pub fn encryption_evidence(&self) -> (r: EncryptionEvidence)
        ensures
            r == (if self.has_keybag() {
                EncryptionEvidence::ContainerKeybagObserved
            } else {
                EncryptionEvidence::NoContainerKeybagObserved
            }),
            r == EncryptionEvidence::ContainerKeybagObserved <==> self.keylocker_blocks > 0,
            r == EncryptionEvidence::NoContainerKeybagObserved <==> self.keylocker_blocks == 0,
    {
        if self.keylocker_blocks > 0 {
            EncryptionEvidence::ContainerKeybagObserved
        } else {
            EncryptionEvidence::NoContainerKeybagObserved
        }
    }
}

/// What a container superblock says: nothing if the buffer is too short or the magic is not
/// there, else the fields at their offsets.
pub open spec fn superblock(sb: Seq<u8>) -> Option<ApfsInfo> {
    if sb.len() < SUPERBLOCK_LEN || !bytes::has_bytes(sb, 0x20, NX_MAGIC@) {
        None
    } else {
        Some(
            ApfsInfo {
                block_size: bytes::u32_le(sb, 0x24) as u32,
                block_count: bytes::u64_le(sb, 0x28) as u64,
                incompatible_features: bytes::u64_le(sb, 0x40) as u64,
                keylocker_blocks: bytes::u64_le(sb, 0x610) as u64,
            },
        )
    }
}

/// Parse the APFS container superblock.
///
/// Offsets from the Apple File System Reference: nx_magic 0x20,
/// nx_block_size 0x24, nx_block_count 0x28, nx_incompatible_features 0x40,
/// nx_keylocker 0x608 (prange: paddr, count).
pub fn parse_apfs_superblock(sb: &[u8]) -> (r: Option<ApfsInfo>)
    ensures
        r == superblock(sb@),
{
    if sb.len() < SUPERBLOCK_LEN || !bytes::bytes_at(sb, 0x20, &NX_MAGIC) {
        return None;
    }
    Some(
        ApfsInfo {
            block_size: bytes::read_u32_le(sb, 0x24),
            block_count: bytes::read_u64_le(sb, 0x28),
            incompatible_features: bytes::read_u64_le(sb, 0x40),
            keylocker_blocks: bytes::read_u64_le(sb, 0x610),
        },
    )
}

} // verus!
