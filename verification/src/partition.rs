//! Partition maps and the filesystems behind them.
//!
//! A partition map names partitions by where they start. What each of them holds is then read
//! from the image: the first bytes show an APFS container, the volume header shows HFS+.
use crate::apfs;
use crate::apfs::ApfsInfo;
use crate::bytes;
use crate::text;
use vstd::prelude::*;

verus! {

/// Bytes in a sector.
pub const SECTOR: u64 = 512;

/// How many bytes of the image hold its partition map: the protective MBR, the GPT header and
/// the usual entry table.
pub const HEAD_LEN: usize = 17408;

/// GPT partition type GUIDs, stored mixed-endian on disk (first three fields
/// little-endian), so these are the byte sequences as they actually appear.
pub const GUID_HFS: [u8; 16] = [
    0x00,
    0x53,
    0x46,
    0x48,
    0x00,
    0x00,
    0xaa,
    0x11,
    0xaa,
    0x11,
    0x00,
    0x30,
    0x65,
    0x43,
    0xec,
    0xac,
];

/// The type GUID of an APFS container.
pub const GUID_APFS: [u8; 16] = [
    0xef,
    0x57,
    0x34,
    0x7c,
    0x00,
    0x00,
    0xaa,
    0x11,
    0xaa,
    0x11,
    0x00,
    0x30,
    0x65,
    0x43,
    0xec,
    0xac,
];

/// The type GUID of an EFI system partition.
pub const GUID_EFI: [u8; 16] = [
    0x28,
    0x73,
    0x2a,
    0xc1,
    0x1f,
    0xf8,
    0xd2,
    0x11,
    0xba,
    0x4b,
    0x00,
    0xa0,
    0xc9,
    0x3e,
    0xc9,
    0x3b,
];

/// `EFI PART`, the signature of a GPT header.
pub const GPT_SIGNATURE: [u8; 8] = [0x45, 0x46, 0x49, 0x20, 0x50, 0x41, 0x52, 0x54];

/// `ER`, the signature of the driver descriptor that opens an Apple Partition Map.
pub const APM_SIGNATURE: [u8; 2] = [0x45, 0x52];

/// `PM`, the signature of an Apple Partition Map entry.
pub const PM_SIGNATURE: [u8; 2] = [0x50, 0x4d];

/// `H+`, the signature of an HFS+ volume header.
pub const HFS_PLUS_SIGNATURE: [u8; 2] = [0x48, 0x2b];

/// `HX`, the signature of an HFSX volume header.
pub const HFSX_SIGNATURE: [u8; 2] = [0x48, 0x58];

/// A partition found in the image's partition map.
#[derive(Debug, Clone)]
pub struct Partition {
    pub scheme: &'static str,
    pub kind: String,
    pub start_lba: u64,
    pub sectors: u64,
    pub filesystem: Option<&'static str>,
    pub apfs: Option<ApfsInfo>,
}

/// A partition as mathematical values.
pub struct PartitionModel {
    pub scheme: Seq<char>,
    pub kind: Seq<char>,
    pub start_lba: u64,
    pub sectors: u64,
    pub filesystem: Option<Seq<char>>,
    pub apfs: Option<ApfsInfo>,
}

/// The characters of an optional string.
pub open spec fn text_of(s: Option<&'static str>) -> Option<Seq<char>> {
    match s {
        Some(t) => Some(t@),
        None => None,
    }
}

impl View for Partition {
    type V = PartitionModel;

    open spec fn view(&self) -> PartitionModel {
        PartitionModel {
            scheme: self.scheme@,
            kind: self.kind@,
            start_lba: self.start_lba,
            sectors: self.sectors,
            filesystem: text_of(self.filesystem),
            apfs: self.apfs,
        }
    }
}

/// What a partition map says of one partition.
#[derive(Debug)]
pub struct PartitionEntry {
    pub scheme: &'static str,
    pub kind: String,
    pub start_lba: u64,
    /// How many sectors it has, unless the count exceeds 64 bits.
    pub sectors: Option<u64>,
    /// Whether an APFS container found there has its superblock read.
    pub reads_superblock: bool,
}

/// A partition map entry as mathematical values.
pub struct EntryModel {
    pub scheme: Seq<char>,
    pub kind: Seq<char>,
    pub start_lba: u64,
    pub sectors: Option<u64>,
    pub reads_superblock: bool,
}

impl View for PartitionEntry {
    type V = EntryModel;

    open spec fn view(&self) -> EntryModel {
        EntryModel {
            scheme: self.scheme@,
            kind: self.kind@,
            start_lba: self.start_lba,
            sectors: self.sectors,
            reads_superblock: self.reads_superblock,
        }
    }
}

/// The entries of a vector as mathematical values.
pub open spec fn entry_models(v: Seq<PartitionEntry>) -> Seq<EntryModel> {
    v.map_values(|e: PartitionEntry| e@)
}

/// The partitions of a vector as mathematical values.
pub open spec fn partition_models(v: Seq<Partition>) -> Seq<PartitionModel> {
    v.map_values(|p: Partition| p@)
}

// ---------------------------------------------------------------------------
// Layout
// ---------------------------------------------------------------------------

/// What the start of an image shows of its partition map.
#[derive(Debug, Clone, Copy, PartialEq, Eq, Structural)]
pub enum Layout {
    /// A GUID partition table.
    Gpt,
    /// An Apple Partition Map.
    Apm,
    /// Nothing but zeros.
    Blank,
    /// Neither signature, and not blank.
    Unknown,
}

/// The layout that the start of an image shows. A GPT header in the second sector wins over an
/// Apple Partition Map in the first.
pub open spec fn layout(head: Seq<u8>) -> Layout {
    if bytes::has_bytes(head, SECTOR as int, GPT_SIGNATURE@) {
        Layout::Gpt
    } else if bytes::has_bytes(head, 0, APM_SIGNATURE@) {
        Layout::Apm
    } else if bytes::zero_prefix(head, SECTOR as int) {
        Layout::Blank
    } else {
        Layout::Unknown
    }
}

/// The layout that the start of an image shows.
pub fn read_layout(head: &[u8]) -> (r: Layout)
    requires
        head@.len() >= 520,
    ensures
        r == layout(head@),
{
    if bytes::bytes_at(head, 512, &GPT_SIGNATURE) {
        Layout::Gpt
    } else if bytes::bytes_at(head, 0, &APM_SIGNATURE) {
        Layout::Apm
    } else if bytes::is_zero_prefix(head, 512) {
        Layout::Blank
    } else {
        Layout::Unknown
    }
}

// ---------------------------------------------------------------------------
// GUID partition table
// ---------------------------------------------------------------------------

/// Where the entry table of a GPT lies and how it is cut into entries.
#[derive(Debug, Clone, Copy, PartialEq, Eq, Structural)]
pub struct GptTable {
    pub entry_lba: u64,
    pub n_entries: usize,
    pub entry_size: usize,
}

impl GptTable {
    /// The geometry is one that is read.
    pub open spec fn wf(self) -> bool {
        &&& 128 <= self.entry_size <= 4096
        &&& self.n_entries <= 1024
    }

    /// Length of the table in bytes.
    pub open spec fn len(self) -> int {
        self.n_entries * self.entry_size
    }

    /// A table that is read takes at most four mebibytes.
    pub proof fn len_is_bounded(self)
        requires
            self.wf(),
        ensures
            0 <= self.len() <= 0x40_0000,
    {
        assert(0 <= self.n_entries * self.entry_size <= 1024 * 4096) by (nonlinear_arith)
            requires
                0 <= self.n_entries <= 1024,
                0 <= self.entry_size <= 4096,
        ;
    }

    /// Length of the table in bytes.
    pub fn byte_len(&self) -> (r: usize)
        requires
            self.wf(),
        ensures
            r == self.len(),
    {
        proof {
            self.len_is_bounded();
        }
        self.n_entries * self.entry_size
    }
}

/// The entry table that the GPT header in `head` describes, unless its geometry is implausible:
/// entries below 128 or above 4096 bytes, or more than 1024 of them.
pub open spec fn gpt_table(head: Seq<u8>) -> Option<GptTable> {
    let n_entries = bytes::u32_le(head, 592);
    let entry_size = bytes::u32_le(head, 596);
    if entry_size < 128 || entry_size > 4096 || n_entries > 1024 {
        None
    } else {
        Some(
            GptTable {
                entry_lba: bytes::u64_le(head, 584) as u64,
                n_entries: n_entries as usize,
                entry_size: entry_size as usize,
            },
        )
    }
}

/// Reads the GPT header in the second sector of `head`.
pub fn parse_gpt_header(head: &[u8]) -> (r: Option<GptTable>)
    requires
        head@.len() >= 600,
    ensures
        r == gpt_table(head@),
        r matches Some(t) ==> t.wf(),
{
    let entry_lba: u64 = bytes::read_u64_le(head, 584);
    let n_entries: usize = bytes::read_u32_le(head, 592) as usize;
    let entry_size: usize = bytes::read_u32_le(head, 596) as usize;
    if entry_size < 128 || entry_size > 4096 || n_entries > 1024 {
        return None;
    }
    Some(GptTable { entry_lba, n_entries, entry_size })
}

/// The name of a GPT partition type.
pub open spec fn gpt_kind(guid: Seq<u8>) -> Seq<char> {
    if guid == GUID_HFS@ {
        "Apple_HFS"@
    } else if guid == GUID_APFS@ {
        "Apple_APFS"@
    } else if guid == GUID_EFI@ {
        "EFI"@
    } else {
        "other"@
    }
}

/// The sectors from `start` to `end` inclusive, one at least; nothing if the count exceeds 64 bits.
pub open spec fn sector_count(start: u64, end: u64) -> Option<u64> {
    let gap = if end >= start {
        end - start
    } else {
        0
    };
    if gap + 1 <= u64::MAX {
        Some((gap + 1) as u64)
    } else {
        None
    }
}

/// What one used slot of the table says.
pub open spec fn gpt_entry(e: Seq<u8>) -> EntryModel {
    let start = bytes::u64_le(e, 32) as u64;
    let end = bytes::u64_le(e, 40) as u64;
    EntryModel {
        scheme: "GPT"@,
        kind: gpt_kind(e.subrange(0, 16)),
        start_lba: start,
        sectors: sector_count(start, end),
        reads_superblock: true,
    }
}

/// Slot `i` of a table.
pub open spec fn slot(table: Seq<u8>, entry_size: int, i: int) -> Seq<u8> {
    table.subrange(i * entry_size, i * entry_size + entry_size)
}

/// What the first `n` slots of a table say. A slot whose type GUID is all zero is unused.
pub open spec fn gpt_entries(table: Seq<u8>, entry_size: int, n: nat) -> Seq<EntryModel>
    decreases n,
{
    if n == 0 {
        Seq::empty()
    } else {
        let before = gpt_entries(table, entry_size, (n - 1) as nat);
        let e = slot(table, entry_size, n - 1);
        if bytes::zero_prefix(e, 16) {
            before
        } else {
            before.push(gpt_entry(e))
        }
    }
}

/// The name of the type of the GPT entry `e`.
fn kind_of(e: &[u8]) -> (r: String)
    requires
        e@.len() >= 16,
    ensures
        r@ == gpt_kind(e@.subrange(0, 16)),
{
    if bytes::bytes_at(e, 0, &GUID_HFS) {
        "Apple_HFS".to_string()
    } else if bytes::bytes_at(e, 0, &GUID_APFS) {
        "Apple_APFS".to_string()
    } else if bytes::bytes_at(e, 0, &GUID_EFI) {
        "EFI".to_string()
    } else {
        "other".to_string()
    }
}

/// Reads a GPT entry table: one entry for each used slot, in table order.
pub fn parse_gpt(table: &[u8], geometry: &GptTable) -> (r: Vec<PartitionEntry>)
    requires
        geometry.wf(),
        table@.len() == geometry.len(),
    ensures
        entry_models(r@) == gpt_entries(
            table@,
            geometry.entry_size as int,
            geometry.n_entries as nat,
        ),
{
    let size: usize = geometry.entry_size;
    let n: usize = geometry.n_entries;
    let mut out: Vec<PartitionEntry> = Vec::new();
    let mut i: usize = 0;
    assert(entry_models(out@) == gpt_entries(table@, size as int, 0));
    while i < n
        invariant
            i <= n <= 1024,
            128 <= size <= 4096,
            table@.len() == n * size,
            entry_models(out@) == gpt_entries(table@, size as int, i as nat),
        decreases n - i,
    {
        assert(0 <= i * size && i * size + size <= n * size && n * size <= 1024 * 4096)
            by (nonlinear_arith)
            requires
                0 <= i < n <= 1024,
                128 <= size <= 4096,
        ;
        let from: usize = i * size;
        let e: &[u8] = vstd::slice::slice_subrange(table, from, from + size);
        assert(e@ == slot(table@, size as int, i as int));
        if !bytes::is_zero_prefix(e, 16) {
            let start: u64 = bytes::read_u64_le(e, 32);
            let end: u64 = bytes::read_u64_le(e, 40);
            let gap: u64 = if end >= start {
                end - start
            } else {
                0
            };
            let entry: PartitionEntry = PartitionEntry {
                scheme: "GPT",
                kind: kind_of(e),
                start_lba: start,
                sectors: gap.checked_add(1),
                reads_superblock: true,
            };
            let ghost before = out@;
            assert(entry@ == gpt_entry(e@));
            out.push(entry);
            assert(entry_models(out@) == entry_models(before).push(entry@));
        }
        i = i + 1;
    }
    out
}

// ---------------------------------------------------------------------------
// Apple Partition Map
// ---------------------------------------------------------------------------

/// What `String::from_utf8_lossy` of the standard library makes of bytes.
pub uninterp spec fn utf8_lossy(bytes: Seq<u8>) -> Seq<char>;

/// Calls `String::from_utf8_lossy` of the standard library. Its text is a function of the bytes;
/// bytes that are valid UTF-8 are decoded as they are. How invalid bytes are replaced is left
/// open.
#[verifier::external_body]
fn lossy_text(bytes: &[u8]) -> (r: String)
    ensures
        r@ == utf8_lossy(bytes@),
        vstd::utf8::valid_utf8(bytes@) ==> r@ == vstd::utf8::decode_utf8(bytes@),
{
    String::from_utf8_lossy(bytes).into_owned()
}

/// The partition type in a NUL-padded field: the padding goes first, then white space at either
/// end.
pub open spec fn apm_kind(field: Seq<char>) -> Seq<char> {
    text::trim(text::trim_end_nul(field))
}

/// The partition type in a NUL-padded field.
pub fn trim_apm_kind(field: &str) -> (r: String)
    ensures
        r@ == apm_kind(field@),
{
    let chars: Vec<char> = text::chars_of(field);
    let end: usize = text::trim_end_nul_bound(&chars, chars.len());
    assert(chars@.subrange(0, chars@.len() as int) == chars@);
    let bounds: (usize, usize) = text::trim_bounds(&chars, 0, end);
    text::string_of(&chars, bounds.0, bounds.1)
}

/// The partition type field of sector `i` of an Apple Partition Map.
pub open spec fn apm_field(head: Seq<u8>, i: int) -> Seq<u8> {
    head.subrange(i * SECTOR + 48, i * SECTOR + 80)
}

/// What one sector of an Apple Partition Map says.
pub open spec fn apm_entry(e: Seq<u8>) -> EntryModel {
    EntryModel {
        scheme: "APM"@,
        kind: apm_kind(utf8_lossy(e.subrange(48, 80))),
        start_lba: bytes::u32_be(e, 8) as u64,
        sectors: Some(bytes::u32_be(e, 12) as u64),
        reads_superblock: false,
    }
}

/// What an Apple Partition Map says from sector `i` on. Entries follow each other up to the
/// sixteenth sector; the first sector without the signature ends them.
pub open spec fn apm_entries(head: Seq<u8>, i: nat) -> Seq<EntryModel>
    decreases 16 - i,
{
    if i >= 16 || (i + 1) * SECTOR > head.len() || !bytes::has_bytes(
        head,
        i * SECTOR,
        PM_SIGNATURE@,
    ) {
        Seq::empty()
    } else {
        seq![apm_entry(head.subrange(i * SECTOR, (i + 1) * SECTOR))] + apm_entries(head, i + 1)
    }
}

/// Reads an Apple Partition Map, in map order: entry `j` comes from sector `j + 1`.
pub fn parse_apm(head: &[u8]) -> (r: Vec<PartitionEntry>)
    ensures
        entry_models(r@) == apm_entries(head@, 1),
        forall|j: int|
            0 <= j < r@.len() && vstd::utf8::valid_utf8(apm_field(head@, j + 1))
                ==> (#[trigger] r@[j]).kind@ == apm_kind(
                vstd::utf8::decode_utf8(apm_field(head@, j + 1)),
            ),
{
    assert(head@.len() == head.len());
    let mut out: Vec<PartitionEntry> = Vec::new();
    let mut i: usize = 1;
    assert(entry_models(out@) + apm_entries(head@, 1) == apm_entries(head@, 1));
    while i < 16
        invariant
            1 <= i <= 16,
            out@.len() == i - 1,
            forall|j: int|
                0 <= j < out@.len() && vstd::utf8::valid_utf8(apm_field(head@, j + 1))
                    ==> (#[trigger] out@[j]).kind@ == apm_kind(
                    vstd::utf8::decode_utf8(apm_field(head@, j + 1)),
                ),
            entry_models(out@) + apm_entries(head@, i as nat) == apm_entries(head@, 1),
        decreases 16 - i,
    {
        let from: usize = i * 512;
        if from + 512 > head.len() || !bytes::bytes_at(head, from, &PM_SIGNATURE) {
            assert(entry_models(out@) == entry_models(out@) + Seq::<EntryModel>::empty());
            return out;
        }
        let e: &[u8] = vstd::slice::slice_subrange(head, from, from + 512);
        assert(e@.subrange(48, 80) == apm_field(head@, i as int));
        let field: String = lossy_text(vstd::slice::slice_subrange(e, 48, 80));
        let entry: PartitionEntry = PartitionEntry {
            scheme: "APM",
            kind: trim_apm_kind(field.as_str()),
            start_lba: bytes::read_u32_be(e, 8) as u64,
            sectors: Some(bytes::read_u32_be(e, 12) as u64),
            reads_superblock: false,
        };
        let ghost before = entry_models(out@);
        assert(entry@ == apm_entry(e@));
        out.push(entry);
        assert(entry_models(out@) == before.push(entry@));
        assert(before + (seq![entry@] + apm_entries(head@, (i + 1) as nat)) == before.push(entry@)
            + apm_entries(head@, (i + 1) as nat));
        i = i + 1;
    }
    assert(entry_models(out@) == entry_models(out@) + Seq::<EntryModel>::empty());
    out
}

// ---------------------------------------------------------------------------
// Filesystems
// ---------------------------------------------------------------------------

/// The first bytes of a partition show an APFS container.
pub open spec fn is_apfs(sb: Seq<u8>) -> bool {
    bytes::has_bytes(sb, 32, apfs::NX_MAGIC@)
}

/// The filesystem that the first bytes of an HFS+ volume header show.
pub open spec fn hfs_name(vh: Seq<u8>) -> Option<Seq<char>> {
    if bytes::has_bytes(vh, 0, HFS_PLUS_SIGNATURE@) {
        Some("HFS+"@)
    } else if bytes::has_bytes(vh, 0, HFSX_SIGNATURE@) {
        Some("HFSX"@)
    } else {
        None
    }
}

/// What is known of a partition's filesystem.
#[derive(Debug, Clone, Copy)]
pub enum Probe {
    /// The filesystem, if it is a recognised one.
    Filesystem(Option<&'static str>),
    /// The start of the volume header has to be read first.
    NeedsVolumeHeader,
}

/// Identify the filesystem at a partition start, from the first bytes of the partition and,
/// where these show no APFS container, from the start of its volume header.
pub fn probe_fs(sb: &[u8], vh: Option<&[u8]>) -> (r: Probe)
    requires
        sb@.len() >= 36,
        vh matches Some(v) ==> v@.len() >= 2,
    ensures
        match r {
            Probe::Filesystem(fs) => if is_apfs(sb@) {
                text_of(fs) == Some("APFS"@)
            } else {
                vh matches Some(v) && text_of(fs) == hfs_name(v@)
            },
            Probe::NeedsVolumeHeader => !is_apfs(sb@) && vh is None,
        },
{
    if bytes::bytes_at(sb, 32, &apfs::NX_MAGIC) {
        return Probe::Filesystem(Some("APFS"));
    }
    match vh {
        None => Probe::NeedsVolumeHeader,
        Some(v) => {
            if bytes::bytes_at(v, 0, &HFS_PLUS_SIGNATURE) {
                Probe::Filesystem(Some("HFS+"))
            } else if bytes::bytes_at(v, 0, &HFSX_SIGNATURE) {
                Probe::Filesystem(Some("HFSX"))
            } else {
                Probe::Filesystem(None)
            }
        },
    }
}

} // verus!
