//! What a partition map says, byte by byte.
use crate::bytes;
use crate::laws::fields;
use crate::partition;
use crate::partition::{EntryModel, Layout};
use crate::text;
use vstd::prelude::*;

verus! {

/// The start of an image shows a GPT exactly where `EFI PART` opens the second sector; else an
/// Apple Partition Map exactly where `ER` opens the first; else it is blank exactly where the
/// first sector is all zero.
pub proof fn layout_is_told_by_signatures(head: Seq<u8>)
    requires
        head.len() >= 520,
    ensures
        partition::layout(head) == Layout::Gpt <==> head[512] == 69 && head[513] == 70 && head[514]
            == 73 && head[515] == 32 && head[516] == 80 && head[517] == 65 && head[518] == 82
            && head[519] == 84,
        partition::layout(head) == Layout::Apm <==> partition::layout(head) != Layout::Gpt
            && head[0] == 69 && head[1] == 82,
        partition::layout(head) == Layout::Blank <==> partition::layout(head) != Layout::Gpt
            && forall|i: int| 0 <= i < 512 ==> #[trigger] head[i] == 0,
{
    let g = partition::GPT_SIGNATURE@;
    let a = partition::APM_SIGNATURE@;
    fields::pattern_is_byte_by_byte(head, 512, g);
    fields::pattern_is_byte_by_byte(head, 0, a);
    assert(g.len() == 8 && g[0] == 69 && g[1] == 70 && g[2] == 73 && g[3] == 32 && g[4] == 80
        && g[5] == 65 && g[6] == 82 && g[7] == 84);
    assert(a.len() == 2 && a[0] == 69 && a[1] == 82);
    assert(512 + 0 == 512 && 512 + 1 == 513 && 512 + 2 == 514 && 512 + 3 == 515 && 512 + 4 == 516
        && 512 + 5 == 517 && 512 + 6 == 518 && 512 + 7 == 519);
}

/// A GPT header describes a table where its entries have 128 to 4096 bytes and are 1024 at most:
/// the first sector of the table, the number of entries and their size stand at 584, 592 and 596.
pub proof fn gpt_header_is_read_by_offset(head: Seq<u8>)
    ensures
        partition::gpt_table(head) is Some <==> 128 <= bytes::u32_le(head, 596) <= 4096
            && bytes::u32_le(head, 592) <= 1024,
        partition::gpt_table(head) matches Some(t) ==> {
            &&& t.entry_lba == bytes::u64_le(head, 584)
            &&& t.n_entries == bytes::u32_le(head, 592)
            &&& t.entry_size == bytes::u32_le(head, 596)
            &&& t.len() == t.n_entries * t.entry_size
        },
{
}

/// Partition types are known by their GUIDs.
pub proof fn kind_is_told_by_guid(guid: Seq<u8>)
    ensures
        partition::gpt_kind(guid) == "Apple_HFS"@ <==> guid == seq![
            0u8,
            83,
            70,
            72,
            0,
            0,
            170,
            17,
            170,
            17,
            0,
            48,
            101,
            67,
            236,
            172,
        ],
        partition::gpt_kind(guid) == "Apple_APFS"@ <==> guid == seq![
            239u8,
            87,
            52,
            124,
            0,
            0,
            170,
            17,
            170,
            17,
            0,
            48,
            101,
            67,
            236,
            172,
        ],
        partition::gpt_kind(guid) == "EFI"@ <==> guid == seq![
            40u8,
            115,
            42,
            193,
            31,
            248,
            210,
            17,
            186,
            75,
            0,
            160,
            201,
            62,
            201,
            59,
        ],
        ({
            ||| partition::gpt_kind(guid) == "Apple_HFS"@
            ||| partition::gpt_kind(guid) == "Apple_APFS"@
            ||| partition::gpt_kind(guid) == "EFI"@
            ||| partition::gpt_kind(guid) == "other"@
        }),
{
    reveal_strlit("Apple_HFS");
    reveal_strlit("Apple_APFS");
    reveal_strlit("EFI");
    reveal_strlit("other");
    assert("Apple_HFS"@.len() == 9 && "Apple_APFS"@.len() == 10 && "EFI"@.len() == 3
        && "other"@.len() == 5);
    assert(partition::GUID_HFS@ == seq![
        0u8,
        83,
        70,
        72,
        0,
        0,
        170,
        17,
        170,
        17,
        0,
        48,
        101,
        67,
        236,
        172,
    ]);
    assert(partition::GUID_APFS@ == seq![
        239u8,
        87,
        52,
        124,
        0,
        0,
        170,
        17,
        170,
        17,
        0,
        48,
        101,
        67,
        236,
        172,
    ]);
    assert(partition::GUID_EFI@ == seq![
        40u8,
        115,
        42,
        193,
        31,
        248,
        210,
        17,
        186,
        75,
        0,
        160,
        201,
        62,
        201,
        59,
    ]);
    assert(partition::GUID_HFS@[0] == 0 && partition::GUID_APFS@[0] == 239
        && partition::GUID_EFI@[0] == 40);
}

/// A partition has the sectors from its first to its last, both counted, and one at least; there
/// is no count where it does not fit.
pub proof fn sectors_reach_from_first_to_last(first: u64, last: u64)
    ensures
        partition::sector_count(first, last) is None <==> first == 0 && last == u64::MAX,
        partition::sector_count(first, last) matches Some(n) ==> {
            &&& first <= last ==> first + n == last + 1
            &&& first > last ==> n == 1
        },
{
}

/// One slot more adds an entry exactly where the first sixteen bytes of the slot are not all
/// zero. The entry begins at the sector that stands at 32 of the slot and reaches to the one that
/// stands at 40; its type is that of the GUID.
pub proof fn used_slot_adds_its_entry(table: Seq<u8>, size: int, n: nat)
    requires
        128 <= size,
        n * size + size <= table.len(),
    ensures
        partition::gpt_entries(table, size, 0) == Seq::<EntryModel>::empty(),
        ({
            let at = n * size;
            let before = partition::gpt_entries(table, size, n);
            let after = partition::gpt_entries(table, size, n + 1);
            if forall|i: int| 0 <= i < 16 ==> #[trigger] table[at + i] == 0 {
                after == before
            } else {
                &&& after.len() == before.len() + 1
                &&& after.drop_last() == before
                &&& after.last().scheme == "GPT"@
                &&& after.last().kind == partition::gpt_kind(table.subrange(at, at + 16))
                &&& after.last().start_lba == bytes::u64_le(table, at + 32)
                &&& after.last().sectors == partition::sector_count(
                    bytes::u64_le(table, at + 32) as u64,
                    bytes::u64_le(table, at + 40) as u64,
                )
                &&& after.last().reads_superblock
            }
        }),
{
    let at = n * size;
    assert(at >= 0) by (nonlinear_arith)
        requires
            at == n * size,
            n >= 0,
            size >= 0,
    ;
    let e = partition::slot(table, size, n as int);
    assert(e == table.subrange(at, at + size));
    let before = partition::gpt_entries(table, size, n);
    let after = partition::gpt_entries(table, size, n + 1);
    assert(forall|i: int| 0 <= i < 48 ==> #[trigger] e[i] == table[at + i]);
    assert(e.subrange(0, 16) == table.subrange(at, at + 16));
    assert(bytes::u64_le(e, 32) == bytes::u64_le(table, at + 32)) by {
        field_of_part(table, at, e, 32);
    }
    assert(bytes::u64_le(e, 40) == bytes::u64_le(table, at + 40)) by {
        field_of_part(table, at, e, 40);
    }
    if bytes::zero_prefix(e, 16) {
        assert forall|i: int| 0 <= i < 16 implies #[trigger] table[at + i] == 0 by {
            assert(e[i] == 0);
        }
    } else {
        let i = choose|i: int| 0 <= i < 16 && e[i] != 0;
        assert(table[at + i] != 0);
        assert(after.drop_last() == before);
    }
}

/// A 64-bit field of a part of a buffer is one of the buffer.
proof fn field_of_part(s: Seq<u8>, at: int, part: Seq<u8>, k: int)
    requires
        0 <= at,
        0 <= k <= 40,
        part.len() >= 48,
        at + part.len() <= s.len(),
        part == s.subrange(at, at + part.len()),
    ensures
        bytes::u64_le(part, k) == bytes::u64_le(s, at + k),
{
    assert(part[k] == s[at + k]);
    assert(part[k + 1] == s[at + k + 1]);
    assert(part[k + 2] == s[at + k + 2]);
    assert(part[k + 3] == s[at + k + 3]);
    assert(part[k + 4] == s[at + k + 4]);
    assert(part[k + 5] == s[at + k + 5]);
    assert(part[k + 6] == s[at + k + 6]);
    assert(part[k + 7] == s[at + k + 7]);
    assert(k + 4 + 1 == k + 5 && k + 4 + 2 == k + 6 && k + 4 + 3 == k + 7);
    assert(at + k + 4 + 1 == at + k + 5 && at + k + 4 + 2 == at + k + 6 && at + k + 4 + 3 == at + k
        + 7);
}

/// A sector of an Apple Partition Map is an entry where it opens with `PM`, it is below the
/// sixteenth and all of it is there; the entry begins at the sector that stands at 8 and has as
/// many sectors as stand at 12. The first sector that is none ends the map.
pub proof fn signed_sector_is_an_entry(head: Seq<u8>, i: nat)
    ensures
        ({
            let at: int = 512 * i as int;
            let es = partition::apm_entries(head, i);
            if i < 16 && at + 512 <= head.len() && head[at] == 80 && head[at + 1] == 77 {
                &&& es.len() > 0
                &&& es.drop_first() == partition::apm_entries(head, i + 1)
                &&& es[0].scheme == "APM"@
                &&& es[0].kind == partition::apm_kind(
                    partition::utf8_lossy(head.subrange(at + 48, at + 80)),
                )
                &&& es[0].start_lba == bytes::u32_be(head, at + 8)
                &&& es[0].sectors == Some(bytes::u32_be(head, at + 12) as u64)
                &&& !es[0].reads_superblock
            } else {
                es == Seq::<EntryModel>::empty()
            }
        }),
{
    let at: int = 512 * i as int;
    let es = partition::apm_entries(head, i);
    assert(i * partition::SECTOR == at && (i + 1) * partition::SECTOR == at + 512);
    if i < 16 && at + 512 <= head.len() {
        let m = partition::PM_SIGNATURE@;
        fields::pattern_is_byte_by_byte(head, at, m);
        assert(m.len() == 2 && m[0] == 80 && m[1] == 77);
        let e = head.subrange(at, at + 512);
        assert(e.subrange(48, 80) == head.subrange(at + 48, at + 80));
        assert(e[8] == head[at + 8] && e[9] == head[at + 9] && e[10] == head[at + 10] && e[11]
            == head[at + 11]);
        assert(e[12] == head[at + 12] && e[13] == head[at + 13] && e[14] == head[at + 14] && e[15]
            == head[at + 15]);
        assert(at + 8 + 1 == at + 9 && at + 8 + 2 == at + 10 && at + 8 + 3 == at + 11);
        assert(at + 12 + 1 == at + 13 && at + 12 + 2 == at + 14 && at + 12 + 3 == at + 15);
        if head[at] == 80 && head[at + 1] == 77 {
            assert(es.drop_first() == partition::apm_entries(head, i + 1));
        } else {
            assert(m[0] == 80 && m[1] == 77);
            assert(head[at + 0] == head[at]);
        }
    }
}

/// The type in a NUL-padded field is what stands there without the padding and without white
/// space around it.
pub proof fn padded_type_is_bared(before: Seq<char>, s: Seq<char>, after: Seq<char>, n: nat)
    requires
        forall|i: int| 0 <= i < before.len() ==> text::white_space(#[trigger] before[i]),
        forall|i: int| 0 <= i < after.len() ==> text::white_space(#[trigger] after[i]),
        s.len() > 0 ==> !text::white_space(s[0]) && !text::white_space(s.last()),
        s.len() > 0 && after.len() == 0 ==> s.last() != '\0',
    ensures
        partition::apm_kind(before + s + after + Seq::new(n, |i: int| '\0')) == s,
{
    let shown = before + s + after;
    if after.len() > 0 {
        assert(shown.last() == after.last());
        assert(text::white_space(after[after.len() - 1]));
    } else if s.len() > 0 {
        assert(shown.last() == s.last());
    } else if before.len() > 0 {
        assert(shown.last() == before.last());
        assert(text::white_space(before[before.len() - 1]));
    }
    crate::laws::words::padding_is_taken_off(shown, n);
    crate::laws::words::trimming_takes_what_surrounds(before, s, after);
}

/// A partition is an APFS container exactly where `NXSB` stands at 32 of it.
pub proof fn container_is_told_by_its_magic(sb: Seq<u8>)
    requires
        sb.len() >= 36,
    ensures
        partition::is_apfs(sb) <==> sb[32] == 78 && sb[33] == 88 && sb[34] == 83 && sb[35] == 66,
{
    let m = crate::apfs::NX_MAGIC@;
    fields::pattern_is_byte_by_byte(sb, 32, m);
    assert(m.len() == 4 && m[0] == 78 && m[1] == 88 && m[2] == 83 && m[3] == 66);
    assert(32 + 0 == 32 && 32 + 1 == 33 && 32 + 2 == 34 && 32 + 3 == 35);
}

/// A volume is HFS+ exactly where its header opens with `H+`, and HFSX exactly where it opens with
/// `HX`. No other filesystem is recognised there.
pub proof fn volume_is_told_by_its_header(vh: Seq<u8>)
    requires
        vh.len() >= 2,
    ensures
        partition::hfs_name(vh) == Some("HFS+"@) <==> vh[0] == 72 && vh[1] == 43,
        partition::hfs_name(vh) == Some("HFSX"@) <==> vh[0] == 72 && vh[1] == 88,
        partition::hfs_name(vh) is None <==> !(vh[0] == 72 && (vh[1] == 43 || vh[1] == 88)),
{
    let p = partition::HFS_PLUS_SIGNATURE@;
    let x = partition::HFSX_SIGNATURE@;
    fields::pattern_is_byte_by_byte(vh, 0, p);
    fields::pattern_is_byte_by_byte(vh, 0, x);
    assert(p.len() == 2 && p[0] == 72 && p[1] == 43);
    assert(x.len() == 2 && x[0] == 72 && x[1] == 88);
    reveal_strlit("HFS+");
    reveal_strlit("HFSX");
    assert("HFS+"@[3] != "HFSX"@[3]);
}

} // verus!
