//! The human-readable summary of an analysis.
//!
//! Sizes are shown in gibibytes with one decimal, as a double-precision number would be printed.
//! The arithmetic is done on integers.
use crate::analysis::{Analysis, AnalysisModel, Health};
use crate::apfs::{ApfsInfo, EncryptionEvidence};
use crate::partition;
use crate::partition::{Partition, PartitionModel};
use crate::text;
use vstd::prelude::*;

verus! {

/// Integers below this have a double-precision number of their own.
pub const EXACT_DOUBLES: u64 = 0x20_0000_0000_0000;

/// Bytes in a gibibyte.
pub const GIB: u64 = 0x4000_0000;

/// Sectors in a gibibyte.
pub const GIB_SECTORS: u64 = 0x20_0000;

// ---------------------------------------------------------------------------
// Gibibytes
// ---------------------------------------------------------------------------

/// `n / d` to the nearest integer, and to the even one of two that are equally near.
pub open spec fn half_even(n: nat, d: nat) -> nat {
    let q = n / d;
    let r = n % d;
    if 2 * r < d || (2 * r == d && q % 2 == 0) {
        q
    } else {
        q + 1
    }
}

/// The distance between double-precision numbers at the integer `n`, and 1 where it is smaller.
pub open spec fn spacing(n: nat) -> nat
    decreases n,
{
    if n < EXACT_DOUBLES {
        1
    } else {
        2 * spacing(n / 2)
    }
}

/// The double-precision number nearest to the integer `n`.
pub open spec fn nearest_double(n: nat) -> nat {
    half_even(n, spacing(n)) * spacing(n)
}

/// A number of tenths with one decimal.
pub open spec fn one_decimal(tenths: nat) -> Seq<char> {
    text::decimal(tenths / 10) + "."@ + text::decimal(tenths % 10)
}

/// `n` of the units of which `per_gib` make a gibibyte, in gibibytes.
pub open spec fn gib_text(n: nat, per_gib: nat) -> Seq<char> {
    one_decimal(half_even(10 * nearest_double(n), per_gib))
}

/// `n / d` to the nearest integer, and to the even one of two that are equally near.
fn divide_half_even(n: u128, d: u128) -> (r: u128)
    requires
        0 < d <= 0x1_0000_0000,
        n <= 0x1_0000_0000_0000_0000_0000,
    ensures
        r == half_even(n as nat, d as nat),
        r * d <= n + d,
        r <= n + 1,
{
    let q: u128 = n / d;
    let rem: u128 = n % d;
    proof {
        vstd::arithmetic::div_mod::lemma_fundamental_div_mod(n as int, d as int);
        vstd::arithmetic::div_mod::lemma_mod_bound(n as int, d as int);
        assert(q <= n && q * d <= n && (q + 1) * d <= n + d) by (nonlinear_arith)
            requires
                n == d * q + rem,
                0 <= rem < d,
                d >= 1,
                q >= 0,
        ;
    }
    if 2 * rem < d || (2 * rem == d && q % 2 == 0) {
        q
    } else {
        q + 1
    }
}

/// The distance between double-precision numbers at the integer `n`.
fn spacing_at(n: u64) -> (r: u64)
    ensures
        r == spacing(n as nat),
        1 <= r <= 4096,
        r > 1 ==> r * 0x10_0000_0000_0000 <= n,
    decreases n,
{
    if n < EXACT_DOUBLES {
        1
    } else {
        let half: u64 = spacing_at(n / 2);
        2 * half
    }
}

/// Appends a size in gibibytes.
fn push_gib(out: &mut String, n: u64, per_gib: u64)
    requires
        0x10_0000 <= per_gib <= 0x1_0000_0000,
    ensures
        final(out)@ == old(out)@ + gib_text(n as nat, per_gib as nat),
{
    let step: u64 = spacing_at(n);
    let steps: u128 = divide_half_even(n as u128, step as u128);
    assert(steps * step <= 0x1_0000_0000_0000_1000);
    let double: u128 = steps * step as u128;
    let tenths: u128 = divide_half_even(10 * double, per_gib as u128);
    assert(tenths <= 0x1_0000_0000_0000) by (nonlinear_arith)
        requires
            tenths * per_gib <= 10 * double + per_gib,
            double <= 0x1_0000_0000_0000_1000,
            0x10_0000 <= per_gib <= 0x1_0000_0000,
    ;
    let t: u64 = tenths as u64;
    let ghost before = out@;
    text::push_digits(out, t / 10, 10);
    out.append(".");
    text::push_digits(out, t % 10, 10);
    assert(out@ == before + gib_text(n as nat, per_gib as nat));
}

// ---------------------------------------------------------------------------
// Lines
// ---------------------------------------------------------------------------

/// The word for a health.
pub open spec fn health_text(h: Health) -> Seq<char> {
    match h {
        Health::Sound => "Sound"@,
        Health::Suspect => "Suspect"@,
        Health::Unusable => "Unusable"@,
    }
}

/// The line on the bundle as a whole.
pub open spec fn summary_line(a: AnalysisModel) -> Seq<char> {
    "  "@ + health_text(a.health) + " · bands "@ + text::decimal(a.band_count as nat) + " ("@
        + gib_text((a.band_count * a.band_size) as nat, GIB as nat) + " GiB allocated of "@
        + gib_text(a.declared_size as nat, GIB as nat) + " GiB declared) · info from "@
        + a.info_source + "\n"@
}

/// What is shown of an APFS container superblock.
pub open spec fn apfs_text(apfs: Option<ApfsInfo>) -> Seq<char> {
    match apfs {
        Some(a) => " ["@ + text::decimal(a.block_count as nat) + " blocks of "@ + text::decimal(
            a.block_size as nat,
        ) + "B · "@ + (if a.has_keybag() {
            EncryptionEvidence::ContainerKeybagObserved
        } else {
            EncryptionEvidence::NoContainerKeybagObserved
        }).label_text() + "]"@,
        None => Seq::empty(),
    }
}

/// The line on a partition.
pub open spec fn partition_line(p: PartitionModel) -> Seq<char> {
    "    "@ + p.scheme + " "@ + p.kind + " @ LBA "@ + text::decimal(p.start_lba as nat) + " ("@
        + gib_text(p.sectors as nat, GIB_SECTORS as nat) + " GiB) fs="@ + (match p.filesystem {
        Some(fs) => fs,
        None => "unrecognised"@,
    }) + apfs_text(p.apfs) + "\n"@
}

/// The line on a note.
pub open spec fn note_line(note: Seq<char>) -> Seq<char> {
    "    note: "@ + note + "\n"@
}

/// The lines on partitions.
pub open spec fn partition_lines(ps: Seq<PartitionModel>) -> Seq<char>
    decreases ps.len(),
{
    if ps.len() == 0 {
        Seq::empty()
    } else {
        partition_lines(ps.drop_last()) + partition_line(ps.last())
    }
}

/// The lines on notes.
pub open spec fn note_lines(notes: Seq<Seq<char>>) -> Seq<char>
    decreases notes.len(),
{
    if notes.len() == 0 {
        Seq::empty()
    } else {
        note_lines(notes.drop_last()) + note_line(notes.last())
    }
}

/// The summary of an analysis.
pub open spec fn summary(a: AnalysisModel) -> Seq<char> {
    summary_line(a) + partition_lines(a.partitions) + note_lines(a.notes)
}

/// Writes what is shown of an APFS container superblock.
fn show_apfs(apfs: &Option<ApfsInfo>) -> (r: String)
    ensures
        r@ == apfs_text(*apfs),
{
    match apfs {
        Some(a) => {
            let mut s: String = " [".to_string();
            text::push_digits(&mut s, a.block_count, 10);
            s.append(" blocks of ");
            text::push_digits(&mut s, a.block_size as u64, 10);
            s.append("B · ");
            s.append(a.encryption_evidence().label());
            s.append("]");
            s
        },
        None => String::new(),
    }
}

/// Writes the line on a partition.
fn show_partition(p: &Partition) -> (r: String)
    ensures
        r@ == partition_line(p@),
{
    let mut s: String = "    ".to_string();
    s.append(p.scheme);
    s.append(" ");
    s.append(p.kind.as_str());
    s.append(" @ LBA ");
    text::push_digits(&mut s, p.start_lba, 10);
    s.append(" (");
    push_gib(&mut s, p.sectors, GIB_SECTORS);
    s.append(" GiB) fs=");
    match p.filesystem {
        Some(fs) => s.append(fs),
        None => s.append("unrecognised"),
    }
    s.append(show_apfs(&p.apfs).as_str());
    s.append("\n");
    s
}

impl Analysis {
    /// Render a human-readable summary.
    pub fn render(&self) -> (r: String)
        requires
            self.band_count * self.band_size <= u64::MAX,
        ensures
            r@ == summary(self@),
    {
        let mut s: String = "  ".to_string();
        s.append(
            match self.health {
                Health::Sound => "Sound",
                Health::Suspect => "Suspect",
                Health::Unusable => "Unusable",
            },
        );
        s.append(" · bands ");
        text::push_digits(&mut s, self.band_count as u64, 10);
        s.append(" (");
        push_gib(&mut s, self.allocated_bytes(), GIB);
        s.append(" GiB allocated of ");
        push_gib(&mut s, self.declared_size, GIB);
        s.append(" GiB declared) · info from ");
        s.append(self.info_source);
        s.append("\n");
        let ghost head = s@;
        assert(head == summary_line(self@));
        let ghost ps = partition::partition_models(self.partitions@);
        let mut i: usize = 0;
        assert(head + partition_lines(ps.take(0)) == head);
        while i < self.partitions.len()
            invariant
                i <= self.partitions@.len(),
                ps == partition::partition_models(self.partitions@),
                s@ == head + partition_lines(ps.take(i as int)),
            decreases self.partitions@.len() - i,
        {
            let line: String = show_partition(&self.partitions[i]);
            assert(ps.take(i + 1).drop_last() == ps.take(i as int));
            assert(ps.take(i + 1).last() == self.partitions@[i as int]@);
            s.append(line.as_str());
            assert(s@ == head + partition_lines(ps.take(i + 1)));
            i = i + 1;
        }
        assert(ps.take(i as int) == ps);
        let ghost top = s@;
        let ghost ns = text::texts(self.notes@);
        let mut j: usize = 0;
        assert(top + note_lines(ns.take(0)) == top);
        while j < self.notes.len()
            invariant
                j <= self.notes@.len(),
                ns == text::texts(self.notes@),
                s@ == top + note_lines(ns.take(j as int)),
            decreases self.notes@.len() - j,
        {
            let mut line: String = "    note: ".to_string();
            line.append(self.notes[j].as_str());
            line.append("\n");
            assert(ns.take(j + 1).drop_last() == ns.take(j as int));
            assert(ns.take(j + 1).last() == self.notes@[j as int]@);
            s.append(line.as_str());
            assert(s@ == top + note_lines(ns.take(j + 1)));
            j = j + 1;
        }
        assert(ns.take(j as int) == ns);
        s
    }
}

} // verus!
