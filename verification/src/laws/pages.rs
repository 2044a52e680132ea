//! What the printed summary shows.
use crate::analysis::{AnalysisModel, Health};
use crate::apfs::ApfsInfo;
use crate::partition::PartitionModel;
use crate::render;
use crate::text;
use vstd::prelude::*;

verus! {

/// `q` is `n / d` rounded: no other integer is nearer, and of two that are equally near it is the
/// even one.
pub open spec fn is_rounded(n: int, d: int, q: int) -> bool {
    &&& 2 * (n - q * d) <= d
    &&& 2 * (q * d - n) <= d
    &&& 2 * (n - q * d) == d || 2 * (q * d - n) == d ==> q % 2 == 0
}

/// Rounding gives the nearest integer, and the even one of two.
pub proof fn rounding_is_to_the_nearest(n: nat, d: nat)
    requires
        d > 0,
    ensures
        is_rounded(n as int, d as int, render::half_even(n, d) as int),
{
    let q = n / d;
    let r = n % d;
    vstd::arithmetic::div_mod::lemma_fundamental_div_mod(n as int, d as int);
    vstd::arithmetic::div_mod::lemma_mod_bound(n as int, d as int);
    assert(n == q * d + r) by (nonlinear_arith)
        requires
            n == d * q + r,
    ;
    assert((q + 1) * d == q * d + d) by (nonlinear_arith);
}

/// Only one integer is `n / d` rounded.
pub proof fn rounding_leaves_no_choice(n: int, d: int, p: int, q: int)
    requires
        d > 0,
        is_rounded(n, d, p),
        is_rounded(n, d, q),
    ensures
        p == q,
{
    assert(q * d - p * d == (q - p) * d) by (nonlinear_arith);
    if q - p >= 2 {
        assert((q - p) * d >= 2 * d) by (nonlinear_arith)
            requires
                q - p >= 2,
                d > 0,
        ;
    } else if q - p <= -2 {
        assert((q - p) * d <= -2 * d) by (nonlinear_arith)
            requires
                q - p <= -2,
                d > 0,
        ;
    } else if q - p == 1 {
        assert((q - p) * d == d) by (nonlinear_arith)
            requires
                q - p == 1,
        ;
    } else if q - p == -1 {
        assert((q - p) * d == -d) by (nonlinear_arith)
            requires
                q - p == -1,
        ;
    }
}

/// Double-precision numbers lie 1 apart, or closer, below 2 to the 53rd, and twice as far apart
/// at twice the number: their distance is between the 2 to the 53rd part of a number and the 2 to
/// the 52nd.
pub proof fn doubles_have_53_bits(n: nat)
    ensures
        n < 0x20_0000_0000_0000 ==> render::spacing(n) == 1,
        n >= 0x20_0000_0000_0000 ==> {
            &&& render::spacing(n) == 2 * render::spacing(n / 2)
            &&& render::spacing(n) * 0x10_0000_0000_0000 <= n
            &&& n < render::spacing(n) * 0x20_0000_0000_0000
        },
        render::spacing(n) > 0,
    decreases n,
{
    if n >= 0x20_0000_0000_0000 {
        doubles_have_53_bits(n / 2);
    }
}

/// The double-precision number for an integer is the nearest multiple of their distance, and of
/// two the even one; below 2 to the 53rd it is the integer itself.
pub proof fn integer_becomes_the_nearest_double(n: nat)
    ensures
        n < 0x20_0000_0000_0000 ==> render::nearest_double(n) == n,
        exists|q: int|
            #[trigger] is_rounded(n as int, render::spacing(n) as int, q)
                && render::nearest_double(n) == q * render::spacing(n),
{
    doubles_have_53_bits(n);
    rounding_is_to_the_nearest(n, render::spacing(n));
    if n < 0x20_0000_0000_0000 {
        assert(n / 1 == n && n % 1 == 0);
    }
}

/// A size is shown in gibibytes, rounded to tenths, with one digit behind the point.
pub proof fn size_is_shown_in_tenths(n: nat, per_gib: nat, tenths: nat)
    requires
        per_gib > 0,
        is_rounded(10 * render::nearest_double(n) as int, per_gib as int, tenths as int),
    ensures
        render::gib_text(n, per_gib) == text::digits(tenths / 10, 10) + seq!['.'] + text::digits(
            tenths % 10,
            10,
        ),
        text::digits(tenths % 10, 10).len() == 1,
{
    reveal_strlit(".");
    assert("."@ == seq!['.']);
    let own = render::half_even(10 * render::nearest_double(n), per_gib);
    rounding_is_to_the_nearest(10 * render::nearest_double(n), per_gib);
    rounding_leaves_no_choice(
        10 * render::nearest_double(n) as int,
        per_gib as int,
        own as int,
        tenths as int,
    );
}

/// The word for each health.
pub proof fn health_is_named(h: Health)
    ensures
        h == Health::Sound <==> render::health_text(h) == "Sound"@,
        h == Health::Suspect <==> render::health_text(h) == "Suspect"@,
        h == Health::Unusable <==> render::health_text(h) == "Unusable"@,
{
    reveal_strlit("Sound");
    reveal_strlit("Suspect");
    reveal_strlit("Unusable");
    assert("Sound"@.len() == 5 && "Suspect"@.len() == 7 && "Unusable"@.len() == 8);
}

/// The first line shows the health, the number of bands, what they take in gibibytes, the declared
/// size in gibibytes and the copy of the property list, and nothing of the partitions and notes.
pub proof fn first_line_shows_the_figures(a: AnalysisModel)
    ensures
        render::summary(AnalysisModel { partitions: Seq::empty(), notes: Seq::empty(), ..a })
            == "  "@ + render::health_text(a.health) + " · bands "@ + text::digits(
            a.band_count as nat,
            10,
        ) + " ("@ + render::gib_text((a.band_count * a.band_size) as nat, 1073741824)
            + " GiB allocated of "@ + render::gib_text(a.declared_size as nat, 1073741824)
            + " GiB declared) · info from "@ + a.info_source + "\n"@,
{
    let bare = AnalysisModel { partitions: Seq::empty(), notes: Seq::empty(), ..a };
    let line = render::summary_line(bare);
    assert(line + Seq::<char>::empty() == line);
    assert(render::partition_lines(bare.partitions) == Seq::<char>::empty());
    assert(render::note_lines(bare.notes) == Seq::<char>::empty());
    assert(render::summary(bare) == line);
}

/// One note more is one line more, at the end: the note behind `note: `.
pub proof fn note_adds_its_line(a: AnalysisModel, note: Seq<char>)
    ensures
        render::summary(AnalysisModel { notes: a.notes.push(note), ..a }) == render::summary(a)
            + "    note: "@ + note + "\n"@,
{
    let more = a.notes.push(note);
    assert(more.drop_last() == a.notes);
    let top = render::summary_line(a) + render::partition_lines(a.partitions);
    let earlier = render::note_lines(a.notes);
    assert(render::note_lines(more) == earlier + render::note_line(note));
    assert(top + (earlier + render::note_line(note)) == top + earlier + "    note: "@ + note
        + "\n"@);
}

/// One partition more is one line more, behind those of the other partitions and before the
/// notes.
pub proof fn partition_adds_its_line(a: AnalysisModel, p: PartitionModel)
    requires
        a.notes == Seq::<Seq<char>>::empty(),
    ensures
        render::summary(AnalysisModel { partitions: a.partitions.push(p), ..a })
            == render::summary(a) + render::partition_line(p),
{
    let more = a.partitions.push(p);
    assert(more.drop_last() == a.partitions);
    let top = render::summary_line(a);
    let earlier = render::partition_lines(a.partitions);
    let none = render::note_lines(a.notes);
    assert(none == Seq::<char>::empty());
    assert(top + (earlier + render::partition_line(p)) + none == top + earlier + none
        + render::partition_line(p));
}

/// What stands in a partition's line up to its filesystem.
pub open spec fn place_of(p: PartitionModel) -> Seq<char> {
    "    "@ + p.scheme + " "@ + p.kind + " @ LBA "@ + text::digits(p.start_lba as nat, 10) + " ("@
        + render::gib_text(p.sectors as nat, 2097152) + " GiB) fs="@
}

/// The line of a partition shows the filesystem that was found, whatever is known of a container:
/// the text of the filesystem behind `fs=`, and `unrecognised` only where none was found.
pub proof fn line_shows_the_filesystem(p: PartitionModel)
    ensures
        p.filesystem matches Some(fs) ==> render::partition_line(p) == place_of(p) + fs
            + render::apfs_text(p.apfs) + "\n"@,
        p.filesystem is None ==> render::partition_line(p) == place_of(p) + "unrecognised"@
            + render::apfs_text(p.apfs) + "\n"@,
{
}

/// Two partitions that differ in the filesystem alone have lines that differ there alone: one
/// filesystem stands where the other does.
pub proof fn lines_differ_in_the_filesystem(
    p: PartitionModel,
    fs: Seq<char>,
    other: Seq<char>,
)
    ensures
        exists|left: Seq<char>, right: Seq<char>|
            {
                &&& #[trigger] (left + fs + right) == render::partition_line(
                    PartitionModel { filesystem: Some(fs), ..p },
                )
                &&& left + other + right == render::partition_line(
                    PartitionModel { filesystem: Some(other), ..p },
                )
                &&& left + "unrecognised"@ + right == render::partition_line(
                    PartitionModel { filesystem: None, ..p },
                )
            },
{
    let left = place_of(p);
    let right = render::apfs_text(p.apfs) + "\n"@;
    let q = PartitionModel { filesystem: Some(fs), ..p };
    let r = PartitionModel { filesystem: Some(other), ..p };
    let n = PartitionModel { filesystem: None, ..p };
    line_shows_the_filesystem(q);
    line_shows_the_filesystem(r);
    line_shows_the_filesystem(n);
    assert(left + fs + right == left + fs + render::apfs_text(p.apfs) + "\n"@);
    assert(left + other + right == left + other + render::apfs_text(p.apfs) + "\n"@);
    assert(left + "unrecognised"@ + right == left + "unrecognised"@ + render::apfs_text(p.apfs)
        + "\n"@);
}

/// A container superblock is shown with its number of blocks, their size and whether the range of
/// its keybag is empty; without one nothing is shown.
pub proof fn container_is_shown(a: ApfsInfo)
    ensures
        render::apfs_text(None) == Seq::<char>::empty(),
        render::apfs_text(Some(a)) == " ["@ + text::digits(a.block_count as nat, 10)
            + " blocks of "@ + text::digits(a.block_size as nat, 10) + "B · "@ + (
        if a.keylocker_blocks > 0 {
            "CONTAINER KEYBAG OBSERVED"@
        } else {
            "no container keybag observed"@
        }) + "]"@,
{
}

} // verus!
