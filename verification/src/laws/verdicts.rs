//! What an analysis says of a bundle, by what the bundle holds.
use crate::analysis;
use crate::analysis::{AnalysisModel, BandEntry, ErrorModel, Health, Inventory};
use crate::apfs;
use crate::band::Image;
use crate::laws;
use crate::laws::{images, maps};
use crate::partition;
use crate::partition::{EntryModel, Layout, PartitionModel};
use crate::plist;
use crate::survey;
use crate::survey::{Bundle, ReplyModel, Request, SurveyModel};
use crate::text;
use vstd::prelude::*;

verus! {

// ---------------------------------------------------------------------------
// Counting bands
// ---------------------------------------------------------------------------

/// The entry is a file whose name is a hexadecimal number.
pub open spec fn is_band_file(e: BandEntry) -> bool {
    e.facts matches Some(f) && f.is_file && text::parse_u64(e.name@, 16) is Some
}

/// The entry is such a file, and has no contents.
pub open spec fn is_empty_band_file(e: BandEntry) -> bool {
    is_band_file(e) && e.facts->0.len == 0
}

/// The inventory of one entry counts it where it is a band file, and among the empty ones where it
/// has no contents.
pub proof fn inventory_of_one_entry(e: BandEntry)
    ensures
        analysis::inventory(seq![e]).band_count == (if is_band_file(e) {
            1int
        } else {
            0
        }),
        analysis::inventory(seq![e]).zero_length_bands == (if is_empty_band_file(e) {
            1int
        } else {
            0
        }),
        analysis::inventory(seq![e]).have_band_zero <==> is_band_file(e) && e.name@ == seq!['0'],
        analysis::inventory(seq![e]).any_file <==> (e.facts matches Some(f) && f.is_file),
        analysis::inventory(Seq::empty()) == (Inventory {
            band_count: 0,
            zero_length_bands: 0,
            have_band_zero: false,
            any_file: false,
        }),
{
    reveal(Seq::filter);
    reveal_strlit("0");
    assert("0"@ == seq!['0']);
    let one = seq![e];
    assert(one.drop_last() == Seq::<BandEntry>::empty());
    assert(one[0] == e);
    let none = Seq::<BandEntry>::empty();
    assert(none.filter(|e: BandEntry| e.is_band()) == none);
    assert(none.filter(|e: BandEntry| e.is_empty_band()) == none);
    assert(one.filter(|e: BandEntry| e.is_band()).len() == (if e.is_band() {
        1int
    } else {
        0
    }));
    assert(one.filter(|e: BandEntry| e.is_empty_band()).len() == (if e.is_empty_band() {
        1int
    } else {
        0
    }));
}

/// The inventory of a listing is that of its parts put together: the numbers are added.
pub proof fn inventory_of_parts(s: Seq<BandEntry>, t: Seq<BandEntry>)
    requires
        s.len() + t.len() <= usize::MAX,
    ensures
        ({
            let a = analysis::inventory(s);
            let c = analysis::inventory(t);
            let all = analysis::inventory(s + t);
            &&& all.band_count == a.band_count + c.band_count
            &&& all.zero_length_bands == a.zero_length_bands + c.zero_length_bands
            &&& all.have_band_zero <==> a.have_band_zero || c.have_band_zero
            &&& all.any_file <==> a.any_file || c.any_file
        }),
{
    let is_band = |e: BandEntry| e.is_band();
    let is_empty = |e: BandEntry| e.is_empty_band();
    let all = s + t;
    Seq::filter_distributes_over_add(s, t, is_band);
    Seq::filter_distributes_over_add(s, t, is_empty);
    s.lemma_filter_len(is_band);
    t.lemma_filter_len(is_band);
    s.lemma_filter_len(is_empty);
    t.lemma_filter_len(is_empty);
    assert(forall|i: int| 0 <= i < s.len() ==> #[trigger] s[i] == all[i]);
    assert(forall|i: int| 0 <= i < t.len() ==> #[trigger] t[i] == all[s.len() + i]);
    if analysis::inventory(s).have_band_zero {
        let i = choose|i: int| 0 <= i < s.len() && (#[trigger] s[i]).is_band_zero();
        assert(all[i].is_band_zero());
    }
    if analysis::inventory(t).have_band_zero {
        let i = choose|i: int| 0 <= i < t.len() && (#[trigger] t[i]).is_band_zero();
        assert(all[s.len() + i].is_band_zero());
    }
    if analysis::inventory(all).have_band_zero {
        let i = choose|i: int| 0 <= i < all.len() && (#[trigger] all[i]).is_band_zero();
        if i < s.len() {
            assert(s[i].is_band_zero());
        } else {
            assert(t[i - s.len()].is_band_zero());
        }
    }
    if analysis::inventory(s).any_file {
        let i = choose|i: int| 0 <= i < s.len() && (#[trigger] s[i]).is_file();
        assert(all[i].is_file());
    }
    if analysis::inventory(t).any_file {
        let i = choose|i: int| 0 <= i < t.len() && (#[trigger] t[i]).is_file();
        assert(all[s.len() + i].is_file());
    }
    if analysis::inventory(all).any_file {
        let i = choose|i: int| 0 <= i < all.len() && (#[trigger] all[i]).is_file();
        if i < s.len() {
            assert(s[i].is_file());
        } else {
            assert(t[i - s.len()].is_file());
        }
    }
}

/// Two inventories that say the same.
proof fn inventories_agree(a: Inventory, c: Inventory)
    requires
        a.band_count == c.band_count,
        a.zero_length_bands == c.zero_length_bands,
        a.have_band_zero == c.have_band_zero,
        a.any_file == c.any_file,
    ensures
        a == c,
{
}

/// The order in which entries are listed does not matter.
pub proof fn inventory_in_any_order(s: Seq<BandEntry>, t: Seq<BandEntry>)
    requires
        s.len() <= usize::MAX,
        s.to_multiset() == t.to_multiset(),
    ensures
        analysis::inventory(s) == analysis::inventory(t),
    decreases s.len(),
{
    broadcast use vstd::seq_lib::group_to_multiset_ensures;

    assert(s.len() == s.to_multiset().len());
    assert(t.len() == t.to_multiset().len());
    if s.len() == 0 {
        assert(s == t);
    } else {
        let e = s.last();
        let rest = s.drop_last();
        assert(s == rest.push(e));
        assert(s == rest + seq![e]);
        assert(s.to_multiset() == rest.to_multiset().insert(e));
        assert(t.to_multiset().count(e) > 0);
        assert(t.contains(e));
        let j = t.index_of(e);
        let left = t.take(j);
        let right = t.skip(j + 1);
        let without = t.remove(j);
        assert(without == left + right);
        assert(t == left + seq![e] + right);
        assert(without.to_multiset() == t.to_multiset().remove(e));
        assert(without.to_multiset() =~= rest.to_multiset());
        inventory_in_any_order(rest, without);
        inventory_of_parts(rest, seq![e]);
        inventory_of_parts(left, right);
        inventory_of_parts(left, seq![e]);
        inventory_of_parts(left + seq![e], right);
        inventories_agree(analysis::inventory(s), analysis::inventory(t));
    }
}

/// Bands without contents are counted exactly where there is one: the number is positive where
/// some listed band file has no contents, and only there. So with bands altogether.
pub proof fn a_single_empty_band_counts(s: Seq<BandEntry>)
    requires
        s.len() <= usize::MAX,
    ensures
        analysis::inventory(s).zero_length_bands > 0 <==> exists|i: int|
            0 <= i < s.len() && is_empty_band_file(#[trigger] s[i]),
        analysis::inventory(s).band_count > 0 <==> exists|i: int|
            0 <= i < s.len() && is_band_file(#[trigger] s[i]),
        analysis::inventory(s).zero_length_bands <= analysis::inventory(s).band_count <= s.len(),
    decreases s.len(),
{
    if s.len() == 0 {
        assert(s == Seq::<BandEntry>::empty());
        inventory_of_one_entry(arbitrary());
    } else {
        let rest = s.drop_last();
        let e = s.last();
        assert(s == rest + seq![e]);
        a_single_empty_band_counts(rest);
        inventory_of_parts(rest, seq![e]);
        inventory_of_one_entry(e);
        assert(s[s.len() - 1] == e);
        if exists|i: int| 0 <= i < rest.len() && is_empty_band_file(#[trigger] rest[i]) {
            let i = choose|i: int| 0 <= i < rest.len() && is_empty_band_file(#[trigger] rest[i]);
            assert(is_empty_band_file(s[i]));
        }
        if exists|i: int| 0 <= i < s.len() && is_empty_band_file(#[trigger] s[i]) {
            let i = choose|i: int| 0 <= i < s.len() && is_empty_band_file(#[trigger] s[i]);
            if i < rest.len() {
                assert(is_empty_band_file(rest[i]));
            }
        }
        if exists|i: int| 0 <= i < rest.len() && is_band_file(#[trigger] rest[i]) {
            let i = choose|i: int| 0 <= i < rest.len() && is_band_file(#[trigger] rest[i]);
            assert(is_band_file(s[i]));
        }
        if exists|i: int| 0 <= i < s.len() && is_band_file(#[trigger] s[i]) {
            let i = choose|i: int| 0 <= i < s.len() && is_band_file(#[trigger] s[i]);
            if i < rest.len() {
                assert(is_band_file(rest[i]));
            }
        }
    }
}

/// Band 0 is there exactly where a file with the name `0` is listed.
pub proof fn band_zero_is_the_file_0(s: Seq<BandEntry>)
    ensures
        analysis::inventory(s).have_band_zero <==> exists|i: int|
            0 <= i < s.len() && (#[trigger] s[i]).name@ == seq!['0'] && (s[i].facts matches Some(f)
                && f.is_file),
        analysis::inventory(s).any_file <==> exists|i: int|
            0 <= i < s.len() && ((#[trigger] s[i]).facts matches Some(f) && f.is_file),
{
    reveal_strlit("0");
    assert("0"@ == seq!['0']);
    laws::words::number_of_one_digit('0', 16);
    if exists|i: int|
        0 <= i < s.len() && (#[trigger] s[i]).name@ == seq!['0'] && (s[i].facts matches Some(f)
            && f.is_file) {
        let i = choose|i: int|
            0 <= i < s.len() && (#[trigger] s[i]).name@ == seq!['0'] && (s[i].facts matches Some(f)
                && f.is_file);
        assert(s[i].is_band_zero());
    }
    if analysis::inventory(s).have_band_zero {
        let i = choose|i: int| 0 <= i < s.len() && (#[trigger] s[i]).is_band_zero();
        assert(s[i].name@ == seq!['0']);
    }
    if exists|i: int| 0 <= i < s.len() && ((#[trigger] s[i]).facts matches Some(f) && f.is_file) {
        let i = choose|i: int|
            0 <= i < s.len() && ((#[trigger] s[i]).facts matches Some(f) && f.is_file);
        assert(s[i].is_file());
    }
    if analysis::inventory(s).any_file {
        let i = choose|i: int| 0 <= i < s.len() && (#[trigger] s[i]).is_file();
        assert(s[i].facts matches Some(f) && f.is_file);
    }
}

// ---------------------------------------------------------------------------
// The property list
// ---------------------------------------------------------------------------

/// A binary property list is one that begins with `bplist00`.
pub proof fn binary_list_is_told_by_its_start(xml: Seq<char>)
    ensures
        analysis::is_binary(xml) <==> xml.len() >= 8 && xml.take(8) == seq![
            'b',
            'p',
            'l',
            'i',
            's',
            't',
            '0',
            '0',
        ],
{
    reveal_strlit("bplist00");
    assert("bplist00"@ == seq!['b', 'p', 'l', 'i', 's', 't', '0', '0']);
    if xml.len() >= 8 {
        assert(xml.subrange(0, 8) == xml.take(8));
    }
}

/// A note, or none.
pub open spec fn when(c: bool, note: Seq<char>) -> Seq<Seq<char>> {
    if c {
        seq![note]
    } else {
        Seq::empty()
    }
}

/// What the property list says is taken from it as it stands: the integer under `band-size` is
/// the band size, that under `size` the declared size, 0 without one. A list that is binary says
/// nothing, nor does one without a band size. A version other than 1 and a type that does not name
/// a sparsebundle are noted; the version, and the use of the backup, is a reason for suspicion.
pub proof fn list_is_taken_at_its_word(xml: Seq<char>, from_backup: bool)
    ensures
        ({
            let version = plist::integer_value(xml, "bundle-backingstore-version"@);
            let kind = plist::string_value(xml, "diskimage-bundle-type"@);
            let odd = version is Some && version != Some(1u64);
            let strange = kind is Some && !text::contains(kind->0, "sparsebundle"@);
            match analysis::bundle_info(xml, from_backup) {
                Err(e) => {
                    ||| e is BinaryPlist && analysis::is_binary(xml)
                    ||| e is NoBandSize && !analysis::is_binary(xml) && plist::integer_value(
                        xml,
                        "band-size"@,
                    ) is None
                },
                Ok(info) => {
                    &&& !analysis::is_binary(xml)
                    &&& plist::integer_value(xml, "band-size"@) == Some(info.band_size)
                    &&& plist::integer_value(xml, "size"@) is None ==> info.declared_size == 0
                    &&& plist::integer_value(xml, "size"@) matches Some(n) ==> info.declared_size
                        == n
                    &&& info.info_source == (if from_backup {
                        "Info.bckup"@
                    } else {
                        "Info.plist"@
                    })
                    &&& info.health == Health::Sound <==> !from_backup && !odd
                    &&& info.health != Health::Unusable
                    &&& info.notes == when(
                        from_backup,
                        "Info.plist unreadable — recovered from Info.bckup"@,
                    ) + when(
                        odd,
                        "unexpected bundle-backingstore-version "@ + text::digits(
                            version->0 as nat,
                            10,
                        ) + " (expected 1)"@,
                    ) + when(strange, "unexpected bundle type "@ + kind->0)
                },
            }
        }),
{
}

/// An analysis has the figures of its bundle: band size and declared size as the property list
/// that is used gives them, the copy that this is, and the bands as they were counted.
pub proof fn figures_are_the_bundles(b: Bundle, a: AnalysisModel)
    requires
        survey::analysis_of(b) == Ok::<AnalysisModel, ErrorModel>(a),
    ensures
        b.is_directory,
        b.listing is Ok,
        Some(a.band_size) == plist::integer_value(laws::xml_used(b), "band-size"@),
        plist::integer_value(laws::xml_used(b), "size"@) matches Some(n) ==> a.declared_size == n,
        plist::integer_value(laws::xml_used(b), "size"@) is None ==> a.declared_size == 0,
        a.info_source == "Info.plist"@ <==> laws::goes_by_primary(b),
        a.info_source == "Info.bckup"@ <==> !laws::goes_by_primary(b),
        a.band_count == analysis::inventory(b.listing->Ok_0).band_count,
        a.zero_length_bands == analysis::inventory(b.listing->Ok_0).zero_length_bands,
{
    laws::analysis_parts(b, a);
    list_is_taken_at_its_word(laws::xml_used(b), !laws::goes_by_primary(b));
    reveal_strlit("Info.plist");
    reveal_strlit("Info.bckup");
    assert("Info.plist"@[5] != "Info.bckup"@[5]);
}

/// A listed band file without contents keeps a bundle from being sound, wherever in the listing it
/// stands: it is counted, and a note gives the number.
pub proof fn one_empty_band_is_enough(b: Bundle, a: AnalysisModel, i: int)
    requires
        survey::analysis_of(b) == Ok::<AnalysisModel, ErrorModel>(a),
        b.listing matches Ok(entries) && entries.len() <= usize::MAX && 0 <= i < entries.len()
            && is_empty_band_file(entries[i]),
    ensures
        a.zero_length_bands > 0,
        a.health != Health::Sound,
        a.notes.contains(
            text::digits(a.zero_length_bands as nat, 10)
                + " zero-length bands — signature of a truncated copy"@,
        ),
{
    figures_are_the_bundles(b, a);
    a_single_empty_band_counts(b.listing->Ok_0);
    laws::truncated_copy_is_never_sound(b, a);
    assert(laws::noted(a, analysis::zero_length_note(a.zero_length_bands)));
}

// ---------------------------------------------------------------------------
// Health and notes
// ---------------------------------------------------------------------------

/// Some partition has an APFS container whose keybag is not empty.
pub open spec fn some_keybag(ps: Seq<PartitionModel>) -> bool {
    exists|i: int|
        0 <= i < ps.len() && ((#[trigger] ps[i]).apfs matches Some(x) && x.keylocker_blocks > 0)
}

/// Some partition has a filesystem that was recognised.
pub open spec fn some_filesystem(ps: Seq<PartitionModel>) -> bool {
    exists|i: int| 0 <= i < ps.len() && (#[trigger] ps[i]).filesystem is Some
}

/// What is seen among partitions is what some partition shows.
proof fn seen_is_some(ps: Seq<PartitionModel>)
    ensures
        analysis::keybag_seen(ps) <==> some_keybag(ps),
        analysis::filesystem_seen(ps) <==> some_filesystem(ps),
{
    if some_keybag(ps) {
        let i = choose|i: int|
            0 <= i < ps.len() && ((#[trigger] ps[i]).apfs matches Some(x) && x.keylocker_blocks
                > 0);
        assert(ps[i].apfs matches Some(x) && x.has_keybag());
    }
    if analysis::keybag_seen(ps) {
        let i = choose|i: int|
            0 <= i < ps.len() && ((#[trigger] ps[i]).apfs matches Some(x) && x.has_keybag());
        assert(ps[i].apfs matches Some(x) && x.keylocker_blocks > 0);
    }
}

/// The backing store version that the list gives is not 1.
pub open spec fn odd_version(xml: Seq<char>) -> bool {
    plist::integer_value(xml, "bundle-backingstore-version"@) matches Some(v) && v != 1
}

/// A bundle is sound exactly where nothing is the matter: `Info.plist` itself is used, its version
/// is not odd, band 0 is there and no band is empty, the image begins with a partition map, some
/// partition has a recognised filesystem and none a keybag.
pub proof fn sound_means_nothing_is_the_matter(b: Bundle, a: AnalysisModel)
    requires
        survey::analysis_of(b) == Ok::<AnalysisModel, ErrorModel>(a),
    ensures
        a.health == Health::Sound <==> {
            &&& laws::goes_by_primary(b)
            &&& !odd_version(laws::xml_used(b))
            &&& laws::bands_of(b).have_band_zero
            &&& a.zero_length_bands == 0
            &&& laws::shown_by(b) == Some(Layout::Gpt) || laws::shown_by(b) == Some(Layout::Apm)
            &&& some_filesystem(a.partitions)
            &&& !some_keybag(a.partitions)
        },
{
    laws::analysis_parts(b, a);
    list_is_taken_at_its_word(laws::xml_used(b), !laws::goes_by_primary(b));
    seen_is_some(a.partitions);
    band_zero_is_the_file_0(b.listing->Ok_0);
    if laws::bands_of(b).have_band_zero {
        let s = b.listing->Ok_0;
        let i = choose|i: int|
            0 <= i < s.len() && (#[trigger] s[i]).name@ == seq!['0'] && (s[i].facts matches Some(f)
                && f.is_file);
        assert(s[i].facts matches Some(f) && f.is_file);
    }
}

/// A bundle is unusable exactly where there are partitions and none has a recognised filesystem,
/// or where there is no keybag and band 0 is missing, a band is empty or the image begins with no
/// partition map.
pub proof fn unusable_means_nothing_can_be_reached(b: Bundle, a: AnalysisModel)
    requires
        survey::analysis_of(b) == Ok::<AnalysisModel, ErrorModel>(a),
    ensures
        a.health == Health::Unusable <==> {
            ||| a.partitions.len() > 0 && !some_filesystem(a.partitions)
            ||| !some_keybag(a.partitions) && (!laws::bands_of(b).have_band_zero
                || a.zero_length_bands > 0 || laws::shown_by(b) == Some(Layout::Blank)
                || laws::shown_by(b) == Some(Layout::Unknown))
        },
        some_keybag(a.partitions) ==> a.health == Health::Suspect,
{
    laws::analysis_parts(b, a);
    list_is_taken_at_its_word(laws::xml_used(b), !laws::goes_by_primary(b));
    seen_is_some(a.partitions);
    laws::keybag_has_filesystem(a.partitions);
    band_zero_is_the_file_0(b.listing->Ok_0);
    if laws::bands_of(b).have_band_zero {
        let s = b.listing->Ok_0;
        let i = choose|i: int|
            0 <= i < s.len() && (#[trigger] s[i]).name@ == seq!['0'] && (s[i].facts matches Some(f)
                && f.is_file);
        assert(s[i].facts matches Some(f) && f.is_file);
    }
}

/// A partition whose container has a keybag makes the image suspect and is noted, whatever else
/// the superblock says.
pub proof fn keybag_makes_suspect(b: Bundle, a: AnalysisModel, i: int)
    requires
        survey::analysis_of(b) == Ok::<AnalysisModel, ErrorModel>(a),
        0 <= i < a.partitions.len(),
        a.partitions[i].apfs matches Some(x) && x.keylocker_blocks > 0,
    ensures
        a.health == Health::Suspect,
        a.notes.contains(
            "container keybag observed — encryption is in play; contents may not be readable without a key"@,
        ),
{
    assert(some_keybag(a.partitions));
    seen_is_some(a.partitions);
    laws::encrypted_image_is_suspect(b, a);
    assert(laws::noted(a, analysis::keybag_note()));
}

/// The notes, in their words and in their order, and when each of them stands.
pub proof fn notes_in_full(b: Bundle, a: AnalysisModel)
    requires
        survey::analysis_of(b) == Ok::<AnalysisModel, ErrorModel>(a),
    ensures
        ({
            let xml = laws::xml_used(b);
            let version = plist::integer_value(xml, "bundle-backingstore-version"@);
            let kind = plist::string_value(xml, "diskimage-bundle-type"@);
            let shown = laws::shown_by(b);
            let no_map = shown == Some(Layout::Blank) || shown == Some(Layout::Unknown);
            let map = shown == Some(Layout::Gpt) || shown == Some(Layout::Apm);
            a.notes == when(
                !laws::goes_by_primary(b),
                "Info.plist unreadable — recovered from Info.bckup"@,
            ) + when(
                version is Some && version != Some(1u64),
                "unexpected bundle-backingstore-version "@ + text::digits(version->0 as nat, 10)
                    + " (expected 1)"@,
            ) + when(
                kind is Some && !text::contains(kind->0, "sparsebundle"@),
                "unexpected bundle type "@ + kind->0,
            ) + when(!laws::bands_of(b).any_file, "bands/ is empty — no data at all"@) + when(
                a.zero_length_bands > 0,
                text::digits(a.zero_length_bands as nat, 10)
                    + " zero-length bands — signature of a truncated copy"@,
            ) + when(
                laws::bands_of(b).any_file && !laws::bands_of(b).have_band_zero,
                "band 0 absent — partition map unreadable, image cannot mount"@,
            ) + when(shown == Some(Layout::Apm), "Apple Partition Map (pre-GPT layout)"@) + when(
                no_map,
                "no GPT or APM signature at offset 0 — partition map damaged"@,
            ) + when(
                shown == Some(Layout::Blank),
                "band 0 is entirely zero — image was never formatted"@,
            ) + when(
                map && a.partitions.len() == 0,
                "partition map lists no usable partition — no filesystem found"@,
            ) + when(
                some_keybag(a.partitions),
                "container keybag observed — encryption is in play; contents may not be readable without a key"@,
            ) + when(
                a.partitions.len() > 0 && !some_filesystem(a.partitions),
                "partitions found but no recognised filesystem — this is what 'no mountable file systems' means"@,
            )
        }),
{
    laws::analysis_parts(b, a);
    list_is_taken_at_its_word(laws::xml_used(b), !laws::goes_by_primary(b));
    seen_is_some(a.partitions);
}

// ---------------------------------------------------------------------------
// Partitions
// ---------------------------------------------------------------------------

/// A read that succeeds gives as many bytes as were asked for.
pub open spec fn reads_in_full(b: Bundle) -> bool {
    forall|size: u64, offset: int, len: int|
        0 <= offset && 0 <= len ==> (#[trigger] (b.reads)(size, offset, len) matches Ok(v)
            ==> v.len() == len)
}

/// The filesystem `fs` is the one whose magic stands there: `sb` are the first bytes of the
/// partition, `vh` the first of its volume header.
pub open spec fn is_filesystem_of(fs: Option<Seq<char>>, sb: Seq<u8>, vh: Seq<u8>) -> bool {
    let container = sb[32] == 78 && sb[33] == 88 && sb[34] == 83 && sb[35] == 66;
    &&& fs == Some("APFS"@) <==> container
    &&& fs == Some("HFS+"@) <==> !container && vh[0] == 72 && vh[1] == 43
    &&& fs == Some("HFSX"@) <==> !container && vh[0] == 72 && vh[1] == 88
    &&& fs is None <==> !container && !(vh[0] == 72 && (vh[1] == 43 || vh[1] == 88))
}

/// The partition `p` is the one that the map entry `e` leads to.
pub open spec fn leads_to(b: Bundle, size: u64, e: EntryModel, p: PartitionModel) -> bool {
    let at = 512 * e.start_lba;
    &&& p.scheme == e.scheme
    &&& p.kind == e.kind
    &&& p.start_lba == e.start_lba
    &&& e.sectors == Some(p.sectors)
    &&& (b.reads)(size, at, 64) is Ok
    &&& p.filesystem != Some("APFS"@) ==> (b.reads)(size, at + 1024, 2) is Ok
    &&& is_filesystem_of(
        p.filesystem,
        (b.reads)(size, at, 64)->Ok_0,
        (b.reads)(size, at + 1024, 2)->Ok_0,
    )
    &&& p.filesystem == Some("APFS"@) && e.reads_superblock ==> (b.reads)(size, at, 0x618) is Ok
        && p.apfs == apfs::superblock((b.reads)(size, at, 0x618)->Ok_0)
    &&& p.filesystem != Some("APFS"@) || !e.reads_superblock ==> p.apfs is None
}

/// The names of the filesystems differ.
proof fn filesystem_names_differ()
    ensures
        "APFS"@ != "HFS+"@,
        "APFS"@ != "HFSX"@,
        "HFS+"@ != "HFSX"@,
{
    reveal_strlit("APFS");
    reveal_strlit("HFS+");
    reveal_strlit("HFSX");
    assert("APFS"@[0] != "HFS+"@[0] && "APFS"@[0] != "HFSX"@[0] && "HFS+"@[3] != "HFSX"@[3]);
}

/// An entry leads to the partition that its bytes show.
proof fn entry_leads_to_partition(b: Bundle, size: u64, e: EntryModel)
    requires
        reads_in_full(b),
    ensures
        survey::partition_at(b, size, e) matches Ok(p) ==> leads_to(b, size, e, p),
{
    filesystem_names_differ();
    let at = 512 * e.start_lba;
    assert(e.start_lba * partition::SECTOR == at);
    match (b.reads)(size, at, 64) {
        Ok(sb) => {
            maps::container_is_told_by_its_magic(sb);
        },
        Err(_) => {},
    }
    match (b.reads)(size, at + 1024, 2) {
        Ok(vh) => {
            maps::volume_is_told_by_its_header(vh);
        },
        Err(_) => {},
    }
}

/// Every entry leads to a partition, in the order of the entries, and the filesystem of each is
/// told by its magic alone: not by the scheme, and not by the type.
pub proof fn entries_lead_to_partitions(
    b: Bundle,
    size: u64,
    es: Seq<EntryModel>,
    ps: Seq<PartitionModel>,
)
    requires
        reads_in_full(b),
        survey::partitions_at(b, size, es) == Ok::<Seq<PartitionModel>, ErrorModel>(ps),
    ensures
        ps.len() == es.len(),
        forall|i: int| 0 <= i < es.len() ==> leads_to(b, size, es[i], #[trigger] ps[i]),
    decreases es.len(),
{
    if es.len() > 0 {
        let rest = es.drop_first();
        let p = survey::partition_at(b, size, es[0])->Ok_0;
        let more = survey::partitions_at(b, size, rest)->Ok_0;
        entry_leads_to_partition(b, size, es[0]);
        entries_lead_to_partitions(b, size, rest, more);
        assert(ps == seq![p] + more);
        assert forall|i: int| 0 <= i < es.len() implies leads_to(
            b,
            size,
            es[i],
            #[trigger] ps[i],
        ) by {
            if i > 0 {
                assert(ps[i] == more[i - 1]);
                assert(rest[i - 1] == es[i]);
            }
        }
    }
}

/// The entries of the map that the image begins with: those of the table that the GPT header
/// points to, or those of the Apple Partition Map; none without a map.
pub open spec fn entries_of(b: Bundle, size: u64) -> Seq<EntryModel> {
    let head = (b.reads)(size, 0, 17408)->Ok_0;
    match partition::layout(head) {
        Layout::Gpt => match partition::gpt_table(head) {
            Some(t) => partition::gpt_entries(
                (b.reads)(size, 512 * t.entry_lba, t.n_entries * t.entry_size)->Ok_0,
                t.entry_size as int,
                t.n_entries as nat,
            ),
            None => Seq::empty(),
        },
        Layout::Apm => partition::apm_entries(head, 1),
        _ => Seq::empty(),
    }
}

/// The partitions of an analysis are those that the entries of the map lead to, all of them and in
/// their order; there are none where band 0 is missing.
pub proof fn partitions_are_those_of_the_map(b: Bundle, a: AnalysisModel)
    requires
        survey::analysis_of(b) == Ok::<AnalysisModel, ErrorModel>(a),
        reads_in_full(b),
    ensures
        !laws::bands_of(b).have_band_zero ==> a.partitions.len() == 0,
        laws::bands_of(b).have_band_zero ==> {
            let es = entries_of(b, a.band_size);
            &&& (b.reads)(a.band_size, 0, 17408) is Ok
            &&& a.partitions.len() == es.len()
            &&& forall|i: int|
                0 <= i < es.len() ==> leads_to(b, a.band_size, es[i], #[trigger] a.partitions[i])
        },
{
    laws::analysis_parts(b, a);
    if laws::bands_of(b).have_band_zero {
        let size = a.band_size;
        let head = laws::head_of(b);
        let es = entries_of(b, size);
        match partition::layout(head) {
            Layout::Gpt => {
                match partition::gpt_table(head) {
                    Some(t) => {
                        assert(t.entry_lba * partition::SECTOR == 512 * t.entry_lba);
                        assert(t.len() == t.n_entries * t.entry_size);
                        assert(survey::partitions_at(b, size, es) == Ok::<
                            Seq<PartitionModel>,
                            ErrorModel,
                        >(a.partitions));
                        entries_lead_to_partitions(b, size, es, a.partitions);
                    },
                    None => {},
                }
            },
            Layout::Apm => {
                entries_lead_to_partitions(b, size, es, a.partitions);
            },
            _ => {},
        }
    }
}

/// The magic `m` stands in the image at `at`.
pub open spec fn stands_in(image: Image, at: nat, m: Seq<u8>) -> bool {
    forall|j: nat| j < m.len() ==> image.byte(at + j) == #[trigger] m[j as int]
}

/// A byte of a read of an image is a byte of the image.
proof fn read_shows_image(b: Bundle, bands: Map<nat, Seq<u8>>, size: u64, at: nat, len: nat, i: nat)
    requires
        laws::holds_image(b, bands),
        i < len,
    ensures
        (b.reads)(size, at as int, len as int) is Ok,
        (b.reads)(size, at as int, len as int)->Ok_0[i as int] == (Image {
            band_size: size as nat,
            bands,
        }).byte(at + i),
{
    images::read_is_byte_by_byte(Image { band_size: size as nat, bands }, at, len, i);
    assert((b.reads)(size, at as int, len as int) == Ok::<Seq<u8>, Seq<char>>(
        Image { band_size: size as nat, bands }.read(at, len),
    ));
}

/// For every partition of an analysis, in a GPT as in an Apple Partition Map and whatever its
/// type: it is APFS exactly where the image holds `NXSB` at 32 of it; else HFS+ exactly where the
/// image holds `H+` at 1024 of it, HFSX exactly where it holds `HX` there; and it is unrecognised
/// only otherwise.
pub proof fn filesystem_is_told_by_the_image(
    b: Bundle,
    a: AnalysisModel,
    bands: Map<nat, Seq<u8>>,
    i: int,
)
    requires
        survey::analysis_of(b) == Ok::<AnalysisModel, ErrorModel>(a),
        laws::holds_image(b, bands),
        0 <= i < a.partitions.len(),
    ensures
        ({
            let image = Image { band_size: a.band_size as nat, bands };
            let p = a.partitions[i];
            let at = (512 * p.start_lba) as nat;
            let container = image.byte(at + 32) == 78 && image.byte(at + 33) == 88 && image.byte(
                at + 34,
            ) == 83 && image.byte(at + 35) == 66;
            let plus = image.byte(at + 1024) == 72 && image.byte(at + 1025) == 43;
            let x = image.byte(at + 1024) == 72 && image.byte(at + 1025) == 88;
            &&& p.filesystem == Some("APFS"@) <==> container
            &&& p.filesystem == Some("HFS+"@) <==> !container && plus
            &&& p.filesystem == Some("HFSX"@) <==> !container && x
            &&& p.filesystem is None <==> !container && !plus && !x
        }),
{
    assert(reads_in_full(b));
    partitions_are_those_of_the_map(b, a);
    let e = entries_of(b, a.band_size)[i];
    let p = a.partitions[i];
    assert(leads_to(b, a.band_size, e, p));
    let at = (512 * p.start_lba) as nat;
    read_shows_image(b, bands, a.band_size, at, 64, 32);
    read_shows_image(b, bands, a.band_size, at, 64, 33);
    read_shows_image(b, bands, a.band_size, at, 64, 34);
    read_shows_image(b, bands, a.band_size, at, 64, 35);
    read_shows_image(b, bands, a.band_size, at + 1024, 2, 0);
    read_shows_image(b, bands, a.band_size, at + 1024, 2, 1);
}

// ---------------------------------------------------------------------------
// Errors
// ---------------------------------------------------------------------------

/// Every reason why there is no analysis before the image is read, and where it holds.
pub proof fn early_errors_are_exact(b: Bundle)
    ensures
        survey::analysis_of(b) == Err::<AnalysisModel, ErrorModel>(ErrorModel::NotADirectory)
            <==> !b.is_directory,
        forall|e: Seq<char>|
            #[trigger] survey::analysis_of(b) == Err::<AnalysisModel, ErrorModel>(
                ErrorModel::InfoUnreadable(e),
            ) <==> b.is_directory && b.info is Err && b.backup == Err::<Seq<char>, Seq<char>>(e),
        survey::analysis_of(b) == Err::<AnalysisModel, ErrorModel>(ErrorModel::BinaryPlist) <==> {
            &&& b.is_directory
            &&& !laws::goes_by_primary(b)
            &&& b.info is Ok || b.backup is Ok
            &&& b.backup matches Ok(xml) ==> analysis::is_binary(xml)
        },
        survey::analysis_of(b) == Err::<AnalysisModel, ErrorModel>(ErrorModel::NoBandSize) <==> {
            &&& b.is_directory
            &&& laws::goes_by_primary(b) || (b.backup matches Ok(xml) && !analysis::is_binary(xml))
            &&& plist::integer_value(laws::xml_used(b), "band-size"@) is None
        },
        forall|e: Seq<char>|
            #[trigger] survey::analysis_of(b) == Err::<AnalysisModel, ErrorModel>(
                ErrorModel::NoBandsDirectory(e),
            ) <==> {
                &&& b.is_directory
                &&& laws::goes_by_primary(b) || (b.backup matches Ok(xml) && !analysis::is_binary(
                    xml,
                ))
                &&& plist::integer_value(laws::xml_used(b), "band-size"@) is Some
                &&& b.listing == Err::<Seq<BandEntry>, Seq<char>>(e)
            },
{
    list_is_taken_at_its_word(laws::xml_used(b), !laws::goes_by_primary(b));
    image_errors_are_late(b);
}

/// What the image can go wrong with is no reason that comes earlier.
proof fn image_errors_are_late(b: Bundle)
    ensures
        forall|a: AnalysisModel|
            (#[trigger] survey::image_analysis(b, a)) matches Err(e) ==> e is Unreadable
                || e is OutOfRange,
{
    assert forall|a: AnalysisModel|
        ((#[trigger] survey::image_analysis(b, a)) matches Err(e) ==> e is Unreadable
            || e is OutOfRange) by {
        match b.read(a.band_size, 0, partition::HEAD_LEN as int) {
            Ok(head) => {
                late_partition_errors(b, a.band_size, partition::apm_entries(head, 1));
                match partition::gpt_table(head) {
                    Some(t) => {
                        match b.read(a.band_size, t.entry_lba * partition::SECTOR, t.len()) {
                            Ok(table) => {
                                late_partition_errors(
                                    b,
                                    a.band_size,
                                    partition::gpt_entries(
                                        table,
                                        t.entry_size as int,
                                        t.n_entries as nat,
                                    ),
                                );
                            },
                            Err(_) => {},
                        }
                    },
                    None => {},
                }
            },
            Err(_) => {},
        }
    }
}

/// So with partitions.
proof fn late_partition_errors(b: Bundle, size: u64, es: Seq<EntryModel>)
    ensures
        survey::partitions_at(b, size, es) matches Err(e) ==> e is Unreadable || e is OutOfRange,
    decreases es.len(),
{
    if es.len() > 0 {
        late_partition_errors(b, size, es.drop_first());
    }
}

/// The entry leads to bytes that 64 bits can address, and has a number of sectors.
pub open spec fn is_in_range(e: EntryModel) -> bool {
    512 * e.start_lba + 1024 <= u64::MAX && e.sectors is Some
}

/// Entries that are in range lead to partitions where every read succeeds.
proof fn entries_in_range_are_followed(b: Bundle, size: u64, es: Seq<EntryModel>)
    requires
        forall|offset: int, len: int| (#[trigger] (b.reads)(size, offset, len)) is Ok,
        forall|i: int| 0 <= i < es.len() ==> is_in_range(#[trigger] es[i]),
    ensures
        survey::partitions_at(b, size, es) is Ok,
    decreases es.len(),
{
    if es.len() > 0 {
        let rest = es.drop_first();
        assert forall|i: int| 0 <= i < rest.len() implies is_in_range(#[trigger] rest[i]) by {
            assert(rest[i] == es[i + 1]);
        }
        entries_in_range_are_followed(b, size, rest);
        assert(is_in_range(es[0]));
    }
}

/// An analysis is owed: where the property list gives a band size, the bands can be listed, every
/// read succeeds and the map leads to nothing beyond 64 bits, there is one.
pub proof fn analysis_is_owed(b: Bundle, size: u64)
    requires
        b.is_directory,
        laws::goes_by_primary(b) || (b.backup matches Ok(xml) && !analysis::is_binary(xml)),
        plist::integer_value(laws::xml_used(b), "band-size"@) == Some(size),
        b.listing is Ok,
        laws::bands_of(b).have_band_zero ==> {
            let head = (b.reads)(size, 0, 17408)->Ok_0;
            &&& size > 0
            &&& forall|offset: int, len: int| (#[trigger] (b.reads)(size, offset, len)) is Ok
            &&& partition::layout(head) is Gpt ==> (partition::gpt_table(head) matches Some(t)
                ==> 512 * t.entry_lba <= u64::MAX)
            &&& forall|i: int|
                0 <= i < entries_of(b, size).len() ==> is_in_range(
                    #[trigger] entries_of(b, size)[i],
                )
        },
    ensures
        survey::analysis_of(b) is Ok,
{
    list_is_taken_at_its_word(laws::xml_used(b), !laws::goes_by_primary(b));
    if laws::bands_of(b).have_band_zero {
        assert((b.reads)(size, 0, 17408) is Ok);
        entries_in_range_are_followed(b, size, entries_of(b, size));
        let head = (b.reads)(size, 0, 17408)->Ok_0;
        match partition::gpt_table(head) {
            Some(t) => {
                assert(t.entry_lba * partition::SECTOR == 512 * t.entry_lba);
                assert(t.len() == t.n_entries * t.entry_size);
                assert((b.reads)(size, 512 * t.entry_lba, t.n_entries * t.entry_size) is Ok);
            },
            None => {},
        }
    }
}

// ---------------------------------------------------------------------------
// Requests
// ---------------------------------------------------------------------------

/// A request is answered truly by what it names, and by nothing else.
pub proof fn request_names_what_answers_it(
    b: Bundle,
    size: u64,
    offset: u64,
    len: usize,
    reply: ReplyModel,
)
    ensures
        survey::holds(b, Request::IsDirectory, reply) <==> reply == ReplyModel::Directory(
            b.is_directory,
        ),
        survey::holds(b, Request::ReadInfo, reply) <==> reply == ReplyModel::Text(b.info),
        survey::holds(b, Request::ReadBackup, reply) <==> reply == ReplyModel::Text(b.backup),
        survey::holds(b, Request::ListBands, reply) <==> reply == ReplyModel::Listing(b.listing),
        survey::holds(b, Request::Read { band_size: size, offset, len }, reply) <==> reply
            == ReplyModel::Bytes((b.reads)(size, offset as int, len as int)),
        !survey::holds(b, Request::Nothing, reply),
        survey::holds(b, Request::IsDirectory, reply) ==> survey::replies_to(
            Request::IsDirectory,
            reply,
        ),
        survey::holds(b, Request::ReadInfo, reply) ==> survey::replies_to(Request::ReadInfo, reply),
        survey::holds(b, Request::ReadBackup, reply) ==> survey::replies_to(
            Request::ReadBackup,
            reply,
        ),
        survey::holds(b, Request::ListBands, reply) ==> survey::replies_to(
            Request::ListBands,
            reply,
        ),
        reads_in_full(b) && survey::holds(
            b,
            Request::Read { band_size: size, offset, len },
            reply,
        ) ==> survey::replies_to(Request::Read { band_size: size, offset, len }, reply),
{
}

/// What is known of the bundle in a state of the survey: where the backup is asked for it is the
/// copy to go by, and the band size is the one that the property list gives.
spec fn is_informed(b: Bundle, state: SurveyModel) -> bool {
    let stated = plist::integer_value(laws::xml_used(b), "band-size"@);
    match state {
        SurveyModel::Backup { .. } => !laws::goes_by_primary(b),
        SurveyModel::Bands(info) => stated == Some(info.band_size),
        SurveyModel::Head(draft) => stated == Some(draft.band_size),
        SurveyModel::Table(draft, _) => stated == Some(draft.band_size),
        SurveyModel::Probing(scan, _) => stated == Some(scan.draft.band_size),
        _ => true,
    }
}

/// A true reply keeps it so.
proof fn reply_keeps_informed(b: Bundle, state: SurveyModel, reply: ReplyModel)
    requires
        is_informed(b, state),
        survey::holds(b, state.asks(), reply),
    ensures
        is_informed(b, state.next(reply)),
{
    match (state, reply) {
        (SurveyModel::Primary, ReplyModel::Text(Ok(xml))) => {
            list_is_taken_at_its_word(xml, false);
        },
        (SurveyModel::Backup { .. }, ReplyModel::Text(Ok(xml))) => {
            list_is_taken_at_its_word(xml, true);
        },
        _ => {},
    }
}

/// Every read that a survey asks for is one in bands of the size that the property list gives.
pub proof fn reads_are_in_bands_of_the_stated_size(b: Bundle, replies: Seq<ReplyModel>)
    requires
        laws::told_truly(b, replies),
    ensures
        laws::after(replies).asks() matches Request::Read { band_size, offset: _, len: _ } ==> Some(
            band_size,
        ) == plist::integer_value(laws::xml_used(b), "band-size"@),
{
    survey_is_informed(b, replies);
}

/// So through the whole survey.
proof fn survey_is_informed(b: Bundle, replies: Seq<ReplyModel>)
    requires
        laws::told_truly(b, replies),
    ensures
        is_informed(b, laws::after(replies)),
    decreases replies.len(),
{
    if replies.len() > 0 {
        survey_is_informed(b, replies.drop_last());
        reply_keeps_informed(b, laws::after(replies.drop_last()), replies.last());
    }
}

} // verus!
