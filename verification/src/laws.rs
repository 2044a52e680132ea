//! What holds of every analysis; and, in the modules below, what each part of the library means by
//! itself.
use crate::analysis;
use crate::analysis::{AnalysisModel, BandEntry, ErrorModel, Health, InfoModel, Inventory};
use crate::apfs;
use crate::apfs::ApfsInfo;
use crate::band;
use crate::band::Image;
use crate::partition;
use crate::partition::{EntryModel, Layout, PartitionModel};
use crate::plist;
use crate::survey;
use crate::survey::{Bundle, ReplyModel, Request, ScanModel, StageModel, SurveyModel};
use crate::text;
use vstd::prelude::*;

pub mod fields;
pub mod images;
pub mod lists;
pub mod maps;
pub mod pages;
pub mod shown;
pub mod verdicts;
pub mod windows;
pub mod words;

verus! {

/// Entries that were all followed, but for those from the one in hand on, lead where the rest
/// leads, after what was found.
proof fn following_keeps_outcome(b: Bundle, scan: ScanModel)
    requires
        scan.found.len() <= scan.entries.len(),
    ensures
        survey::follow_from(scan).outcome(b) == survey::closed_with(
            scan.draft,
            scan.shown,
            survey::joined(
                scan.found,
                survey::partitions_at(
                    b,
                    scan.draft.band_size,
                    scan.entries.skip(scan.found.len() as int),
                ),
            ),
        ),
{
    let ahead = scan.entries.skip(scan.found.len() as int);
    if ahead.len() == 0 {
        assert(scan.found + Seq::<PartitionModel>::empty() == scan.found);
    } else {
        assert(ahead[0] == scan.current());
        let rest = scan.entries.skip(scan.found.len() as int + 1);
        assert(ahead.drop_first() == rest);
        match survey::partition_at(b, scan.draft.band_size, ahead[0]) {
            Ok(p) => {
                match survey::partitions_at(b, scan.draft.band_size, rest) {
                    Ok(ps) => {
                        assert(scan.found.push(p) + ps == scan.found + (seq![p] + ps));
                    },
                    Err(_) => {},
                }
            },
            Err(_) => {},
        }
    }
}

/// Following entries of which none was followed leads where all of them lead.
proof fn following_all_keeps_outcome(b: Bundle, scan: ScanModel)
    requires
        scan.found == Seq::<PartitionModel>::empty(),
    ensures
        survey::follow_from(scan).outcome(b) == survey::closed_with(
            scan.draft,
            scan.shown,
            survey::partitions_at(b, scan.draft.band_size, scan.entries),
        ),
{
    following_keeps_outcome(b, scan);
    assert(scan.entries.skip(0) == scan.entries);
    match survey::partitions_at(b, scan.draft.band_size, scan.entries) {
        Ok(ps) => {
            assert(Seq::<PartitionModel>::empty() + ps == ps);
        },
        Err(_) => {},
    }
}

/// Settling the entry in hand leads where that entry, as settled, and the rest lead.
proof fn settling_keeps_outcome(
    b: Bundle,
    scan: ScanModel,
    filesystem: Option<Seq<char>>,
    apfs: Option<ApfsInfo>,
)
    requires
        scan.wf(),
    ensures
        survey::settled(scan, filesystem, apfs).outcome(b) == scan.outcome(
            b,
            survey::found_there(scan.current(), filesystem, apfs),
        ),
{
    match survey::found_there(scan.current(), filesystem, apfs) {
        Ok(p) => {
            following_keeps_outcome(b, ScanModel { found: scan.found.push(p), ..scan });
        },
        Err(_) => {},
    }
}

/// No reply is wasted and none misleads: a reply that is what the bundle holds leads to a state
/// in which fewer questions may still come, the next one of which can be asked, and what the
/// survey ends in stays the same.
pub proof fn reply_keeps_outcome(b: Bundle, state: SurveyModel, reply: ReplyModel)
    requires
        state.wf(),
        survey::replies_to(state.asks(), reply),
        survey::holds(b, state.asks(), reply),
    ensures
        state.next(reply).wf(),
        state.next(reply).is_nearer(state),
        state.next(reply).outcome(b) == state.outcome(b),
{
    match (state, reply) {
        (SurveyModel::Head(draft), ReplyModel::Bytes(Ok(head))) => {
            following_all_keeps_outcome(
                b,
                ScanModel {
                    draft,
                    shown: Layout::Apm,
                    entries: partition::apm_entries(head, 1),
                    found: Seq::empty(),
                },
            );
        },
        (SurveyModel::Table(draft, t), _) => {
            t.len_is_bounded();
            match reply {
                ReplyModel::Bytes(Ok(table)) => {
                    following_all_keeps_outcome(
                        b,
                        ScanModel {
                            draft,
                            shown: Layout::Gpt,
                            entries: partition::gpt_entries(
                                table,
                                t.entry_size as int,
                                t.n_entries as nat,
                            ),
                            found: Seq::empty(),
                        },
                    );
                },
                _ => {},
            }
        },
        (SurveyModel::Probing(scan, stage), ReplyModel::Bytes(Ok(bytes))) => {
            match stage {
                StageModel::Start => {
                    settling_keeps_outcome(b, scan, Some("APFS"@), None);
                },
                StageModel::VolumeHeader => {
                    settling_keeps_outcome(b, scan, partition::hfs_name(bytes), None);
                },
                StageModel::Superblock => {
                    settling_keeps_outcome(b, scan, Some("APFS"@), apfs::superblock(bytes));
                },
            }
        },
        _ => {},
    }
}

/// The state of a survey after these replies.
pub open spec fn after(replies: Seq<ReplyModel>) -> SurveyModel
    decreases replies.len(),
{
    if replies.len() == 0 {
        SurveyModel::Start
    } else {
        after(replies.drop_last()).next(replies.last())
    }
}

/// Each reply is one to the request at that point, and is what the bundle holds.
pub open spec fn told_truly(b: Bundle, replies: Seq<ReplyModel>) -> bool
    decreases replies.len(),
{
    replies.len() > 0 ==> {
        let asked = after(replies.drop_last()).asks();
        &&& told_truly(b, replies.drop_last())
        &&& survey::replies_to(asked, replies.last())
        &&& survey::holds(b, asked, replies.last())
    }
}

/// A survey that was told what the bundle holds reports the analysis of the bundle: once it asks
/// nothing more it has the analysis, or the reason why there is none.
pub proof fn survey_reports_analysis(b: Bundle, replies: Seq<ReplyModel>)
    requires
        told_truly(b, replies),
    ensures
        after(replies).wf(),
        after(replies).outcome(b) == survey::analysis_of(b),
        after(replies).asks() is Nothing ==> after(replies) == SurveyModel::Done(
            survey::analysis_of(b),
        ),
    decreases replies.len(),
{
    if replies.len() > 0 {
        survey_reports_analysis(b, replies.drop_last());
        reply_keeps_outcome(b, after(replies.drop_last()), replies.last());
    }
}

/// The bundle has an analysis, and it is `a`.
pub open spec fn has_analysis(b: Bundle, a: AnalysisModel) -> bool {
    survey::analysis_of(b) == Ok::<AnalysisModel, ErrorModel>(a)
}

/// `Info.plist` is the copy to go by: it can be read, and is no binary list.
pub open spec fn goes_by_primary(b: Bundle) -> bool {
    b.info matches Ok(xml) && !analysis::is_binary(xml)
}

/// The text of the property list that is used.
pub open spec fn xml_used(b: Bundle) -> Seq<char> {
    if goes_by_primary(b) {
        b.info->Ok_0
    } else {
        b.backup->Ok_0
    }
}

/// What the property list that is used says.
pub open spec fn info_used(b: Bundle) -> InfoModel {
    analysis::bundle_info(xml_used(b), !goes_by_primary(b))->Ok_0
}

/// The inventory of the bundle's bands.
pub open spec fn bands_of(b: Bundle) -> Inventory {
    analysis::inventory(b.listing->Ok_0)
}

/// The start of the image.
pub open spec fn head_of(b: Bundle) -> Seq<u8> {
    (b.reads)(info_used(b).band_size, 0, partition::HEAD_LEN as int)->Ok_0
}

/// What the start of the image shows, where it is read.
pub open spec fn shown_by(b: Bundle) -> Option<Layout> {
    if bands_of(b).have_band_zero {
        Some(partition::layout(head_of(b)))
    } else {
        None
    }
}

/// Only an APFS filesystem has a container superblock.
pub open spec fn superblocks_are_apfs(ps: Seq<PartitionModel>) -> bool {
    forall|i: int|
        0 <= i < ps.len() ==> ((#[trigger] ps[i]).apfs is Some ==> ps[i].filesystem == Some(
            "APFS"@,
        ))
}

/// The partitions that map entries lead to have a superblock only where the filesystem is APFS.
proof fn followed_superblocks_are_apfs(b: Bundle, band_size: u64, es: Seq<EntryModel>)
    ensures
        survey::partitions_at(b, band_size, es) matches Ok(ps) ==> superblocks_are_apfs(ps),
    decreases es.len(),
{
    if es.len() > 0 {
        followed_superblocks_are_apfs(b, band_size, es.drop_first());
    }
}

/// How an analysis is put together: from the property list, the inventory and, where band 0 is
/// there, from the start of the image and the partitions it leads to.
proof fn analysis_parts(b: Bundle, a: AnalysisModel)
    requires
        has_analysis(b, a),
    ensures
        !goes_by_primary(b) ==> b.backup is Ok,
        b.listing is Ok,
        superblocks_are_apfs(a.partitions),
        !bands_of(b).have_band_zero ==> a.partitions == Seq::<PartitionModel>::empty(),
        bands_of(b).have_band_zero ==> {
            &&& a.band_size > 0
            &&& (b.reads)(a.band_size, 0, partition::HEAD_LEN as int) is Ok
            &&& survey::partitions_of(b, a.band_size, head_of(b)) == Ok::<
                Seq<PartitionModel>,
                ErrorModel,
            >(a.partitions)
        },
        a == analysis::closed(
            analysis::opened(info_used(b), bands_of(b)),
            shown_by(b),
            a.partitions,
        ),
{
    let size = info_used(b).band_size;
    if bands_of(b).have_band_zero {
        let head = head_of(b);
        followed_superblocks_are_apfs(b, size, partition::apm_entries(head, 1));
        match partition::gpt_table(head) {
            Some(t) => {
                match b.read(size, t.entry_lba * partition::SECTOR, t.len()) {
                    Ok(table) => {
                        followed_superblocks_are_apfs(
                            b,
                            size,
                            partition::gpt_entries(table, t.entry_size as int, t.n_entries as nat),
                        );
                    },
                    Err(_) => {},
                }
            },
            None => {},
        }
    }
}

// ---------------------------------------------------------------------------
// Notes
// ---------------------------------------------------------------------------

/// A note is among the notes.
pub open spec fn noted(a: AnalysisModel, note: Seq<char>) -> bool {
    a.notes.contains(note)
}

/// A note is in a sum of notes where it is in a part.
proof fn noted_in_sum(s: Seq<Seq<char>>, t: Seq<Seq<char>>, note: Seq<char>)
    ensures
        (s + t).contains(note) <==> s.contains(note) || t.contains(note),
{
    let sum = s + t;
    if s.contains(note) {
        assert(sum[s.index_of(note)] == note);
    }
    if t.contains(note) {
        assert(sum[s.len() + t.index_of(note)] == note);
    }
    if sum.contains(note) {
        let i = sum.index_of(note);
        if i < s.len() {
            assert(s[i] == note);
        } else {
            assert(t[i - s.len()] == note);
        }
    }
}

/// A note that stands under a condition.
proof fn noted_if(c: bool, own: Seq<char>, note: Seq<char>)
    ensures
        analysis::note_if(c, own).contains(note) <==> c && own == note,
{
    if c {
        assert(analysis::note_if(c, own)[0] == own);
    }
}

/// The property list gives this backing store version, and it is not the known one.
pub open spec fn gives_odd_version(xml: Seq<char>, v: u64) -> bool {
    plist::integer_value(xml, "bundle-backingstore-version"@) == Some(v) && v != 1
}

/// The property list gives this bundle type, and it does not name a sparsebundle.
pub open spec fn gives_odd_type(xml: Seq<char>, t: Seq<char>) -> bool {
    plist::string_value(xml, "diskimage-bundle-type"@) == Some(t) && !text::contains(
        t,
        "sparsebundle"@,
    )
}

/// Some reason to note `note` is there.
spec fn has_reason(b: Bundle, found: Seq<PartitionModel>, note: Seq<char>) -> bool {
    let inv = bands_of(b);
    let xml = xml_used(b);
    ||| !goes_by_primary(b) && note == analysis::recovered_note()
    ||| analysis::odd_version(xml) && note == analysis::version_note(
        plist::integer_value(xml, "bundle-backingstore-version"@)->0,
    )
    ||| analysis::odd_type(xml) && note == analysis::type_note(
        plist::string_value(xml, "diskimage-bundle-type"@)->0,
    )
    ||| !inv.any_file && note == analysis::no_bands_note()
    ||| inv.zero_length_bands > 0 && note == analysis::zero_length_note(inv.zero_length_bands)
    ||| !inv.have_band_zero && inv.any_file && note == analysis::no_band_zero_note()
    ||| shown_by(b) == Some(Layout::Apm) && note == analysis::apm_note()
    ||| analysis::map_is_missing(shown_by(b)) && note == analysis::damaged_note()
    ||| shown_by(b) == Some(Layout::Blank) && note == analysis::blank_note()
    ||| analysis::map_is_empty(shown_by(b), found) && note == analysis::empty_map_note()
    ||| analysis::keybag_seen(found) && note == analysis::keybag_note()
    ||| analysis::none_recognised(found) && note == analysis::no_filesystem_note()
}

/// A note is among the notes where there is a reason for it.
proof fn noted_with_reason(b: Bundle, a: AnalysisModel, note: Seq<char>)
    requires
        has_analysis(b, a),
    ensures
        noted(a, note) <==> has_reason(b, a.partitions, note),
{
    analysis_parts(b, a);
    let inv = bands_of(b);
    let xml = xml_used(b);
    let shown = shown_by(b);
    let found = a.partitions;
    let n1 = analysis::note_if(!goes_by_primary(b), analysis::recovered_note());
    let v = analysis::version_note(plist::integer_value(xml, "bundle-backingstore-version"@)->0);
    let n2 = analysis::note_if(analysis::odd_version(xml), v);
    let t = analysis::type_note(plist::string_value(xml, "diskimage-bundle-type"@)->0);
    let n3 = analysis::note_if(analysis::odd_type(xml), t);
    let n4 = analysis::note_if(!inv.any_file, analysis::no_bands_note());
    let z = analysis::zero_length_note(inv.zero_length_bands);
    let n5 = analysis::note_if(inv.zero_length_bands > 0, z);
    let n6 = analysis::note_if(
        !inv.have_band_zero && inv.any_file,
        analysis::no_band_zero_note(),
    );
    let n7 = analysis::note_if(shown == Some(Layout::Apm), analysis::apm_note());
    let n8 = analysis::note_if(analysis::map_is_missing(shown), analysis::damaged_note());
    let n9 = analysis::note_if(shown == Some(Layout::Blank), analysis::blank_note());
    let n10 = analysis::note_if(analysis::map_is_empty(shown, found), analysis::empty_map_note());
    let n11 = analysis::note_if(analysis::keybag_seen(found), analysis::keybag_note());
    let n12 = analysis::note_if(analysis::none_recognised(found), analysis::no_filesystem_note());
    assert(a.notes == n1 + n2 + n3 + n4 + n5 + n6 + n7 + n8 + n9 + n10 + n11 + n12);
    noted_in_sum(n1, n2, note);
    noted_in_sum(n1 + n2, n3, note);
    noted_in_sum(n1 + n2 + n3, n4, note);
    noted_in_sum(n1 + n2 + n3 + n4, n5, note);
    noted_in_sum(n1 + n2 + n3 + n4 + n5, n6, note);
    noted_in_sum(n1 + n2 + n3 + n4 + n5 + n6, n7, note);
    noted_in_sum(n1 + n2 + n3 + n4 + n5 + n6 + n7, n8, note);
    noted_in_sum(n1 + n2 + n3 + n4 + n5 + n6 + n7 + n8, n9, note);
    noted_in_sum(n1 + n2 + n3 + n4 + n5 + n6 + n7 + n8 + n9, n10, note);
    noted_in_sum(n1 + n2 + n3 + n4 + n5 + n6 + n7 + n8 + n9 + n10, n11, note);
    noted_in_sum(n1 + n2 + n3 + n4 + n5 + n6 + n7 + n8 + n9 + n10 + n11, n12, note);
    noted_if(!goes_by_primary(b), analysis::recovered_note(), note);
    noted_if(analysis::odd_version(xml), v, note);
    noted_if(analysis::odd_type(xml), t, note);
    noted_if(!inv.any_file, analysis::no_bands_note(), note);
    noted_if(inv.zero_length_bands > 0, z, note);
    noted_if(!inv.have_band_zero && inv.any_file, analysis::no_band_zero_note(), note);
    noted_if(shown == Some(Layout::Apm), analysis::apm_note(), note);
    noted_if(analysis::map_is_missing(shown), analysis::damaged_note(), note);
    noted_if(shown == Some(Layout::Blank), analysis::blank_note(), note);
    noted_if(analysis::map_is_empty(shown, found), analysis::empty_map_note(), note);
    noted_if(analysis::keybag_seen(found), analysis::keybag_note(), note);
    noted_if(analysis::none_recognised(found), analysis::no_filesystem_note(), note);
}

/// What tells the notes apart: their opening words.
proof fn openings_differ()
    ensures
        analysis::recovered_note()[0] == 'I',
        analysis::no_bands_note().len() > 5,
        analysis::no_bands_note()[0] == 'b',
        analysis::no_bands_note()[4] == 's',
        analysis::no_band_zero_note().len() > 8,
        analysis::no_band_zero_note()[0] == 'b',
        analysis::no_band_zero_note()[4] == ' ',
        analysis::no_band_zero_note()[7] == 'a',
        analysis::apm_note()[0] == 'A',
        analysis::damaged_note()[0] == 'n',
        analysis::blank_note().len() > 8,
        analysis::blank_note()[0] == 'b',
        analysis::blank_note()[4] == ' ',
        analysis::blank_note()[7] == 'i',
        analysis::empty_map_note()[0] == 'p',
        analysis::empty_map_note()[9] == ' ',
        analysis::keybag_note()[0] == 'c',
        analysis::no_filesystem_note()[0] == 'p',
        analysis::no_filesystem_note()[9] == 's',
        forall|v: u64| (#[trigger] analysis::version_note(v))[0] == 'u',
        forall|v: u64| (#[trigger] analysis::version_note(v))[17] == '-',
        forall|t: Seq<char>| (#[trigger] analysis::type_note(t))[0] == 'u',
        forall|t: Seq<char>| (#[trigger] analysis::type_note(t))[17] == ' ',
        forall|n: usize| '0' <= (#[trigger] analysis::zero_length_note(n))[0] <= '9',
{
    reveal_strlit("Info.plist unreadable — recovered from Info.bckup");
    reveal_strlit("bands/ is empty — no data at all");
    reveal_strlit("band 0 absent — partition map unreadable, image cannot mount");
    reveal_strlit("Apple Partition Map (pre-GPT layout)");
    reveal_strlit("no GPT or APM signature at offset 0 — partition map damaged");
    reveal_strlit("band 0 is entirely zero — image was never formatted");
    reveal_strlit("partition map lists no usable partition — no filesystem found");
    reveal_strlit(
        "container keybag observed — encryption is in play; contents may not be readable without a key",
    );
    reveal_strlit(
        "partitions found but no recognised filesystem — this is what 'no mountable file systems' means",
    );
    reveal_strlit("unexpected bundle-backingstore-version ");
    reveal_strlit("unexpected bundle type ");
    assert forall|n: usize| '0' <= (#[trigger] analysis::zero_length_note(n))[0] <= '9' by {
        text::digits_write_number(n as nat, 10);
        let d = text::decimal(n as nat);
        assert(text::digit_value(d[0], 10) is Some);
        assert(analysis::zero_length_note(n)[0] == d[0]);
    }
}

/// Notes on different versions, types or numbers differ.
proof fn notes_show_values()
    ensures
        forall|v: u64, w: u64|
            #[trigger] analysis::version_note(v) == #[trigger] analysis::version_note(w) ==> v == w,
        forall|t: Seq<char>, u: Seq<char>|
            #[trigger] analysis::type_note(t) == #[trigger] analysis::type_note(u) ==> t == u,
        forall|n: usize, m: usize|
            #[trigger] analysis::zero_length_note(n) == #[trigger] analysis::zero_length_note(m)
                ==> n == m,
{
    assert forall|v: u64, w: u64| #[trigger]
        analysis::version_note(v) == #[trigger] analysis::version_note(w) implies v == w by {
        let head = "unexpected bundle-backingstore-version "@;
        let tail = " (expected 1)"@;
        same_middle(head, text::decimal(v as nat), text::decimal(w as nat), tail);
        text::digits_write_number(v as nat, 10);
        text::digits_write_number(w as nat, 10);
    }
    assert forall|t: Seq<char>, u: Seq<char>| #[trigger]
        analysis::type_note(t) == #[trigger] analysis::type_note(u) implies t == u by {
        let head = "unexpected bundle type "@;
        assert(head + t + Seq::<char>::empty() == head + t);
        assert(head + u + Seq::<char>::empty() == head + u);
        same_middle(head, t, u, Seq::empty());
    }
    assert forall|n: usize, m: usize| #[trigger]
        analysis::zero_length_note(n) == #[trigger] analysis::zero_length_note(m) implies n
        == m by {
        let head = Seq::<char>::empty();
        let tail = " zero-length bands — signature of a truncated copy"@;
        let d = text::decimal(n as nat);
        let e = text::decimal(m as nat);
        assert(head + d == d && head + e == e);
        same_middle(head, d, e, tail);
        text::digits_write_number(n as nat, 10);
        text::digits_write_number(m as nat, 10);
    }
}

/// Equal texts with the same start and the same end have the same middle.
proof fn same_middle(head: Seq<char>, s: Seq<char>, t: Seq<char>, tail: Seq<char>)
    requires
        head + s + tail == head + t + tail,
    ensures
        s == t,
{
    let whole = head + s + tail;
    assert(whole.len() == (head + t + tail).len());
    assert(whole.subrange(head.len() as int, (head.len() + s.len()) as int) == s);
    assert((head + t + tail).subrange(head.len() as int, (head.len() + t.len()) as int) == t);
}

/// Every note means what it says, and nothing goes unsaid: each note stands exactly where its
/// condition holds.
pub proof fn notes_are_exact(b: Bundle, a: AnalysisModel)
    requires
        has_analysis(b, a),
    ensures
        noted(a, analysis::recovered_note()) <==> !goes_by_primary(b),
        forall|v: u64|
            noted(a, #[trigger] analysis::version_note(v)) <==> gives_odd_version(xml_used(b), v),
        forall|t: Seq<char>|
            noted(a, #[trigger] analysis::type_note(t)) <==> gives_odd_type(xml_used(b), t),
        noted(a, analysis::no_bands_note()) <==> !bands_of(b).any_file,
        forall|n: usize|
            noted(a, #[trigger] analysis::zero_length_note(n)) <==> n == a.zero_length_bands && n
                > 0,
        noted(a, analysis::no_band_zero_note()) <==> !bands_of(b).have_band_zero && bands_of(
            b,
        ).any_file,
        noted(a, analysis::apm_note()) <==> shown_by(b) == Some(Layout::Apm),
        noted(a, analysis::damaged_note()) <==> analysis::map_is_missing(shown_by(b)),
        noted(a, analysis::blank_note()) <==> shown_by(b) == Some(Layout::Blank),
        noted(a, analysis::empty_map_note()) <==> analysis::map_is_empty(
            shown_by(b),
            a.partitions,
        ),
        noted(a, analysis::keybag_note()) <==> analysis::keybag_seen(a.partitions),
        noted(a, analysis::no_filesystem_note()) <==> analysis::none_recognised(a.partitions),
{
    openings_differ();
    notes_show_values();
    analysis_parts(b, a);
    assert forall|note: Seq<char>| #[trigger] noted(a, note) <==> has_reason(
        b,
        a.partitions,
        note,
    ) by {
        noted_with_reason(b, a, note);
    }
}

/// What can keep a bundle from being sound.
proof fn fault_has_cause(b: Bundle, a: AnalysisModel)
    requires
        has_analysis(b, a),
        a.health != Health::Sound,
    ensures
        ({
            ||| !goes_by_primary(b)
            ||| analysis::odd_version(xml_used(b))
            ||| !bands_of(b).any_file
            ||| a.zero_length_bands > 0
            ||| !bands_of(b).have_band_zero
            ||| analysis::map_is_missing(shown_by(b))
            ||| analysis::map_is_empty(shown_by(b), a.partitions)
            ||| analysis::keybag_seen(a.partitions)
            ||| analysis::none_recognised(a.partitions)
        }),
{
    analysis_parts(b, a);
}

/// The verdict is explained: a health other than sound comes with a note.
pub proof fn fault_is_explained(b: Bundle, a: AnalysisModel)
    requires
        has_analysis(b, a),
        a.health != Health::Sound,
    ensures
        a.notes.len() > 0,
{
    fault_has_cause(b, a);
    notes_are_exact(b, a);
    let v = plist::integer_value(xml_used(b), "bundle-backingstore-version"@)->0;
    assert(analysis::odd_version(xml_used(b)) ==> noted(a, analysis::version_note(v)));
    assert(a.zero_length_bands > 0 ==> noted(
        a,
        analysis::zero_length_note(a.zero_length_bands),
    ));
}

// ---------------------------------------------------------------------------
// Health
// ---------------------------------------------------------------------------

/// A bundle without band 0 is unusable: nothing is found in it, and a note names the missing
/// band, or says that there is no file at all.
pub proof fn missing_band_zero_is_unusable(b: Bundle, a: AnalysisModel)
    requires
        has_analysis(b, a),
        !bands_of(b).have_band_zero,
    ensures
        a.health == Health::Unusable,
        a.partitions == Seq::<PartitionModel>::empty(),
        noted(
            a,
            if bands_of(b).any_file {
                analysis::no_band_zero_note()
            } else {
                analysis::no_bands_note()
            },
        ),
{
    analysis_parts(b, a);
    notes_are_exact(b, a);
}

/// Bands without contents are noted with their number, and the bundle is unusable unless a
/// container keybag, which has the last word, makes it suspect.
pub proof fn truncated_copy_is_never_sound(b: Bundle, a: AnalysisModel)
    requires
        has_analysis(b, a),
        a.zero_length_bands > 0,
    ensures
        noted(a, analysis::zero_length_note(a.zero_length_bands)),
        a.health == (if analysis::keybag_seen(a.partitions) {
            Health::Suspect
        } else {
            Health::Unusable
        }),
{
    analysis_parts(b, a);
    notes_are_exact(b, a);
    keybag_has_filesystem(a.partitions);
}

/// Where a keybag is seen a filesystem is recognised.
proof fn keybag_has_filesystem(ps: Seq<PartitionModel>)
    requires
        superblocks_are_apfs(ps),
    ensures
        analysis::keybag_seen(ps) ==> !analysis::none_recognised(ps),
{
    if analysis::keybag_seen(ps) {
        let i = choose|i: int|
            0 <= i < ps.len() && ((#[trigger] ps[i]).apfs matches Some(x) && x.has_keybag());
        assert(ps[i].filesystem is Some);
    }
}

/// An image with a container keybag is suspect, and a note says so; the note comes from nothing
/// else.
pub proof fn encrypted_image_is_suspect(b: Bundle, a: AnalysisModel)
    requires
        has_analysis(b, a),
    ensures
        analysis::keybag_seen(a.partitions) ==> a.health == Health::Suspect,
        noted(a, analysis::keybag_note()) <==> analysis::keybag_seen(a.partitions),
{
    analysis_parts(b, a);
    notes_are_exact(b, a);
    keybag_has_filesystem(a.partitions);
}

/// Partitions of which none holds a recognised filesystem make the bundle unusable, and a note
/// says so; the note comes from nothing else.
pub proof fn unrecognised_filesystem_is_unusable(b: Bundle, a: AnalysisModel)
    requires
        has_analysis(b, a),
    ensures
        analysis::none_recognised(a.partitions) ==> a.health == Health::Unusable,
        noted(a, analysis::no_filesystem_note()) <==> analysis::none_recognised(a.partitions),
{
    analysis_parts(b, a);
    notes_are_exact(b, a);
}

/// An image that begins with neither a GPT nor an Apple Partition Map is unusable, and a note says
/// that neither signature is there; another says so where it was never formatted. Nothing is found
/// in it.
pub proof fn image_without_map_is_unusable(b: Bundle, a: AnalysisModel)
    requires
        has_analysis(b, a),
        bands_of(b).have_band_zero,
        partition::layout(head_of(b)) is Blank || partition::layout(head_of(b)) is Unknown,
    ensures
        a.health == Health::Unusable,
        a.partitions == Seq::<PartitionModel>::empty(),
        noted(a, analysis::damaged_note()),
        text::contains(analysis::damaged_note(), "no GPT or APM signature"@),
        noted(a, analysis::blank_note()) <==> partition::layout(head_of(b)) is Blank,
{
    analysis_parts(b, a);
    notes_are_exact(b, a);
    assert(!analysis::keybag_seen(a.partitions));
    reveal_strlit("no GPT or APM signature at offset 0 — partition map damaged");
    reveal_strlit("no GPT or APM signature");
    let note = analysis::damaged_note();
    let words = "no GPT or APM signature"@;
    assert(note.subrange(0, words.len() as int) == words);
    assert(text::occurs_at(note, words, 0));
}

/// A partition map that leads to no partition does not make a bundle sound, and a note says so.
pub proof fn empty_map_is_not_sound(b: Bundle, a: AnalysisModel)
    requires
        has_analysis(b, a),
        analysis::map_is_empty(shown_by(b), a.partitions),
    ensures
        a.health != Health::Sound,
        noted(a, analysis::empty_map_note()),
{
    analysis_parts(b, a);
    notes_are_exact(b, a);
}

/// A bundle is called sound only where `Info.plist` itself was used, band 0 is there, no band is
/// empty, the image begins with a partition map, a known filesystem was found and no keybag was
/// seen.
pub proof fn sound_means_map_and_filesystem(b: Bundle, a: AnalysisModel)
    requires
        has_analysis(b, a),
    ensures
        a.health == Health::Sound ==> analysis::filesystem_seen(a.partitions),
        a.health == Health::Sound ==> {
            &&& goes_by_primary(b)
            &&& a.info_source == "Info.plist"@
            &&& b.listing->Ok_0.len() <= usize::MAX ==> a.band_count > 0
            &&& a.zero_length_bands == 0
            &&& bands_of(b).have_band_zero
            &&& partition::layout(head_of(b)) is Gpt || partition::layout(head_of(b)) is Apm
            &&& !analysis::keybag_seen(a.partitions)
        },
{
    analysis_parts(b, a);
    if bands_of(b).have_band_zero && b.listing->Ok_0.len() <= usize::MAX {
        band_zero_counts(b.listing->Ok_0);
    }
}

// ---------------------------------------------------------------------------
// The property list
// ---------------------------------------------------------------------------

/// `Info.bckup` is the recovery path: where `Info.plist` cannot be read, or is a binary list, an
/// analysis comes from the backup, says so in its first note, and is not called sound.
pub proof fn backup_recovers_info(b: Bundle, a: AnalysisModel)
    requires
        has_analysis(b, a),
        !goes_by_primary(b),
    ensures
        b.backup matches Ok(xml) && !analysis::is_binary(xml),
        a.info_source == "Info.bckup"@,
        a.health != Health::Sound,
        a.notes.len() > 0,
        a.notes[0] == analysis::recovered_note(),
{
    analysis_parts(b, a);
    let info = info_used(b);
    assert(info.notes[0] == analysis::recovered_note());
    assert(analysis::opened(info, bands_of(b)).notes[0] == info.notes[0]);
}

/// A bundle whose `Info.plist` is a binary list is analysed as one whose `Info.plist` cannot be
/// read, as far as there is a backup.
pub proof fn binary_plist_falls_back(b: Bundle, xml: Seq<char>, reason: Seq<char>)
    requires
        b.info == Ok::<Seq<char>, Seq<char>>(xml),
        analysis::is_binary(xml),
        b.backup is Ok,
    ensures
        survey::analysis_of(b) == survey::analysis_of(Bundle { info: Err(reason), ..b }),
{
    let c = Bundle { info: Err(reason), ..b };
    match analysis::bundle_info(b.backup->Ok_0, true) {
        Ok(info) => {
            same_reads_same_bands(b, c, info);
        },
        Err(_) => {},
    }
}

/// A binary property list is never parsed: where `Info.plist` is one, and the backup is one too or
/// cannot be read, there is no analysis.
pub proof fn binary_plist_is_refused(b: Bundle)
    requires
        b.is_directory,
        b.info matches Ok(xml) && analysis::is_binary(xml),
        b.backup matches Ok(xml) ==> analysis::is_binary(xml),
    ensures
        survey::analysis_of(b) == Err::<AnalysisModel, ErrorModel>(ErrorModel::BinaryPlist),
{
}

/// A bundle of which neither copy of the property list can be read has no analysis, and the
/// reason is the backup's.
pub proof fn both_copies_gone_is_fatal(b: Bundle)
    requires
        b.is_directory,
        b.info is Err,
        b.backup is Err,
    ensures
        survey::analysis_of(b) == Err::<AnalysisModel, ErrorModel>(
            ErrorModel::InfoUnreadable(b.backup->Err_0),
        ),
{
}

/// The backup does not matter where `Info.plist` can be read and is no binary list.
pub proof fn backup_is_not_consulted(b: Bundle, backup: Result<Seq<char>, Seq<char>>)
    requires
        goes_by_primary(b),
    ensures
        survey::analysis_of(Bundle { backup, ..b }) == survey::analysis_of(b),
{
    let c = Bundle { backup, ..b };
    match analysis::bundle_info(xml_used(b), false) {
        Ok(info) => {
            same_reads_same_bands(b, c, info);
        },
        Err(_) => {},
    }
}

/// What the map entries lead to depends on what is read of the image alone.
proof fn same_reads_same_partitions(b: Bundle, c: Bundle, band_size: u64, es: Seq<EntryModel>)
    requires
        b.reads == c.reads,
    ensures
        survey::partitions_at(b, band_size, es) == survey::partitions_at(c, band_size, es),
    decreases es.len(),
{
    if es.len() > 0 {
        same_reads_same_partitions(b, c, band_size, es.drop_first());
    }
}

/// The partitions of an image depend on what is read of it alone.
proof fn same_partitions_of(b: Bundle, c: Bundle, band_size: u64, head: Seq<u8>)
    requires
        b.reads == c.reads,
    ensures
        survey::partitions_of(b, band_size, head) == survey::partitions_of(c, band_size, head),
{
    same_reads_same_partitions(b, c, band_size, partition::apm_entries(head, 1));
    match partition::gpt_table(head) {
        Some(t) => {
            match b.read(band_size, t.entry_lba * partition::SECTOR, t.len()) {
                Ok(table) => {
                    same_reads_same_partitions(
                        b,
                        c,
                        band_size,
                        partition::gpt_entries(table, t.entry_size as int, t.n_entries as nat),
                    );
                },
                Err(_) => {},
            }
        },
        None => {},
    }
}

/// What follows the property list depends on the bands alone.
proof fn same_reads_same_bands(b: Bundle, c: Bundle, info: InfoModel)
    requires
        b.reads == c.reads,
        b.listing == c.listing,
    ensures
        survey::band_analysis(b, info) == survey::band_analysis(c, info),
{
    match b.read(info.band_size, 0, partition::HEAD_LEN as int) {
        Ok(head) => {
            same_partitions_of(b, c, info.band_size, head);
        },
        Err(_) => {},
    }
}

/// Two analyses, or reasons why there is none, that differ in the declared size at most.
pub open spec fn same_but_for_size(x: survey::Outcome, y: survey::Outcome) -> bool {
    match (x, y) {
        (Ok(a), Ok(c)) => c == (AnalysisModel { declared_size: c.declared_size, ..a }),
        (Err(m), Err(n)) => m == n,
        _ => false,
    }
}

/// The size that a property list declares: 0 where it gives none that can be read.
pub open spec fn declared_by(xml: Seq<char>) -> u64 {
    match plist::integer_value(xml, "size"@) {
        Some(n) => n,
        None => 0,
    }
}

/// Of two property lists the second is the first with other text under `size`, be it an integer
/// or not.
pub open spec fn resized(x: Seq<char>, y: Seq<char>) -> bool {
    &&& plist::has_plain_size(x)
    &&& plist::size_stands_alone(x)
    &&& exists|t: Seq<char>| plist::is_plain(t) && y == #[trigger] plist::with_size(x, t)
}

/// Of two copies the second is the first, or the first with other text under `size`.
pub open spec fn resized_copy(
    x: Result<Seq<char>, Seq<char>>,
    y: Result<Seq<char>, Seq<char>>,
) -> bool {
    x == y || (x matches Ok(s) && y matches Ok(t) && resized(s, t))
}

/// What a property list says, and what it says with other text under `size`.
proof fn resized_info(x: Seq<char>, y: Seq<char>, from_backup: bool)
    requires
        resized(x, y),
    ensures
        analysis::is_binary(x) == analysis::is_binary(y),
        match (analysis::bundle_info(x, from_backup), analysis::bundle_info(y, from_backup)) {
            (Ok(i), Ok(j)) => j == (InfoModel { declared_size: j.declared_size, ..i }),
            (Err(m), Err(n)) => m == n,
            _ => false,
        },
{
    let t = choose|t: Seq<char>| plist::is_plain(t) && y == #[trigger] plist::with_size(x, t);
    reveal_strlit("bplist00");
    plist::size_is_read_alone(x, t);
}

/// An analysis from the property list on, and with another declared size.
proof fn size_passes_through(b: Bundle, c: Bundle, info: InfoModel, size: u64)
    requires
        b.reads == c.reads,
        b.listing == c.listing,
    ensures
        same_but_for_size(
            survey::band_analysis(b, info),
            survey::band_analysis(c, InfoModel { declared_size: size, ..info }),
        ),
{
    same_reads_same_bands(b, c, InfoModel { declared_size: size, ..info });
}

/// The declared size is a ceiling that the image may never reach, and `token` is not a lock:
/// whatever text stands under `size`, in either copy of the property list, and whatever `token`
/// holds, an analysis differs in that figure alone. The figure is the integer that stands there,
/// and 0 where none does.
pub proof fn declared_size_is_no_fault(b: Bundle, c: Bundle)
    requires
        b.is_directory == c.is_directory,
        resized_copy(b.info, c.info),
        resized_copy(b.backup, c.backup),
        b.listing == c.listing,
        b.reads == c.reads,
    ensures
        same_but_for_size(survey::analysis_of(b), survey::analysis_of(c)),
        survey::analysis_of(b) matches Ok(a) ==> a.declared_size == declared_by(xml_used(b)),
        survey::analysis_of(c) matches Ok(a) ==> a.declared_size == declared_by(xml_used(c)),
{
    match survey::analysis_of(b) {
        Ok(a) => {
            analysis_parts(b, a);
        },
        Err(_) => {},
    }
    match survey::analysis_of(c) {
        Ok(a) => {
            analysis_parts(c, a);
        },
        Err(_) => {},
    }
    if b.info is Ok && b.info != c.info {
        resized_info(b.info->Ok_0, c.info->Ok_0, false);
    }
    if b.backup is Ok && b.backup != c.backup {
        resized_info(b.backup->Ok_0, c.backup->Ok_0, true);
    }
    match analysis::bundle_info(xml_used(b), !goes_by_primary(b)) {
        Ok(info) => {
            match analysis::bundle_info(xml_used(c), !goes_by_primary(c)) {
                Ok(other) => {
                    size_passes_through(b, c, info, other.declared_size);
                },
                Err(_) => {},
            }
        },
        Err(_) => {},
    }
}

/// Other text under `size` in the `Info.plist` that is used changes the declared size of an
/// analysis to the integer it writes, or to 0 where it writes none, and nothing else.
pub proof fn declared_size_is_what_stands_there(b: Bundle, a: AnalysisModel, t: Seq<char>)
    requires
        has_analysis(b, a),
        goes_by_primary(b),
        plist::has_plain_size(xml_used(b)),
        plist::size_stands_alone(xml_used(b)),
        plist::is_plain(t),
    ensures
        has_analysis(
            Bundle { info: Ok(plist::with_size(xml_used(b), t)), ..b },
            AnalysisModel {
                declared_size: match text::parse_u64(text::trim(t), 10) {
                    Some(n) => n,
                    None => 0,
                },
                ..a
            },
        ),
{
    let xml = xml_used(b);
    let c = Bundle { info: Ok(plist::with_size(xml, t)), ..b };
    assert(resized(xml, plist::with_size(xml, t)));
    resized_info(xml, plist::with_size(xml, t), false);
    plist::size_is_read_alone(xml, t);
    declared_size_is_no_fault(b, c);
}

/// `token` is an ordinary file, not a lock: whether it is there, and what it holds, changes
/// nothing.
pub proof fn token_is_not_a_lock(b: Bundle, token: Option<Seq<u8>>)
    ensures
        survey::analysis_of(Bundle { token, ..b }) == survey::analysis_of(b),
{
    let c = Bundle { token, ..b };
    match analysis::bundle_info(xml_used(b), !goes_by_primary(b)) {
        Ok(info) => {
            same_reads_same_bands(b, c, info);
        },
        Err(_) => {},
    }
}

// ---------------------------------------------------------------------------
// The bands
// ---------------------------------------------------------------------------

/// Band 0 is a file, and is counted among the bands.
proof fn band_zero_counts(entries: Seq<BandEntry>)
    requires
        entries.len() <= usize::MAX,
        analysis::inventory(entries).have_band_zero,
    ensures
        analysis::inventory(entries).band_count > 0,
        analysis::inventory(entries).any_file,
{
    let is_band = |e: BandEntry| e.is_band();
    let i = choose|i: int| 0 <= i < entries.len() && (#[trigger] entries[i]).is_band_zero();
    assert(is_band(entries[i]));
    assert(entries[i].is_file());
    entries.lemma_filter_contains(is_band, i);
    entries.lemma_filter_len(is_band);
}

/// Absent bands are never evidence of damage: of two bundles that differ only in which bands
/// besides band 0 are listed, none of them empty, both have an analysis or neither has, and the
/// analyses differ in the number of bands alone.
pub proof fn absent_bands_are_not_damage(b: Bundle, listing: Seq<BandEntry>)
    requires
        b.listing matches Ok(entries) && entries.len() <= usize::MAX,
        bands_of(b).have_band_zero,
        bands_of(b).zero_length_bands == 0,
        listing.len() <= usize::MAX,
        analysis::inventory(listing).have_band_zero,
        analysis::inventory(listing).zero_length_bands == 0,
    ensures
        ({
            let c = Bundle { listing: Ok(listing), ..b };
            match (survey::analysis_of(b), survey::analysis_of(c)) {
                (Ok(x), Ok(y)) => y == (AnalysisModel {
                    band_count: analysis::inventory(listing).band_count,
                    ..x
                }),
                (Err(x), Err(y)) => x == y,
                _ => false,
            }
        }),
{
    let c = Bundle { listing: Ok(listing), ..b };
    band_zero_counts(b.listing->Ok_0);
    band_zero_counts(listing);
    same_partitions_of(b, c, info_used(b).band_size, head_of(b));
}

/// The names in a directory listing.
pub open spec fn names_of(entries: Seq<BandEntry>) -> Seq<Seq<char>> {
    entries.map_values(|e: BandEntry| e.name@)
}

/// The inventory counts what the list of bands holds, where all entries are files: as many bands
/// as there are bands among the names.
pub proof fn inventory_counts_bands(entries: Seq<BandEntry>)
    requires
        entries.len() <= usize::MAX,
        forall|i: int|
            0 <= i < entries.len() ==> ((#[trigger] entries[i]).facts matches Some(f) && f.is_file),
    ensures
        analysis::inventory(entries).band_count == band::bands_named(names_of(entries)).len(),
{
    bands_are_counted(entries);
    entries.lemma_filter_len(|e: BandEntry| e.is_band());
}

/// As many entries count as bands as there are bands among the names.
proof fn bands_are_counted(entries: Seq<BandEntry>)
    requires
        forall|i: int|
            0 <= i < entries.len() ==> ((#[trigger] entries[i]).facts matches Some(f) && f.is_file),
    ensures
        entries.filter(|e: BandEntry| e.is_band()).len() == band::bands_named(
            names_of(entries),
        ).len(),
    decreases entries.len(),
{
    reveal(Seq::filter);
    if entries.len() > 0 {
        let earlier = entries.drop_last();
        assert forall|i: int| 0 <= i < earlier.len() implies ((
        #[trigger] earlier[i]).facts matches Some(f) && f.is_file) by {
            assert(earlier[i] == entries[i]);
        }
        bands_are_counted(earlier);
        assert(names_of(entries).drop_last() == names_of(earlier));
        assert(names_of(entries).last() == entries.last().name@);
    }
}

// ---------------------------------------------------------------------------
// The image
// ---------------------------------------------------------------------------

/// What is read of the bundle are the bytes of the image that these band files hold.
pub open spec fn holds_image(b: Bundle, bands: Map<nat, Seq<u8>>) -> bool {
    forall|band_size: u64, offset: int, len: int|
        0 <= offset && 0 <= len ==> #[trigger] (b.reads)(band_size, offset, len) == Ok::<
            Seq<u8>,
            Seq<char>,
        >(Image { band_size: band_size as nat, bands }.read(offset as nat, len as nat))
}

/// A read that a survey asks for is answered by putting together what the band files hold of its
/// pieces.
pub proof fn pieces_answer_request(
    b: Bundle,
    bands: Map<nat, Seq<u8>>,
    band_size: u64,
    offset: u64,
    len: usize,
)
    requires
        holds_image(b, bands),
        band_size > 0,
        (Image { band_size: band_size as nat, bands }).reaches(offset as nat, len as nat),
    ensures
        ({
            let image = Image { band_size: band_size as nat, bands };
            let ps = band::pieces(band_size as nat, offset as nat, len as nat);
            survey::holds(
                b,
                Request::Read { band_size, offset, len },
                ReplyModel::Bytes(
                    Ok(band::zero_filled(band::joined(ps, image.held_of(ps)), len as nat)),
                ),
            )
        }),
{
    let image = Image { band_size: band_size as nat, bands };
    band::pieces_make_read(image, offset as nat, len as nat);
}

/// Band 0 contains the partition map: the start of the image is the start of band 0, wherever a
/// band is as long as the partition map at least.
pub proof fn map_lies_in_band_zero(b: Bundle, bands: Map<nat, Seq<u8>>)
    requires
        holds_image(b, bands),
        info_used(b).band_size >= partition::HEAD_LEN,
        bands.dom().contains(0),
    ensures
        head_of(b) == band::zero_filled(bands[0], partition::HEAD_LEN as nat),
{
    let size = info_used(b).band_size as nat;
    let image = Image { band_size: size, bands };
    let head = head_of(b);
    assert((b.reads)(info_used(b).band_size, 0, partition::HEAD_LEN as int) is Ok);
    assert(head == image.read(0, partition::HEAD_LEN as nat));
    assert forall|i: int| 0 <= i < partition::HEAD_LEN implies #[trigger] head[i]
        == band::zero_filled(bands[0], partition::HEAD_LEN as nat)[i] by {
        vstd::arithmetic::div_mod::lemma_basic_div(i, size as int);
        vstd::arithmetic::div_mod::lemma_small_mod(i as nat, size);
    }
}

/// Every slot of a GPT has the superblock of a container read.
proof fn gpt_reads_superblocks(table: Seq<u8>, entry_size: int, n: nat)
    ensures
        forall|i: int|
            0 <= i < partition::gpt_entries(table, entry_size, n).len() ==> (
            #[trigger] partition::gpt_entries(table, entry_size, n)[i]).reads_superblock,
    decreases n,
{
    if n > 0 {
        gpt_reads_superblocks(table, entry_size, (n - 1) as nat);
    }
}

/// What a container shows in its first bytes it shows in its superblock.
proof fn probe_sees_superblock(image: Image, base: nat)
    ensures
        partition::is_apfs(image.read(base, survey::PROBE_LEN as nat)) == (apfs::superblock(
            image.read(base, apfs::SUPERBLOCK_LEN as nat),
        ) is Some),
{
    let short = image.read(base, survey::PROBE_LEN as nat);
    let long = image.read(base, apfs::SUPERBLOCK_LEN as nat);
    assert(apfs::NX_MAGIC@.len() == 4);
    assert(short.subrange(32, 36) == long.subrange(32, 36));
}

/// An APFS filesystem comes with its container superblock, and only that filesystem does.
pub open spec fn containers_are_read(ps: Seq<PartitionModel>) -> bool {
    forall|i: int|
        0 <= i < ps.len() ==> ((#[trigger] ps[i]).apfs is Some <==> ps[i].filesystem == Some(
            "APFS"@,
        ))
}

/// Entries that have superblocks read lead to partitions that have them.
proof fn followed_containers_are_read(
    b: Bundle,
    bands: Map<nat, Seq<u8>>,
    band_size: u64,
    es: Seq<EntryModel>,
)
    requires
        holds_image(b, bands),
        forall|i: int| 0 <= i < es.len() ==> (#[trigger] es[i]).reads_superblock,
    ensures
        survey::partitions_at(b, band_size, es) matches Ok(ps) ==> containers_are_read(ps),
    decreases es.len(),
{
    if es.len() > 0 {
        let rest = es.drop_first();
        assert forall|i: int| 0 <= i < rest.len() implies (#[trigger] rest[i]).reads_superblock by {
            assert(rest[i] == es[i + 1]);
        }
        followed_containers_are_read(b, bands, band_size, rest);
        let image = Image { band_size: band_size as nat, bands };
        let base = (es[0].start_lba * partition::SECTOR) as nat;
        probe_sees_superblock(image, base);
        reveal_strlit("APFS");
        reveal_strlit("HFS+");
        reveal_strlit("HFSX");
        assert("APFS"@[0] != "HFS+"@[0] && "APFS"@[0] != "HFSX"@[0]);
        assert((b.reads)(band_size, base as int, survey::PROBE_LEN as int) is Ok);
        assert((b.reads)(band_size, base as int, apfs::SUPERBLOCK_LEN as int) is Ok);
        assert(es[0].reads_superblock);
    }
}

/// On one image every APFS partition of a GPT comes with what its container superblock says, and
/// no other partition does.
pub proof fn gpt_containers_are_read(b: Bundle, a: AnalysisModel, bands: Map<nat, Seq<u8>>)
    requires
        has_analysis(b, a),
        holds_image(b, bands),
        shown_by(b) == Some(Layout::Gpt),
    ensures
        containers_are_read(a.partitions),
{
    analysis_parts(b, a);
    match partition::gpt_table(head_of(b)) {
        Some(t) => {
            match b.read(a.band_size, t.entry_lba * partition::SECTOR, t.len()) {
                Ok(table) => {
                    let es = partition::gpt_entries(table, t.entry_size as int, t.n_entries as nat);
                    gpt_reads_superblocks(table, t.entry_size as int, t.n_entries as nat);
                    followed_containers_are_read(b, bands, a.band_size, es);
                },
                Err(_) => {},
            }
        },
        None => {},
    }
}

} // verus!
