//! That the mathematical values of a type hold what its fields hold.
use crate::analysis::{AnalyseError, Analysis, BundleInfo, ErrorModel};
use crate::partition;
use crate::partition::{Partition, PartitionEntry};
use crate::survey::{Reply, ReplyModel, Scan, Stage, StageModel, Survey, SurveyModel};
use vstd::prelude::*;

verus! {

/// An analysis is shown with each of its fields.
pub proof fn analysis_is_shown_as_it_is(a: Analysis)
    ensures
        a@.health == a.health,
        a@.band_size == a.band_size,
        a@.declared_size == a.declared_size,
        a@.band_count == a.band_count,
        a@.zero_length_bands == a.zero_length_bands,
        a@.info_source == a.info_source@,
        a@.partitions.len() == a.partitions@.len(),
        forall|i: int|
            0 <= i < a.partitions@.len() ==> #[trigger] a@.partitions[i] == a.partitions@[i]@,
        a@.notes.len() == a.notes@.len(),
        forall|i: int| 0 <= i < a.notes@.len() ==> #[trigger] a@.notes[i] == a.notes@[i]@,
{
}

/// A partition is shown with each of its fields.
pub proof fn partition_is_shown_as_it_is(p: Partition)
    ensures
        p@.scheme == p.scheme@,
        p@.kind == p.kind@,
        p@.start_lba == p.start_lba,
        p@.sectors == p.sectors,
        p.filesystem is None <==> p@.filesystem is None,
        p.filesystem matches Some(fs) ==> p@.filesystem == Some(fs@),
        p@.apfs == p.apfs,
{
}

/// A map entry is shown with each of its fields.
pub proof fn entry_is_shown_as_it_is(e: PartitionEntry, v: Seq<PartitionEntry>, i: int)
    ensures
        e@.scheme == e.scheme@,
        e@.kind == e.kind@,
        e@.start_lba == e.start_lba,
        e@.sectors == e.sectors,
        e@.reads_superblock == e.reads_superblock,
        partition::entry_models(v).len() == v.len(),
        0 <= i < v.len() ==> partition::entry_models(v)[i] == v[i]@,
{
}

/// What a property list says is shown with each of its fields.
pub proof fn info_is_shown_as_it_is(info: BundleInfo)
    ensures
        info@.band_size == info.band_size,
        info@.declared_size == info.declared_size,
        info@.info_source == info.info_source@,
        info@.health == info.health,
        info@.notes.len() == info.notes@.len(),
        forall|i: int| 0 <= i < info.notes@.len() ==> #[trigger] info@.notes[i] == info.notes@[i]@,
{
}

/// An error is shown as the error it is, with its reason.
pub proof fn error_is_shown_as_it_is(e: AnalyseError)
    ensures
        e is NotADirectory <==> e@ is NotADirectory,
        e is BinaryPlist <==> e@ is BinaryPlist,
        e is NoBandSize <==> e@ is NoBandSize,
        e is ZeroBandSize <==> e@ is ZeroBandSize,
        e is OutOfRange <==> e@ is OutOfRange,
        e is InfoUnreadable <==> e@ is InfoUnreadable,
        e is NoBandsDirectory <==> e@ is NoBandsDirectory,
        e is Unreadable <==> e@ is Unreadable,
        e matches AnalyseError::InfoUnreadable(s) ==> e@ == ErrorModel::InfoUnreadable(s@),
        e matches AnalyseError::NoBandsDirectory(s) ==> e@ == ErrorModel::NoBandsDirectory(s@),
        e matches AnalyseError::Unreadable(s) ==> e@ == ErrorModel::Unreadable(s@),
{
}

/// An error is worded with the reason behind it.
pub proof fn error_is_worded(e: ErrorModel)
    ensures
        e is NotADirectory ==> e.message_text() == "not a directory — bundle missing"@,
        e is BinaryPlist ==> e.message_text() == "binary plist — not parsed by this reader"@,
        e is NoBandSize ==> e.message_text() == "no band-size in plist — band map unusable"@,
        e is ZeroBandSize ==> e.message_text() == "band-size is zero — no offset lies in a band"@,
        e is OutOfRange ==> e.message_text() == "partition map reaches beyond 64 bits"@,
        e matches ErrorModel::InfoUnreadable(reason) ==> e.message_text()
            == "neither Info.plist nor Info.bckup readable: "@ + reason,
        e matches ErrorModel::NoBandsDirectory(reason) ==> e.message_text()
            == "no bands directory: "@ + reason,
        e matches ErrorModel::Unreadable(reason) ==> e.message_text() == reason,
{
}

/// A reply is shown as what it holds.
pub proof fn reply_is_shown_as_it_is(r: Reply)
    ensures
        r matches Reply::Directory(d) ==> r@ == ReplyModel::Directory(d),
        r matches Reply::Text(Ok(s)) ==> r@ == ReplyModel::Text(Ok(s@)),
        r matches Reply::Text(Err(e)) ==> r@ == ReplyModel::Text(Err(e@)),
        r matches Reply::Listing(Ok(v)) ==> r@ == ReplyModel::Listing(Ok(v@)),
        r matches Reply::Listing(Err(e)) ==> r@ == ReplyModel::Listing(Err(e@)),
        r matches Reply::Bytes(Ok(v)) ==> r@ == ReplyModel::Bytes(Ok(v@)),
        r matches Reply::Bytes(Err(e)) ==> r@ == ReplyModel::Bytes(Err(e@)),
{
}

/// A finished survey is shown with its result, and no other is shown as finished.
pub proof fn survey_is_shown_as_it_is(s: Survey)
    ensures
        s is Done <==> s@ is Done,
        s matches Survey::Done(Ok(a)) ==> s@ == SurveyModel::Done(Ok(a@)),
        s matches Survey::Done(Err(e)) ==> s@ == SurveyModel::Done(Err(e@)),
        s is Start <==> s@ is Start,
        s is Primary <==> s@ is Primary,
        s matches Survey::Backup { binary } ==> s@ == (SurveyModel::Backup { binary }),
        s matches Survey::Bands(info) ==> s@ == SurveyModel::Bands(info@),
        s matches Survey::Head(draft) ==> s@ == SurveyModel::Head(draft@),
        s matches Survey::Table(draft, t) ==> s@ == SurveyModel::Table(draft@, t),
        s matches Survey::Probing(scan, stage) ==> s@ == SurveyModel::Probing(
            scan@,
            match stage {
                Stage::Start => StageModel::Start,
                Stage::VolumeHeader(_) => StageModel::VolumeHeader,
                Stage::Superblock => StageModel::Superblock,
            },
        ),
{
}

/// Map entries being followed are shown with each of their fields.
pub proof fn scan_is_shown_as_it_is(s: Scan)
    ensures
        s@.draft == s.draft@,
        s@.shown == s.shown,
        s@.entries.len() == s.entries@.len(),
        forall|i: int| 0 <= i < s.entries@.len() ==> #[trigger] s@.entries[i] == s.entries@[i]@,
        s@.found.len() == s.found@.len(),
        forall|i: int| 0 <= i < s.found@.len() ==> #[trigger] s@.found[i] == s.found@[i]@,
{
}

} // verus!
