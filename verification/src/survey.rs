//! The analysis of a bundle as a conversation.
//!
//! A [`Survey`] decides what to look at next, and how what it is told changes the verdict. It
//! never touches a file itself: [`Survey::request`] says what has to be looked at, and
//! [`Survey::advance`] takes the reply. What a finished survey reports is a function of the
//! bundle alone, [`analysis_of`].
use crate::analysis;
use crate::analysis::{
    AnalyseError, Analysis, AnalysisModel, BandEntry, BundleInfo, ErrorModel, InfoModel, Inventory,
};
use crate::apfs;
use crate::apfs::ApfsInfo;
use crate::partition;
use crate::partition::{
    EntryModel, GptTable, Layout, Partition, PartitionEntry, PartitionModel, Probe, HEAD_LEN, SECTOR,
};
use vstd::prelude::*;

verus! {

/// How many bytes of a partition are read to recognise an APFS container.
pub const PROBE_LEN: usize = 64;

/// Where the volume header of an HFS+ volume begins.
pub const VOLUME_HEADER: u64 = 1024;

/// How many bytes of a volume header are read.
pub const VOLUME_HEADER_LEN: usize = 2;

// ---------------------------------------------------------------------------
// What the analysis of a bundle is
// ---------------------------------------------------------------------------

/// All that an analysis can learn of a bundle. Where something cannot be had, the reason stands
/// in its place.
pub struct Bundle {
    pub is_directory: bool,
    /// The text of `Info.plist`.
    pub info: Result<Seq<char>, Seq<char>>,
    /// The text of `Info.bckup`.
    pub backup: Result<Seq<char>, Seq<char>>,
    /// The entries of `bands/`.
    pub listing: Result<Seq<BandEntry>, Seq<char>>,
    /// The bytes of the image, it being cut into bands of this size, at an offset, and how many
    /// of them.
    pub reads: spec_fn(u64, int, int) -> Result<Seq<u8>, Seq<char>>,
    /// The contents of `token`, where there is such a file.
    pub token: Option<Seq<u8>>,
}

/// What an analysis ends in.
pub type Outcome = Result<AnalysisModel, ErrorModel>;

impl Bundle {
    /// The bytes of the image at `offset`.
    pub open spec fn read(self, band_size: u64, offset: int, len: int) -> Result<
        Seq<u8>,
        ErrorModel,
    > {
        match (self.reads)(band_size, offset, len) {
            Ok(bytes) => Ok(bytes),
            Err(e) => Err(ErrorModel::Unreadable(e)),
        }
    }
}

/// The partition that the map entry `e` leads to, with what was found there.
pub open spec fn found_there(
    e: EntryModel,
    filesystem: Option<Seq<char>>,
    apfs: Option<ApfsInfo>,
) -> Result<PartitionModel, ErrorModel> {
    match e.sectors {
        None => Err(ErrorModel::OutOfRange),
        Some(sectors) => Ok(
            PartitionModel {
                scheme: e.scheme,
                kind: e.kind,
                start_lba: e.start_lba,
                sectors,
                filesystem,
                apfs,
            },
        ),
    }
}

/// The partition behind `e` once its first bytes showed an APFS container.
pub open spec fn apfs_partition(b: Bundle, band_size: u64, e: EntryModel) -> Result<
    PartitionModel,
    ErrorModel,
> {
    if e.reads_superblock {
        match b.read(band_size, e.start_lba * SECTOR, apfs::SUPERBLOCK_LEN as int) {
            Err(m) => Err(m),
            Ok(sb) => found_there(e, Some("APFS"@), apfs::superblock(sb)),
        }
    } else {
        found_there(e, Some("APFS"@), None)
    }
}

/// The partition behind `e` once its first bytes showed no APFS container.
pub open spec fn other_partition(b: Bundle, band_size: u64, e: EntryModel) -> Result<
    PartitionModel,
    ErrorModel,
> {
    let at = e.start_lba * SECTOR + VOLUME_HEADER;
    if at > u64::MAX {
        Err(ErrorModel::OutOfRange)
    } else {
        match b.read(band_size, at, VOLUME_HEADER_LEN as int) {
            Err(m) => Err(m),
            Ok(vh) => found_there(e, partition::hfs_name(vh), None),
        }
    }
}

/// The partition that the map entry `e` leads to.
pub open spec fn partition_at(b: Bundle, band_size: u64, e: EntryModel) -> Result<
    PartitionModel,
    ErrorModel,
> {
    let base = e.start_lba * SECTOR;
    if base > u64::MAX {
        Err(ErrorModel::OutOfRange)
    } else {
        match b.read(band_size, base, PROBE_LEN as int) {
            Err(m) => Err(m),
            Ok(sb) => if partition::is_apfs(sb) {
                apfs_partition(b, band_size, e)
            } else {
                other_partition(b, band_size, e)
            },
        }
    }
}

/// `found`, and after it the partitions that were looked for.
pub open spec fn joined(
    found: Seq<PartitionModel>,
    more: Result<Seq<PartitionModel>, ErrorModel>,
) -> Result<Seq<PartitionModel>, ErrorModel> {
    match more {
        Err(m) => Err(m),
        Ok(ps) => Ok(found + ps),
    }
}

/// The partitions that the map entries `es` lead to, in their order. The first that cannot be
/// looked at ends the search.
pub open spec fn partitions_at(b: Bundle, band_size: u64, es: Seq<EntryModel>) -> Result<
    Seq<PartitionModel>,
    ErrorModel,
>
    decreases es.len(),
{
    if es.len() == 0 {
        Ok(Seq::empty())
    } else {
        match partition_at(b, band_size, es[0]) {
            Err(m) => Err(m),
            Ok(p) => joined(seq![p], partitions_at(b, band_size, es.drop_first())),
        }
    }
}

/// The partitions of the GPT whose entry table is `t`.
pub open spec fn gpt_partitions(b: Bundle, band_size: u64, t: GptTable) -> Result<
    Seq<PartitionModel>,
    ErrorModel,
> {
    let at = t.entry_lba * SECTOR;
    if at > u64::MAX {
        Err(ErrorModel::OutOfRange)
    } else {
        match b.read(band_size, at, t.len()) {
            Err(m) => Err(m),
            Ok(table) => partitions_at(
                b,
                band_size,
                partition::gpt_entries(table, t.entry_size as int, t.n_entries as nat),
            ),
        }
    }
}

/// The partitions of an image that begins with `head`.
pub open spec fn partitions_of(b: Bundle, band_size: u64, head: Seq<u8>) -> Result<
    Seq<PartitionModel>,
    ErrorModel,
> {
    match partition::layout(head) {
        Layout::Gpt => match partition::gpt_table(head) {
            None => Ok(Seq::empty()),
            Some(t) => gpt_partitions(b, band_size, t),
        },
        Layout::Apm => partitions_at(b, band_size, partition::apm_entries(head, 1)),
        _ => Ok(Seq::empty()),
    }
}

/// The analysis `a` brought to its end with partitions that had to be looked for.
pub open spec fn closed_with(
    a: AnalysisModel,
    shown: Layout,
    found: Result<Seq<PartitionModel>, ErrorModel>,
) -> Outcome {
    match found {
        Err(m) => Err(m),
        Ok(ps) => Ok(analysis::closed(a, Some(shown), ps)),
    }
}

/// The analysis `a` continued with the image.
pub open spec fn image_analysis(b: Bundle, a: AnalysisModel) -> Outcome {
    match b.read(a.band_size, 0, HEAD_LEN as int) {
        Err(m) => Err(m),
        Ok(head) => closed_with(a, partition::layout(head), partitions_of(b, a.band_size, head)),
    }
}

/// The analysis of a bundle whose property list says `info`. The partition map lives at image
/// offset 0, therefore in band 0: without that band the image is not read.
pub open spec fn band_analysis(b: Bundle, info: InfoModel) -> Outcome {
    match b.listing {
        Err(m) => Err(ErrorModel::NoBandsDirectory(m)),
        Ok(entries) => {
            let inv = analysis::inventory(entries);
            let a = analysis::opened(info, inv);
            if !inv.have_band_zero {
                Ok(analysis::closed(a, None, Seq::empty()))
            } else if info.band_size == 0 {
                Err(ErrorModel::ZeroBandSize)
            } else {
                image_analysis(b, a)
            }
        },
    }
}

/// The analysis of a bundle whose property list is `xml`.
pub open spec fn info_analysis(b: Bundle, xml: Seq<char>, from_backup: bool) -> Outcome {
    match analysis::bundle_info(xml, from_backup) {
        Err(m) => Err(m),
        Ok(info) => band_analysis(b, info),
    }
}

/// The analysis of a bundle whose `Info.plist` cannot be read, or is a binary list.
pub open spec fn backup_analysis(b: Bundle, binary: bool) -> Outcome {
    match b.backup {
        Err(m) => Err(without_backup(binary, m)),
        Ok(xml) => info_analysis(b, xml, true),
    }
}

/// Why there is no analysis where the backup cannot be read either: an `Info.plist` that is
/// there but binary is the reason, else the backup's.
pub open spec fn without_backup(binary: bool, reason: Seq<char>) -> ErrorModel {
    if binary {
        ErrorModel::BinaryPlist
    } else {
        ErrorModel::InfoUnreadable(reason)
    }
}

/// The analysis of a bundle that is a directory. `Info.bckup` is looked at only where
/// `Info.plist` cannot be read or is a binary list.
pub open spec fn primary_analysis(b: Bundle) -> Outcome {
    match b.info {
        Err(_) => backup_analysis(b, false),
        Ok(xml) => if analysis::is_binary(xml) {
            backup_analysis(b, true)
        } else {
            info_analysis(b, xml, false)
        },
    }
}

/// The analysis of a bundle.
pub open spec fn analysis_of(b: Bundle) -> Outcome {
    if b.is_directory {
        primary_analysis(b)
    } else {
        Err(ErrorModel::NotADirectory)
    }
}

// ---------------------------------------------------------------------------
// The conversation
// ---------------------------------------------------------------------------

/// What a survey has to be told next.
#[derive(Debug, Clone, Copy, PartialEq, Eq, Structural)]
pub enum Request {
    /// Whether the bundle is a directory.
    IsDirectory,
    /// The text of `Info.plist`.
    ReadInfo,
    /// The text of `Info.bckup`.
    ReadBackup,
    /// The entries of `bands/`.
    ListBands,
    /// `len` bytes of the image at `offset`, the image being cut into bands of `band_size`.
    Read { band_size: u64, offset: u64, len: usize },
    /// Nothing: the survey is done.
    Nothing,
}

/// The reply to a request. Where something could not be had, the reason stands in its place.
#[derive(Debug)]
pub enum Reply {
    Directory(bool),
    Text(Result<String, String>),
    Listing(Result<Vec<BandEntry>, String>),
    Bytes(Result<Vec<u8>, String>),
}

/// A reply as mathematical values.
pub enum ReplyModel {
    Directory(bool),
    Text(Result<Seq<char>, Seq<char>>),
    Listing(Result<Seq<BandEntry>, Seq<char>>),
    Bytes(Result<Seq<u8>, Seq<char>>),
}

impl View for Reply {
    type V = ReplyModel;

    open spec fn view(&self) -> ReplyModel {
        match *self {
            Reply::Directory(d) => ReplyModel::Directory(d),
            Reply::Text(Ok(s)) => ReplyModel::Text(Ok(s@)),
            Reply::Text(Err(e)) => ReplyModel::Text(Err(e@)),
            Reply::Listing(Ok(v)) => ReplyModel::Listing(Ok(v@)),
            Reply::Listing(Err(e)) => ReplyModel::Listing(Err(e@)),
            Reply::Bytes(Ok(v)) => ReplyModel::Bytes(Ok(v@)),
            Reply::Bytes(Err(e)) => ReplyModel::Bytes(Err(e@)),
        }
    }
}

/// The reply is one to this request: it has the right form and, for bytes, the right length.
pub open spec fn replies_to(request: Request, reply: ReplyModel) -> bool {
    match request {
        Request::IsDirectory => reply is Directory,
        Request::ReadInfo => reply is Text,
        Request::ReadBackup => reply is Text,
        Request::ListBands => reply is Listing,
        Request::Read { band_size: _, offset: _, len } => reply matches ReplyModel::Bytes(r) && (
        r matches Ok(v) ==> v.len() == len),
        Request::Nothing => false,
    }
}

/// The reply is what the bundle holds there.
pub open spec fn holds(b: Bundle, request: Request, reply: ReplyModel) -> bool {
    match request {
        Request::IsDirectory => reply == ReplyModel::Directory(b.is_directory),
        Request::ReadInfo => reply == ReplyModel::Text(b.info),
        Request::ReadBackup => reply == ReplyModel::Text(b.backup),
        Request::ListBands => reply == ReplyModel::Listing(b.listing),
        Request::Read { band_size, offset, len } => reply == ReplyModel::Bytes(
            (b.reads)(band_size, offset as int, len as int),
        ),
        Request::Nothing => false,
    }
}

/// Which bytes of the partition in hand are awaited.
#[derive(Debug)]
pub enum Stage {
    /// Its first bytes.
    Start,
    /// The start of its volume header; its first bytes are known.
    VolumeHeader(Vec<u8>),
    /// Its APFS container superblock.
    Superblock,
}

/// Which bytes of the partition in hand are awaited, as mathematical values.
pub enum StageModel {
    Start,
    VolumeHeader,
    Superblock,
}

/// Map entries being followed to their partitions: those found come first among the entries,
/// the next one is in hand.
#[derive(Debug)]
pub struct Scan {
    pub draft: Analysis,
    pub shown: Layout,
    pub entries: Vec<PartitionEntry>,
    pub found: Vec<Partition>,
}

/// Map entries being followed to their partitions, as mathematical values.
pub struct ScanModel {
    pub draft: AnalysisModel,
    pub shown: Layout,
    pub entries: Seq<EntryModel>,
    pub found: Seq<PartitionModel>,
}

impl View for Scan {
    type V = ScanModel;

    open spec fn view(&self) -> ScanModel {
        ScanModel {
            draft: self.draft@,
            shown: self.shown,
            entries: partition::entry_models(self.entries@),
            found: partition::partition_models(self.found@),
        }
    }
}

impl ScanModel {
    /// The entry in hand.
    pub open spec fn current(self) -> EntryModel {
        self.entries[self.found.len() as int]
    }

    /// An entry is in hand, and it begins where 64 bits can address it.
    pub open spec fn wf(self) -> bool {
        &&& self.draft.band_size > 0
        &&& self.found.len() < self.entries.len()
        &&& self.current().start_lba * SECTOR <= u64::MAX
    }

    /// What the survey ends in if the entry in hand leads to `p`.
    pub open spec fn outcome(self, b: Bundle, p: Result<PartitionModel, ErrorModel>) -> Outcome {
        closed_with(
            self.draft,
            self.shown,
            match p {
                Err(m) => Err(m),
                Ok(p) => joined(
                    self.found.push(p),
                    partitions_at(
                        b,
                        self.draft.band_size,
                        self.entries.skip(self.found.len() as int + 1),
                    ),
                ),
            },
        )
    }
}

/// How far an analysis has come, and what it has learnt.
#[derive(Debug)]
pub enum Survey {
    /// Nothing is known yet.
    Start,
    /// The bundle is a directory.
    Primary,
    /// `Info.plist` cannot be read, or is a binary list.
    Backup { binary: bool },
    /// The property list is known.
    Bands(BundleInfo),
    /// The bands are known, the first among them.
    Head(Analysis),
    /// The image begins with a GPT header.
    Table(Analysis, GptTable),
    /// The partition map is known.
    Probing(Scan, Stage),
    /// There is nothing more to learn.
    Done(Result<Analysis, AnalyseError>),
}

/// How far an analysis has come, as mathematical values.
pub enum SurveyModel {
    Start,
    Primary,
    Backup { binary: bool },
    Bands(InfoModel),
    Head(AnalysisModel),
    Table(AnalysisModel, GptTable),
    Probing(ScanModel, StageModel),
    Done(Outcome),
}

impl View for Survey {
    type V = SurveyModel;

    open spec fn view(&self) -> SurveyModel {
        match *self {
            Survey::Start => SurveyModel::Start,
            Survey::Primary => SurveyModel::Primary,
            Survey::Backup { binary } => SurveyModel::Backup { binary },
            Survey::Bands(info) => SurveyModel::Bands(info@),
            Survey::Head(draft) => SurveyModel::Head(draft@),
            Survey::Table(draft, t) => SurveyModel::Table(draft@, t),
            Survey::Probing(scan, Stage::Start) => SurveyModel::Probing(scan@, StageModel::Start),
            Survey::Probing(scan, Stage::VolumeHeader(_)) => SurveyModel::Probing(
                scan@,
                StageModel::VolumeHeader,
            ),
            Survey::Probing(scan, Stage::Superblock) => SurveyModel::Probing(
                scan@,
                StageModel::Superblock,
            ),
            Survey::Done(Ok(a)) => SurveyModel::Done(Ok(a@)),
            Survey::Done(Err(e)) => SurveyModel::Done(Err(e@)),
        }
    }
}

impl SurveyModel {
    /// What is asked next can be asked.
    pub open spec fn wf(self) -> bool {
        match self {
            SurveyModel::Head(draft) => draft.band_size > 0,
            SurveyModel::Table(draft, t) => {
                &&& draft.band_size > 0
                &&& t.wf()
                &&& t.entry_lba * SECTOR <= u64::MAX
            },
            SurveyModel::Probing(scan, stage) => {
                &&& scan.wf()
                &&& match stage {
                    StageModel::Start => true,
                    StageModel::VolumeHeader => scan.current().start_lba * SECTOR + VOLUME_HEADER
                        <= u64::MAX,
                    StageModel::Superblock => scan.current().reads_superblock,
                }
            },
            _ => true,
        }
    }

    /// What the survey asks next.
    pub open spec fn asks(self) -> Request {
        match self {
            SurveyModel::Start => Request::IsDirectory,
            SurveyModel::Primary => Request::ReadInfo,
            SurveyModel::Backup { .. } => Request::ReadBackup,
            SurveyModel::Bands(_) => Request::ListBands,
            SurveyModel::Head(draft) => Request::Read {
                band_size: draft.band_size,
                offset: 0,
                len: HEAD_LEN,
            },
            SurveyModel::Table(draft, t) => Request::Read {
                band_size: draft.band_size,
                offset: (t.entry_lba * SECTOR) as u64,
                len: t.len() as usize,
            },
            SurveyModel::Probing(scan, stage) => {
                let base = scan.current().start_lba * SECTOR;
                let band_size = scan.draft.band_size;
                match stage {
                    StageModel::Start => Request::Read {
                        band_size,
                        offset: base as u64,
                        len: PROBE_LEN,
                    },
                    StageModel::VolumeHeader => Request::Read {
                        band_size,
                        offset: (base + VOLUME_HEADER) as u64,
                        len: VOLUME_HEADER_LEN,
                    },
                    StageModel::Superblock => Request::Read {
                        band_size,
                        offset: base as u64,
                        len: apfs::SUPERBLOCK_LEN,
                    },
                }
            },
            SurveyModel::Done(_) => Request::Nothing,
        }
    }

    /// What the survey ends in if every reply from here on is what `b` holds.
    pub open spec fn outcome(self, b: Bundle) -> Outcome {
        match self {
            SurveyModel::Start => analysis_of(b),
            SurveyModel::Primary => primary_analysis(b),
            SurveyModel::Backup { binary } => backup_analysis(b, binary),
            SurveyModel::Bands(info) => band_analysis(b, info),
            SurveyModel::Head(draft) => image_analysis(b, draft),
            SurveyModel::Table(draft, t) => closed_with(
                draft,
                Layout::Gpt,
                gpt_partitions(b, draft.band_size, t),
            ),
            SurveyModel::Probing(scan, stage) => scan.outcome(
                b,
                match stage {
                    StageModel::Start => partition_at(b, scan.draft.band_size, scan.current()),
                    StageModel::VolumeHeader => other_partition(
                        b,
                        scan.draft.band_size,
                        scan.current(),
                    ),
                    StageModel::Superblock => apfs_partition(
                        b,
                        scan.draft.band_size,
                        scan.current(),
                    ),
                },
            ),
            SurveyModel::Done(outcome) => outcome,
        }
    }

    /// How many kinds of question may still come.
    pub open spec fn phases_left(self) -> nat {
        match self {
            SurveyModel::Start => 7,
            SurveyModel::Primary => 6,
            SurveyModel::Backup { .. } => 5,
            SurveyModel::Bands(_) => 4,
            SurveyModel::Head(_) => 3,
            SurveyModel::Table(_, _) => 2,
            SurveyModel::Probing(_, _) => 1,
            SurveyModel::Done(_) => 0,
        }
    }

    /// How many questions of the present kind may still come.
    pub open spec fn questions_left(self) -> int {
        match self {
            SurveyModel::Probing(scan, stage) => 2 * (scan.entries.len() - scan.found.len()) + (
            match stage {
                StageModel::Start => 1int,
                _ => 0int,
            }),
            _ => 0,
        }
    }

    /// Fewer questions may still come than in the state `earlier`.
    pub open spec fn is_nearer(self, earlier: SurveyModel) -> bool {
        ||| self.phases_left() < earlier.phases_left()
        ||| self.phases_left() == earlier.phases_left() && 0 <= self.questions_left()
            < earlier.questions_left()
    }

    /// The state after this one once `reply` came.
    pub open spec fn next(self, reply: ReplyModel) -> SurveyModel {
        match (self, reply) {
            (SurveyModel::Start, ReplyModel::Directory(d)) => if d {
                SurveyModel::Primary
            } else {
                SurveyModel::Done(Err(ErrorModel::NotADirectory))
            },
            (SurveyModel::Primary, ReplyModel::Text(Ok(xml))) => if analysis::is_binary(xml) {
                SurveyModel::Backup { binary: true }
            } else {
                with_info(xml, false)
            },
            (SurveyModel::Primary, ReplyModel::Text(Err(_))) => SurveyModel::Backup {
                binary: false,
            },
            (SurveyModel::Backup { .. }, ReplyModel::Text(Ok(xml))) => with_info(xml, true),
            (SurveyModel::Backup { binary }, ReplyModel::Text(Err(e))) => SurveyModel::Done(
                Err(without_backup(binary, e)),
            ),
            (SurveyModel::Bands(info), ReplyModel::Listing(Ok(entries))) => with_listing(
                info,
                entries,
            ),
            (SurveyModel::Bands(_), ReplyModel::Listing(Err(e))) => SurveyModel::Done(
                Err(ErrorModel::NoBandsDirectory(e)),
            ),
            (SurveyModel::Head(draft), ReplyModel::Bytes(Ok(head))) => with_head(draft, head),
            (SurveyModel::Table(draft, t), ReplyModel::Bytes(Ok(table))) => follow_from(
                ScanModel {
                    draft,
                    shown: Layout::Gpt,
                    entries: partition::gpt_entries(
                        table,
                        t.entry_size as int,
                        t.n_entries as nat,
                    ),
                    found: Seq::empty(),
                },
            ),
            (SurveyModel::Probing(scan, stage), ReplyModel::Bytes(Ok(bytes))) => with_bytes(
                scan,
                stage,
                bytes,
            ),
            (SurveyModel::Head(_), ReplyModel::Bytes(Err(e))) => SurveyModel::Done(
                Err(ErrorModel::Unreadable(e)),
            ),
            (SurveyModel::Table(_, _), ReplyModel::Bytes(Err(e))) => SurveyModel::Done(
                Err(ErrorModel::Unreadable(e)),
            ),
            (SurveyModel::Probing(_, _), ReplyModel::Bytes(Err(e))) => SurveyModel::Done(
                Err(ErrorModel::Unreadable(e)),
            ),
            _ => self,
        }
    }
}

/// The state after the text of a property list.
pub open spec fn with_info(xml: Seq<char>, from_backup: bool) -> SurveyModel {
    match analysis::bundle_info(xml, from_backup) {
        Ok(info) => SurveyModel::Bands(info),
        Err(m) => SurveyModel::Done(Err(m)),
    }
}

/// The state after the listing of the bands.
pub open spec fn with_listing(info: InfoModel, entries: Seq<BandEntry>) -> SurveyModel {
    let inv = analysis::inventory(entries);
    let draft = analysis::opened(info, inv);
    if !inv.have_band_zero {
        SurveyModel::Done(Ok(analysis::closed(draft, None, Seq::empty())))
    } else if info.band_size == 0 {
        SurveyModel::Done(Err(ErrorModel::ZeroBandSize))
    } else {
        SurveyModel::Head(draft)
    }
}

/// The state after the start of the image.
pub open spec fn with_head(draft: AnalysisModel, head: Seq<u8>) -> SurveyModel {
    let shown = partition::layout(head);
    let nothing_found = SurveyModel::Done(
        Ok(analysis::closed(draft, Some(shown), Seq::empty())),
    );
    match shown {
        Layout::Gpt => match partition::gpt_table(head) {
            None => nothing_found,
            Some(t) => if t.entry_lba * SECTOR > u64::MAX {
                SurveyModel::Done(Err(ErrorModel::OutOfRange))
            } else {
                SurveyModel::Table(draft, t)
            },
        },
        Layout::Apm => follow_from(
            ScanModel {
                draft,
                shown,
                entries: partition::apm_entries(head, 1),
                found: Seq::empty(),
            },
        ),
        _ => nothing_found,
    }
}

/// The state in which the entries after those found are to be followed.
pub open spec fn follow_from(scan: ScanModel) -> SurveyModel {
    if scan.found.len() >= scan.entries.len() {
        SurveyModel::Done(Ok(analysis::closed(scan.draft, Some(scan.shown), scan.found)))
    } else if scan.current().start_lba * SECTOR > u64::MAX {
        SurveyModel::Done(Err(ErrorModel::OutOfRange))
    } else {
        SurveyModel::Probing(scan, StageModel::Start)
    }
}

/// The state once the entry in hand is known to lead to a partition with this filesystem.
pub open spec fn settled(
    scan: ScanModel,
    filesystem: Option<Seq<char>>,
    apfs: Option<ApfsInfo>,
) -> SurveyModel {
    match found_there(scan.current(), filesystem, apfs) {
        Err(m) => SurveyModel::Done(Err(m)),
        Ok(p) => follow_from(ScanModel { found: scan.found.push(p), ..scan }),
    }
}

/// The state after bytes of the partition in hand.
pub open spec fn with_bytes(scan: ScanModel, stage: StageModel, bytes: Seq<u8>) -> SurveyModel {
    match stage {
        StageModel::Start => if partition::is_apfs(bytes) {
            if scan.current().reads_superblock {
                SurveyModel::Probing(scan, StageModel::Superblock)
            } else {
                settled(scan, Some("APFS"@), None)
            }
        } else if scan.current().start_lba * SECTOR + VOLUME_HEADER > u64::MAX {
            SurveyModel::Done(Err(ErrorModel::OutOfRange))
        } else {
            SurveyModel::Probing(scan, StageModel::VolumeHeader)
        },
        StageModel::VolumeHeader => settled(scan, partition::hfs_name(bytes), None),
        StageModel::Superblock => settled(scan, Some("APFS"@), apfs::superblock(bytes)),
    }
}

impl Survey {
    /// What is asked next can be asked, and what was kept for it is there.
    pub open spec fn wf(self) -> bool {
        &&& self@.wf()
        &&& match self {
            Survey::Probing(_, Stage::VolumeHeader(sb)) => sb@.len() == PROBE_LEN
                && !partition::is_apfs(sb@),
            _ => true,
        }
    }

    /// What the survey has to be told next.
    pub fn request(&self) -> (r: Request)
        requires
            self.wf(),
        ensures
            r == self@.asks(),
            r is Read ==> r->band_size > 0,
            r is Nothing <==> *self is Done,
    {
        match self {
            Survey::Start => Request::IsDirectory,
            Survey::Primary => Request::ReadInfo,
            Survey::Backup { .. } => Request::ReadBackup,
            Survey::Bands(_) => Request::ListBands,
            Survey::Head(draft) => Request::Read {
                band_size: draft.band_size,
                offset: 0,
                len: HEAD_LEN,
            },
            Survey::Table(draft, t) => Request::Read {
                band_size: draft.band_size,
                offset: t.entry_lba * SECTOR,
                len: t.byte_len(),
            },
            Survey::Probing(scan, stage) => {
                assert(scan@.current() == scan.entries@[scan.found@.len() as int]@);
                let base: u64 = scan.entries[scan.found.len()].start_lba * SECTOR;
                let band_size: u64 = scan.draft.band_size;
                match stage {
                    Stage::Start => Request::Read { band_size, offset: base, len: PROBE_LEN },
                    Stage::VolumeHeader(_) => Request::Read {
                        band_size,
                        offset: base + VOLUME_HEADER,
                        len: VOLUME_HEADER_LEN,
                    },
                    Stage::Superblock => Request::Read {
                        band_size,
                        offset: base,
                        len: apfs::SUPERBLOCK_LEN,
                    },
                }
            },
            Survey::Done(_) => Request::Nothing,
        }
    }

    /// Takes the reply to the present request.
    pub fn advance(self, reply: Reply) -> (r: Survey)
        requires
            self.wf(),
            replies_to(self@.asks(), reply@),
        ensures
            r.wf(),
            r@ == self@.next(reply@),
    {
        match (self, reply) {
            (Survey::Start, Reply::Directory(d)) => if d {
                Survey::Primary
            } else {
                Survey::Done(Err(AnalyseError::NotADirectory))
            },
            (Survey::Primary, Reply::Text(Ok(xml))) => if analysis::is_binary_plist(xml.as_str()) {
                Survey::Backup { binary: true }
            } else {
                after_info(xml, false)
            },
            (Survey::Primary, Reply::Text(Err(_))) => Survey::Backup { binary: false },
            (Survey::Backup { .. }, Reply::Text(Ok(xml))) => after_info(xml, true),
            (Survey::Backup { binary }, Reply::Text(Err(e))) => Survey::Done(
                Err(
                    if binary {
                        AnalyseError::BinaryPlist
                    } else {
                        AnalyseError::InfoUnreadable(e)
                    },
                ),
            ),
            (Survey::Bands(info), Reply::Listing(Ok(entries))) => after_listing(info, &entries),
            (Survey::Bands(_), Reply::Listing(Err(e))) => Survey::Done(
                Err(AnalyseError::NoBandsDirectory(e)),
            ),
            (Survey::Head(draft), Reply::Bytes(Ok(head))) => after_head(draft, &head),
            (Survey::Table(draft, t), Reply::Bytes(Ok(table))) => {
                proof {
                    t.len_is_bounded();
                }
                let entries: Vec<PartitionEntry> = partition::parse_gpt(table.as_slice(), &t);
                follow_all(draft, Layout::Gpt, entries)
            },
            (Survey::Probing(scan, stage), Reply::Bytes(Ok(bytes))) => after_bytes(
                scan,
                stage,
                bytes,
            ),
            (_, Reply::Bytes(Err(e))) => Survey::Done(Err(AnalyseError::Unreadable(e))),
            (survey, _) => survey,
        }
    }
}

/// Analyse the structure of a sparsebundle without attaching it.
///
/// The survey parses `Info.plist` (falling back to `Info.bckup`), counts bands, reads
/// the partition map from band 0, identifies the filesystem, and checks for
/// APFS encryption evidence.
pub fn analyse() -> (r: Survey)
    ensures
        r == Survey::Start,
        r.wf(),
        forall|b: Bundle| #[trigger] r@.outcome(b) == analysis_of(b),
{
    Survey::Start
}

/// The state after the text of a property list.
fn after_info(xml: String, from_backup: bool) -> (r: Survey)
    ensures
        r.wf(),
        r@ == with_info(xml@, from_backup),
{
    match analysis::read_info(xml.as_str(), from_backup) {
        Ok(info) => Survey::Bands(info),
        Err(e) => Survey::Done(Err(e)),
    }
}

/// The state after the listing of the bands.
fn after_listing(info: BundleInfo, entries: &Vec<BandEntry>) -> (r: Survey)
    ensures
        r.wf(),
        r@ == with_listing(info@, entries@),
{
    let inv: Inventory = analysis::take_inventory(entries);
    let band_size: u64 = info.band_size;
    let draft: Analysis = analysis::open_analysis(info, &inv);
    if !inv.have_band_zero {
        let found: Vec<Partition> = Vec::new();
        assert(partition::partition_models(found@) == Seq::<PartitionModel>::empty());
        Survey::Done(Ok(analysis::close_analysis(draft, None, found)))
    } else if band_size == 0 {
        Survey::Done(Err(AnalyseError::ZeroBandSize))
    } else {
        Survey::Head(draft)
    }
}

/// The state after the start of the image.
fn after_head(draft: Analysis, head: &Vec<u8>) -> (r: Survey)
    requires
        draft.band_size > 0,
        head@.len() == HEAD_LEN,
    ensures
        r.wf(),
        r@ == with_head(draft@, head@),
{
    let shown: Layout = partition::read_layout(head.as_slice());
    let nothing: Vec<Partition> = Vec::new();
    assert(partition::partition_models(nothing@) == Seq::<PartitionModel>::empty());
    match shown {
        Layout::Gpt => match partition::parse_gpt_header(head.as_slice()) {
            None => Survey::Done(Ok(analysis::close_analysis(draft, Some(shown), nothing))),
            Some(t) => {
                if t.entry_lba > u64::MAX / SECTOR {
                    Survey::Done(Err(AnalyseError::OutOfRange))
                } else {
                    Survey::Table(draft, t)
                }
            },
        },
        Layout::Apm => {
            let entries: Vec<PartitionEntry> = partition::parse_apm(head.as_slice());
            follow_all(draft, Layout::Apm, entries)
        },
        _ => Survey::Done(Ok(analysis::close_analysis(draft, Some(shown), nothing))),
    }
}

/// The state in which the entries after those found are to be followed.
fn follow(scan: Scan) -> (r: Survey)
    requires
        scan.draft.band_size > 0,
    ensures
        r.wf(),
        r@ == follow_from(scan@),
{
    let k: usize = scan.found.len();
    if k >= scan.entries.len() {
        return Survey::Done(
            Ok(analysis::close_analysis(scan.draft, Some(scan.shown), scan.found)),
        );
    }
    assert(scan@.current() == scan.entries@[k as int]@);
    if scan.entries[k].start_lba > u64::MAX / SECTOR {
        return Survey::Done(Err(AnalyseError::OutOfRange));
    }
    Survey::Probing(scan, Stage::Start)
}

/// The state in which all the entries are to be followed.
fn follow_all(draft: Analysis, shown: Layout, entries: Vec<PartitionEntry>) -> (r: Survey)
    requires
        draft.band_size > 0,
    ensures
        r.wf(),
        r@ == follow_from(
            ScanModel {
                draft: draft@,
                shown,
                entries: partition::entry_models(entries@),
                found: Seq::empty(),
            },
        ),
{
    let found: Vec<Partition> = Vec::new();
    assert(partition::partition_models(found@) == Seq::<PartitionModel>::empty());
    follow(Scan { draft, shown, entries, found })
}

/// The state once the entry in hand is known to lead to a partition with this filesystem.
fn settle(scan: Scan, filesystem: Option<&'static str>, apfs: Option<ApfsInfo>) -> (r: Survey)
    requires
        scan@.wf(),
    ensures
        r.wf(),
        r@ == settled(scan@, partition::text_of(filesystem), apfs),
{
    let ghost before = scan@;
    let Scan { draft, shown, entries, found: earlier } = scan;
    let mut found: Vec<Partition> = earlier;
    let e: &PartitionEntry = &entries[found.len()];
    assert(before.current() == e@);
    match e.sectors {
        None => Survey::Done(Err(AnalyseError::OutOfRange)),
        Some(sectors) => {
            let p: Partition = Partition {
                scheme: e.scheme,
                kind: e.kind.clone(),
                start_lba: e.start_lba,
                sectors,
                filesystem,
                apfs,
            };
            found.push(p);
            assert(partition::partition_models(found@) == before.found.push(p@));
            follow(Scan { draft, shown, entries, found })
        },
    }
}

/// The state after bytes of the partition in hand.
fn after_bytes(scan: Scan, stage: Stage, bytes: Vec<u8>) -> (r: Survey)
    requires
        Survey::Probing(scan, stage).wf(),
        Survey::Probing(scan, stage)@.asks()->len == bytes@.len(),
    ensures
        r.wf(),
        r@ == Survey::Probing(scan, stage)@.next(ReplyModel::Bytes(Ok(bytes@))),
{
    let k: usize = scan.found.len();
    assert(scan@.current() == scan.entries@[k as int]@);
    match stage {
        Stage::Start => match partition::probe_fs(bytes.as_slice(), None) {
            Probe::Filesystem(fs) => {
                if scan.entries[k].reads_superblock {
                    Survey::Probing(scan, Stage::Superblock)
                } else {
                    settle(scan, fs, None)
                }
            },
            Probe::NeedsVolumeHeader => {
                if scan.entries[k].start_lba * SECTOR > u64::MAX - VOLUME_HEADER {
                    Survey::Done(Err(AnalyseError::OutOfRange))
                } else {
                    Survey::Probing(scan, Stage::VolumeHeader(bytes))
                }
            },
        },
        Stage::VolumeHeader(sb) => match partition::probe_fs(
            sb.as_slice(),
            Some(bytes.as_slice()),
        ) {
            Probe::Filesystem(fs) => settle(scan, fs, None),
            Probe::NeedsVolumeHeader => settle(scan, None, None),
        },
        Stage::Superblock => {
            let info: Option<ApfsInfo> = apfs::parse_apfs_superblock(bytes.as_slice());
            settle(scan, Some("APFS"), info)
        },
    }
}

} // verus!
