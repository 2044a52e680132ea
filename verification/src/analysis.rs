//! What is said of a sparsebundle: its health, its figures and the notes on them.
use crate::apfs::EncryptionEvidence;
use crate::band;
use crate::partition;
use crate::partition::{Layout, Partition, PartitionModel};
use crate::plist;
use crate::text;
use vstd::prelude::*;

verus! {

/// Structural health of a sparsebundle.
#[derive(Debug, Clone, Copy, PartialEq, Eq, Structural)]
pub enum Health {
    /// Partition map parsed and a known filesystem found.
    Sound,
    /// Structure readable but something is off; attach may still work.
    Suspect,
    /// Attaching is pointless or the contents are unreachable.
    Unusable,
}

/// Result of analysing a sparsebundle's structure.
#[derive(Debug, Clone)]
pub struct Analysis {
    pub health: Health,
    pub band_size: u64,
    pub declared_size: u64,
    pub band_count: usize,
    pub zero_length_bands: usize,
    pub info_source: &'static str,
    pub partitions: Vec<Partition>,
    pub notes: Vec<String>,
}

/// An analysis as mathematical values.
pub struct AnalysisModel {
    pub health: Health,
    pub band_size: u64,
    pub declared_size: u64,
    pub band_count: usize,
    pub zero_length_bands: usize,
    pub info_source: Seq<char>,
    pub partitions: Seq<PartitionModel>,
    pub notes: Seq<Seq<char>>,
}

impl View for Analysis {
    type V = AnalysisModel;

    open spec fn view(&self) -> AnalysisModel {
        AnalysisModel {
            health: self.health,
            band_size: self.band_size,
            declared_size: self.declared_size,
            band_count: self.band_count,
            zero_length_bands: self.zero_length_bands,
            info_source: self.info_source@,
            partitions: partition::partition_models(self.partitions@),
            notes: text::texts(self.notes@),
        }
    }
}

impl Analysis {
    /// Estimated allocated bytes (band_count * band_size).
    ///
    /// This is *allocated*, not the declared size. A sparsebundle's declared
    /// size is an upper bound it may never approach, so the two differing is
    /// expected, not a fault.
    pub fn allocated_bytes(&self) -> (r: u64)
        requires
            self.band_count * self.band_size <= u64::MAX,
        ensures
            r == self.band_count * self.band_size,
    {
        self.band_count as u64 * self.band_size
    }
}

/// Why there is no analysis.
#[derive(Debug, Clone)]
pub enum AnalyseError {
    /// The bundle is missing, or is no directory.
    NotADirectory,
    /// Neither copy of the property list can be read; the reason for the second.
    InfoUnreadable(String),
    /// The property list is a binary one, and there is no other to go by.
    BinaryPlist,
    /// The property list gives no band size.
    NoBandSize,
    /// The bands cannot be listed, and why.
    NoBandsDirectory(String),
    /// A band cannot be read, and why.
    Unreadable(String),
    /// The property list gives a band size of zero, so no offset lies in a band.
    ZeroBandSize,
    /// The partition map puts something beyond what 64 bits can address or count.
    OutOfRange,
}

/// Why there is no analysis, as mathematical values.
pub enum ErrorModel {
    NotADirectory,
    InfoUnreadable(Seq<char>),
    BinaryPlist,
    NoBandSize,
    NoBandsDirectory(Seq<char>),
    Unreadable(Seq<char>),
    ZeroBandSize,
    OutOfRange,
}

impl View for AnalyseError {
    type V = ErrorModel;

    open spec fn view(&self) -> ErrorModel {
        match *self {
            AnalyseError::NotADirectory => ErrorModel::NotADirectory,
            AnalyseError::InfoUnreadable(e) => ErrorModel::InfoUnreadable(e@),
            AnalyseError::BinaryPlist => ErrorModel::BinaryPlist,
            AnalyseError::NoBandSize => ErrorModel::NoBandSize,
            AnalyseError::NoBandsDirectory(e) => ErrorModel::NoBandsDirectory(e@),
            AnalyseError::Unreadable(e) => ErrorModel::Unreadable(e@),
            AnalyseError::ZeroBandSize => ErrorModel::ZeroBandSize,
            AnalyseError::OutOfRange => ErrorModel::OutOfRange,
        }
    }
}

impl ErrorModel {
    /// The words for this error.
    pub open spec fn message_text(self) -> Seq<char> {
        match self {
            ErrorModel::NotADirectory => "not a directory — bundle missing"@,
            ErrorModel::InfoUnreadable(e) => "neither Info.plist nor Info.bckup readable: "@ + e,
            ErrorModel::BinaryPlist => "binary plist — not parsed by this reader"@,
            ErrorModel::NoBandSize => "no band-size in plist — band map unusable"@,
            ErrorModel::NoBandsDirectory(e) => "no bands directory: "@ + e,
            ErrorModel::Unreadable(e) => e,
            ErrorModel::ZeroBandSize => "band-size is zero — no offset lies in a band"@,
            ErrorModel::OutOfRange => "partition map reaches beyond 64 bits"@,
        }
    }
}

impl AnalyseError {
    /// The words for this error.
    pub fn message(&self) -> (r: String)
        ensures
            r@ == self@.message_text(),
    {
        match self {
            AnalyseError::NotADirectory => "not a directory — bundle missing".to_string(),
            AnalyseError::InfoUnreadable(e) => {
                let mut s: String = "neither Info.plist nor Info.bckup readable: ".to_string();
                s.append(e.as_str());
                s
            },
            AnalyseError::BinaryPlist => "binary plist — not parsed by this reader".to_string(),
            AnalyseError::NoBandSize => "no band-size in plist — band map unusable".to_string(),
            AnalyseError::NoBandsDirectory(e) => {
                let mut s: String = "no bands directory: ".to_string();
                s.append(e.as_str());
                s
            },
            AnalyseError::Unreadable(e) => e.clone(),
            AnalyseError::ZeroBandSize => "band-size is zero — no offset lies in a band".to_string(),
            AnalyseError::OutOfRange => "partition map reaches beyond 64 bits".to_string(),
        }
    }
}

// ---------------------------------------------------------------------------
// Info.plist
// ---------------------------------------------------------------------------

/// What the property list of a bundle says.
#[derive(Debug, Clone)]
pub struct BundleInfo {
    pub band_size: u64,
    pub declared_size: u64,
    pub info_source: &'static str,
    pub health: Health,
    pub notes: Vec<String>,
}

/// What the property list of a bundle says, as mathematical values.
pub struct InfoModel {
    pub band_size: u64,
    pub declared_size: u64,
    pub info_source: Seq<char>,
    pub health: Health,
    pub notes: Seq<Seq<char>>,
}

impl View for BundleInfo {
    type V = InfoModel;

    open spec fn view(&self) -> InfoModel {
        InfoModel {
            band_size: self.band_size,
            declared_size: self.declared_size,
            info_source: self.info_source@,
            health: self.health,
            notes: text::texts(self.notes@),
        }
    }
}

/// One item, or none.
pub open spec fn note_if(b: bool, note: Seq<char>) -> Seq<Seq<char>> {
    if b {
        seq![note]
    } else {
        Seq::empty()
    }
}

/// The note on a property list taken from the backup copy.
pub open spec fn recovered_note() -> Seq<char> {
    "Info.plist unreadable — recovered from Info.bckup"@
}

/// The note on a backing store version other than the known one.
pub open spec fn version_note(v: u64) -> Seq<char> {
    "unexpected bundle-backingstore-version "@ + text::decimal(v as nat) + " (expected 1)"@
}

/// The note on a bundle type that is not a sparsebundle's.
pub open spec fn type_note(t: Seq<char>) -> Seq<char> {
    "unexpected bundle type "@ + t
}

/// The property list gives a backing store version other than 1.
pub open spec fn odd_version(xml: Seq<char>) -> bool {
    plist::integer_value(xml, "bundle-backingstore-version"@) matches Some(v) && v != 1
}

/// The property list gives a bundle type that does not name a sparsebundle.
pub open spec fn odd_type(xml: Seq<char>) -> bool {
    plist::string_value(xml, "diskimage-bundle-type"@) matches Some(t) && !text::contains(
        t,
        "sparsebundle"@,
    )
}

/// The property list is a binary one.
pub open spec fn is_binary(xml: Seq<char>) -> bool {
    text::occurs_at(xml, "bplist00"@, 0)
}

/// What the text of a property list says of its bundle. A binary list, or one without a band
/// size, says nothing.
pub open spec fn bundle_info(xml: Seq<char>, from_backup: bool) -> Result<InfoModel, ErrorModel> {
    if is_binary(xml) {
        Err(ErrorModel::BinaryPlist)
    } else {
        match plist::integer_value(xml, "band-size"@) {
            None => Err(ErrorModel::NoBandSize),
            Some(band_size) => Ok(
                InfoModel {
                    band_size,
                    declared_size: match plist::integer_value(xml, "size"@) {
                        Some(n) => n,
                        None => 0,
                    },
                    info_source: if from_backup {
                        "Info.bckup"@
                    } else {
                        "Info.plist"@
                    },
                    health: if from_backup || odd_version(xml) {
                        Health::Suspect
                    } else {
                        Health::Sound
                    },
                    notes: note_if(from_backup, recovered_note()) + note_if(
                        odd_version(xml),
                        version_note(
                            plist::integer_value(xml, "bundle-backingstore-version"@)->0,
                        ),
                    ) + note_if(
                        odd_type(xml),
                        type_note(plist::string_value(xml, "diskimage-bundle-type"@)->0),
                    ),
                },
            ),
        }
    }
}

/// Appends a note.
fn add_note(notes: &mut Vec<String>, note: String)
    ensures
        text::texts(final(notes)@) == text::texts(old(notes)@).push(note@),
{
    notes.push(note);
    assert(text::texts(notes@) == text::texts(old(notes)@).push(note@));
}

/// Whether the property list is a binary one.
pub fn is_binary_plist(xml: &str) -> (r: bool)
    ensures
        r == is_binary(xml@),
{
    let x: Vec<char> = text::chars_of(xml);
    let y: Vec<char> = text::chars_of("bplist00");
    y.len() <= x.len() && text::stands_at(&x, &y, 0)
}

/// Reads the text of a property list.
pub fn read_info(xml: &str, from_backup: bool) -> (r: Result<BundleInfo, AnalyseError>)
    ensures
        match r {
            Ok(info) => bundle_info(xml@, from_backup) == Ok::<InfoModel, ErrorModel>(info@),
            Err(e) => bundle_info(xml@, from_backup) == Err::<InfoModel, ErrorModel>(e@),
        },
{
    if is_binary_plist(xml) {
        return Err(AnalyseError::BinaryPlist);
    }
    match plist::plist_int(xml, "band-size") {
        None => Err(AnalyseError::NoBandSize),
        Some(band_size) => {
            let declared_size: u64 = match plist::plist_int(xml, "size") {
                Some(n) => n,
                None => 0,
            };
            let mut health: Health = Health::Sound;
            let mut notes: Vec<String> = Vec::new();
            assert(text::texts(notes@) == Seq::<Seq<char>>::empty());
            if from_backup {
                add_note(
                    &mut notes,
                    "Info.plist unreadable — recovered from Info.bckup".to_string(),
                );
                health = Health::Suspect;
            }
            assert(text::texts(notes@) == note_if(from_backup, recovered_note()));
            if let Some(v) = plist::plist_int(xml, "bundle-backingstore-version") {
                if v != 1 {
                    let mut note: String = "unexpected bundle-backingstore-version ".to_string();
                    text::push_digits(&mut note, v, 10);
                    note.append(" (expected 1)");
                    add_note(&mut notes, note);
                    health = Health::Suspect;
                }
            }
            if let Some(t) = plist::plist_str(xml, "diskimage-bundle-type") {
                let t_chars: Vec<char> = text::chars_of(t.as_str());
                let wanted: Vec<char> = text::chars_of("sparsebundle");
                if text::find(&t_chars, &wanted, 0).is_none() {
                    let mut note: String = "unexpected bundle type ".to_string();
                    note.append(t.as_str());
                    add_note(&mut notes, note);
                }
            }
            let info_source: &'static str = if from_backup {
                "Info.bckup"
            } else {
                "Info.plist"
            };
            let ghost expected = bundle_info(xml@, from_backup)->Ok_0;
            assert(text::texts(notes@) == expected.notes);
            Ok(BundleInfo { band_size, declared_size, info_source, health, notes })
        },
    }
}

// ---------------------------------------------------------------------------
// Band inventory
// ---------------------------------------------------------------------------

/// What the file system says of a directory entry.
#[derive(Debug, Clone, Copy)]
pub struct FileFacts {
    pub is_file: bool,
    pub len: u64,
}

/// An entry of the bands directory. The facts are missing where they could not be had.
#[derive(Debug, Clone)]
pub struct BandEntry {
    pub name: String,
    pub facts: Option<FileFacts>,
}

impl BandEntry {
    /// The entry is known to be a file.
    pub open spec fn is_file(self) -> bool {
        self.facts matches Some(f) && f.is_file
    }

    /// The entry counts as a band: it is known to be a file, and its name is a band's.
    pub open spec fn is_band(self) -> bool {
        self.is_file() && band::index_of(self.name@) is Some
    }

    /// The entry is a band without contents.
    pub open spec fn is_empty_band(self) -> bool {
        self.is_band() && self.facts->0.len == 0
    }

    /// The entry is the band that holds the start of the image.
    pub open spec fn is_band_zero(self) -> bool {
        self.is_band() && self.name@ == "0"@
    }
}

/// How many bands there are, what stands out among them, and whether there is a file at all.
#[derive(Debug, Clone, Copy, PartialEq, Eq, Structural)]
pub struct Inventory {
    pub band_count: usize,
    pub zero_length_bands: usize,
    pub have_band_zero: bool,
    pub any_file: bool,
}

/// The inventory of a directory listing.
pub open spec fn inventory(entries: Seq<BandEntry>) -> Inventory {
    Inventory {
        band_count: entries.filter(|e: BandEntry| e.is_band()).len() as usize,
        zero_length_bands: entries.filter(|e: BandEntry| e.is_empty_band()).len() as usize,
        have_band_zero: exists|i: int|
            0 <= i < entries.len() && (#[trigger] entries[i]).is_band_zero(),
        any_file: exists|i: int| 0 <= i < entries.len() && (#[trigger] entries[i]).is_file(),
    }
}

/// Takes the inventory of a directory listing.
pub fn take_inventory(entries: &Vec<BandEntry>) -> (r: Inventory)
    ensures
        r == inventory(entries@),
{
    let ghost is_band = |e: BandEntry| e.is_band();
    let ghost is_empty_band = |e: BandEntry| e.is_empty_band();
    let mut band_count: usize = 0;
    let mut zero_length_bands: usize = 0;
    let mut have_band_zero: bool = false;
    let mut any_file: bool = false;
    let mut i: usize = 0;
    proof {
        assert(entries@.take(0) == Seq::<BandEntry>::empty());
        reveal(Seq::filter);
    }
    while i < entries.len()
        invariant
            i <= entries@.len(),
            is_band == (|e: BandEntry| e.is_band()),
            is_empty_band == (|e: BandEntry| e.is_empty_band()),
            band_count == entries@.take(i as int).filter(is_band).len(),
            zero_length_bands == entries@.take(i as int).filter(is_empty_band).len(),
            band_count <= i,
            zero_length_bands <= i,
            have_band_zero == exists|j: int|
                0 <= j < i && (#[trigger] entries@[j]).is_band_zero(),
            any_file == exists|j: int| 0 <= j < i && (#[trigger] entries@[j]).is_file(),
        decreases entries@.len() - i,
    {
        let e: &BandEntry = &entries[i];
        proof {
            reveal(Seq::filter);
            assert(entries@.take(i + 1).drop_last() == entries@.take(i as int));
            assert(entries@.take(i + 1).last() == entries@[i as int]);
        }
        if let Some(facts) = e.facts {
            if facts.is_file {
                any_file = true;
                assert(entries@[i as int].is_file());
                if band::band_index(e.name.as_str()).is_some() {
                    band_count = band_count + 1;
                    if facts.len == 0 {
                        zero_length_bands = zero_length_bands + 1;
                    }
                    if text::same_text(e.name.as_str(), "0") {
                        have_band_zero = true;
                        assert(entries@[i as int].is_band_zero());
                    }
                }
            }
        }
        i = i + 1;
    }
    assert(entries@.take(i as int) == entries@);
    Inventory { band_count, zero_length_bands, have_band_zero, any_file }
}

// ---------------------------------------------------------------------------
// Verdict
// ---------------------------------------------------------------------------

/// The note on a bands directory without files.
pub open spec fn no_bands_note() -> Seq<char> {
    "bands/ is empty — no data at all"@
}

/// The note on bands without contents.
pub open spec fn zero_length_note(n: usize) -> Seq<char> {
    text::decimal(n as nat) + " zero-length bands — signature of a truncated copy"@
}

/// The note on a missing first band.
pub open spec fn no_band_zero_note() -> Seq<char> {
    "band 0 absent — partition map unreadable, image cannot mount"@
}

/// What is known before the image is read.
pub open spec fn opened(info: InfoModel, inv: Inventory) -> AnalysisModel {
    AnalysisModel {
        health: if !inv.any_file || inv.zero_length_bands > 0 || !inv.have_band_zero {
            Health::Unusable
        } else {
            info.health
        },
        band_size: info.band_size,
        declared_size: info.declared_size,
        band_count: inv.band_count,
        zero_length_bands: inv.zero_length_bands,
        info_source: info.info_source,
        partitions: Seq::empty(),
        notes: info.notes + note_if(!inv.any_file, no_bands_note()) + note_if(
            inv.zero_length_bands > 0,
            zero_length_note(inv.zero_length_bands),
        ) + note_if(!inv.have_band_zero && inv.any_file, no_band_zero_note()),
    }
}

/// Starts an analysis from the property list and the inventory.
pub fn open_analysis(info: BundleInfo, inv: &Inventory) -> (r: Analysis)
    ensures
        r@ == opened(info@, *inv),
{
    let mut health: Health = info.health;
    let mut notes: Vec<String> = info.notes;
    let ghost from_info = text::texts(notes@);
    if !inv.any_file {
        add_note(&mut notes, "bands/ is empty — no data at all".to_string());
        health = Health::Unusable;
    }
    assert(text::texts(notes@) == from_info + note_if(!inv.any_file, no_bands_note()));
    let ghost so_far = text::texts(notes@);
    if inv.zero_length_bands > 0 {
        let mut note: String = String::new();
        text::push_digits(&mut note, inv.zero_length_bands as u64, 10);
        note.append(" zero-length bands — signature of a truncated copy");
        assert(note@ == zero_length_note(inv.zero_length_bands));
        add_note(&mut notes, note);
        health = Health::Unusable;
    }
    assert(text::texts(notes@) == so_far + note_if(
        inv.zero_length_bands > 0,
        zero_length_note(inv.zero_length_bands),
    ));
    if !inv.have_band_zero && inv.any_file {
        add_note(
            &mut notes,
            "band 0 absent — partition map unreadable, image cannot mount".to_string(),
        );
        health = Health::Unusable;
    }
    let r: Analysis = Analysis {
        health,
        band_size: info.band_size,
        declared_size: info.declared_size,
        band_count: inv.band_count,
        zero_length_bands: inv.zero_length_bands,
        info_source: info.info_source,
        partitions: Vec::new(),
        notes,
    };
    assert(r@.notes == opened(info@, *inv).notes);
    assert(r@.partitions == Seq::<PartitionModel>::empty());
    r
}

/// The note on an Apple Partition Map.
pub open spec fn apm_note() -> Seq<char> {
    "Apple Partition Map (pre-GPT layout)"@
}

/// The note on a first band of zeros, beside the one on the missing partition map.
pub open spec fn blank_note() -> Seq<char> {
    "band 0 is entirely zero — image was never formatted"@
}

/// The note on a first band without a partition map.
pub open spec fn damaged_note() -> Seq<char> {
    "no GPT or APM signature at offset 0 — partition map damaged"@
}

/// The note on a container keybag.
pub open spec fn keybag_note() -> Seq<char> {
    "container keybag observed — encryption is in play; contents may not be readable without a key"@
}

/// The note on a partition map that leads to no partition.
pub open spec fn empty_map_note() -> Seq<char> {
    "partition map lists no usable partition — no filesystem found"@
}

/// The note on partitions of which none is recognised.
pub open spec fn no_filesystem_note() -> Seq<char> {
    "partitions found but no recognised filesystem — this is what 'no mountable file systems' means"@
}

/// Some partition is an APFS container with a keybag.
pub open spec fn keybag_seen(found: Seq<PartitionModel>) -> bool {
    exists|i: int|
        0 <= i < found.len() && ((#[trigger] found[i]).apfs matches Some(a) && a.has_keybag())
}

/// Some partition holds a recognised filesystem.
pub open spec fn filesystem_seen(found: Seq<PartitionModel>) -> bool {
    exists|i: int| 0 <= i < found.len() && (#[trigger] found[i]).filesystem is Some
}

/// There are partitions, and none holds a recognised filesystem.
pub open spec fn none_recognised(found: Seq<PartitionModel>) -> bool {
    found.len() > 0 && !filesystem_seen(found)
}

/// The image begins with a partition map, and the map leads to no partition.
pub open spec fn map_is_empty(shown: Option<Layout>, found: Seq<PartitionModel>) -> bool {
    (shown == Some(Layout::Gpt) || shown == Some(Layout::Apm)) && found.len() == 0
}

/// The image begins with neither a GPT nor an Apple Partition Map.
pub open spec fn map_is_missing(shown: Option<Layout>) -> bool {
    shown == Some(Layout::Blank) || shown == Some(Layout::Unknown)
}

/// An analysis brought to its end: `shown` is what the start of the image showed, where it was
/// read, and `found` are the partitions.
pub open spec fn closed(
    a: AnalysisModel,
    shown: Option<Layout>,
    found: Seq<PartitionModel>,
) -> AnalysisModel {
    AnalysisModel {
        health: if none_recognised(found) {
            Health::Unusable
        } else if keybag_seen(found) {
            Health::Suspect
        } else if map_is_missing(shown) {
            Health::Unusable
        } else if map_is_empty(shown, found) && a.health == Health::Sound {
            Health::Suspect
        } else {
            a.health
        },
        partitions: found,
        notes: a.notes + note_if(shown == Some(Layout::Apm), apm_note()) + note_if(
            map_is_missing(shown),
            damaged_note(),
        ) + note_if(shown == Some(Layout::Blank), blank_note()) + note_if(
            map_is_empty(shown, found),
            empty_map_note(),
        ) + note_if(keybag_seen(found), keybag_note()) + note_if(
            none_recognised(found),
            no_filesystem_note(),
        ),
        ..a
    }
}

/// Whether some partition is an APFS container with a keybag.
fn sees_keybag(found: &Vec<Partition>) -> (r: bool)
    ensures
        r == keybag_seen(partition::partition_models(found@)),
{
    let ghost models = partition::partition_models(found@);
    let mut i: usize = 0;
    while i < found.len()
        invariant
            i <= found@.len(),
            models == partition::partition_models(found@),
            forall|j: int|
                0 <= j < i ==> !((#[trigger] models[j]).apfs matches Some(a) && a.has_keybag()),
        decreases found@.len() - i,
    {
        assert(models[i as int] == found@[i as int]@);
        if let Some(a) = &found[i].apfs {
            if a.encryption_evidence() == EncryptionEvidence::ContainerKeybagObserved {
                return true;
            }
        }
        i = i + 1;
    }
    false
}

/// Whether some partition holds a recognised filesystem.
fn sees_filesystem(found: &Vec<Partition>) -> (r: bool)
    ensures
        r == filesystem_seen(partition::partition_models(found@)),
{
    let ghost models = partition::partition_models(found@);
    let mut i: usize = 0;
    while i < found.len()
        invariant
            i <= found@.len(),
            models == partition::partition_models(found@),
            forall|j: int| 0 <= j < i ==> (#[trigger] models[j]).filesystem is None,
        decreases found@.len() - i,
    {
        assert(models[i as int] == found@[i as int]@);
        if found[i].filesystem.is_some() {
            return true;
        }
        i = i + 1;
    }
    false
}

/// Brings an analysis to its end.
pub fn close_analysis(draft: Analysis, shown: Option<Layout>, found: Vec<Partition>) -> (r:
    Analysis)
    ensures
        r@ == closed(draft@, shown, partition::partition_models(found@)),
{
    let mut health: Health = draft.health;
    let mut notes: Vec<String> = draft.notes;
    match shown {
        Some(Layout::Gpt) => {},
        Some(Layout::Apm) => {
            add_note(&mut notes, "Apple Partition Map (pre-GPT layout)".to_string());
        },
        Some(Layout::Blank) => {
            add_note(
                &mut notes,
                "no GPT or APM signature at offset 0 — partition map damaged".to_string(),
            );
            add_note(
                &mut notes,
                "band 0 is entirely zero — image was never formatted".to_string(),
            );
            health = Health::Unusable;
        },
        Some(Layout::Unknown) => {
            add_note(
                &mut notes,
                "no GPT or APM signature at offset 0 — partition map damaged".to_string(),
            );
            health = Health::Unusable;
        },
        None => {},
    }
    let has_map: bool = match shown {
        Some(Layout::Gpt) => true,
        Some(Layout::Apm) => true,
        _ => false,
    };
    if has_map && found.len() == 0 {
        add_note(
            &mut notes,
            "partition map lists no usable partition — no filesystem found".to_string(),
        );
        if health == Health::Sound {
            health = Health::Suspect;
        }
    }
    if sees_keybag(&found) {
        add_note(
            &mut notes,
            "container keybag observed — encryption is in play; contents may not be readable without a key".to_string(),
        );
        health = Health::Suspect;
    }
    if found.len() > 0 && !sees_filesystem(&found) {
        add_note(
            &mut notes,
            "partitions found but no recognised filesystem — this is what 'no mountable file systems' means".to_string(),
        );
        health = Health::Unusable;
    }
    let r: Analysis = Analysis {
        health,
        band_size: draft.band_size,
        declared_size: draft.declared_size,
        band_count: draft.band_count,
        zero_length_bands: draft.zero_length_bands,
        info_source: draft.info_source,
        partitions: found,
        notes,
    };
    assert(r@.notes == closed(draft@, shown, partition::partition_models(found@)).notes);
    r
}

} // verus!
