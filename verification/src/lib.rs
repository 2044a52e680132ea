//! Read, analyse and stream Apple sparsebundle disk images.
//!
//! A sparsebundle is a directory containing an `Info.plist` and a `bands/`
//! subdirectory full of numbered band files. The band index is
//! `offset / band_size`, so **band 0 contains the partition map**. Reading it
//! tells you whether the image is structurally sound without attaching it.
//!
//! Format details that matter, and that are easy to get wrong:
//!
//! - Band files are named `bands/%x` -- **lowercase hex, no zero padding**.
//! - **A missing band is normal.** An absent band reads as zeros; that is what
//!   "sparse" means. Absent bands are never evidence of damage.
//! - **`token` is an ordinary empty file** in every sparsebundle, not a lock.
//! - `Info.bckup` is a copy of `Info.plist`, and is a real recovery path when
//!   the primary is unreadable.
//!
//! Nothing here touches a file. [`analyse`] starts a survey that says what it has to be told
//! next; [`plan`], [`band_name`] and [`read_at`] say where bytes of the image lie and what is
//! read there; [`BandStream`] cuts a band into overlapping windows.
pub mod analysis;
pub mod apfs;
pub mod band;
pub mod bytes;
pub mod laws;
pub mod partition;
pub mod plist;
pub mod render;
pub mod stream;
pub mod survey;
pub mod text;

pub use analysis::{AnalyseError, Analysis, BandEntry, FileFacts, Health};
pub use apfs::{parse_apfs_superblock, ApfsInfo, EncryptionEvidence};
pub use band::{
    adjacent_head, band_index, band_name, bands, cut_head, next_piece, plan, read_at, Band, Piece,
    OVERLAP,
};
pub use partition::{parse_apm, parse_gpt, probe_fs, Partition, Probe};
pub use plist::{plist_int, plist_str};
pub use stream::{stream_band, BandStream, Window, CHUNK};
pub use survey::{analyse, Reply, Request, Survey};
