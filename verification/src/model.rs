//! The data carried around a clone: the target metadata a caller
//! supplies, and the summary of a beatmap folder shown in listings.

use vstd::prelude::*;

verus! {

/// The ghost image of a metadata record: each field as a character
/// sequence.
#[verifier::ext_equal]
pub struct MetadataView {
    pub title: Seq<char>,
    pub title_unicode: Seq<char>,
    pub artist: Seq<char>,
    pub artist_unicode: Seq<char>,
    pub creator: Seq<char>,
    pub source: Seq<char>,
    pub tags: Seq<char>,
}

/// The target values written into a cloned chart's Metadata section,
/// all free-form text substituted verbatim.
pub struct BeatmapMetadata {
    pub title: String,
    pub title_unicode: String,
    pub artist: String,
    pub artist_unicode: String,
    pub creator: String,
    pub source: String,
    pub tags: String,
}

impl View for BeatmapMetadata {
    type V = MetadataView;

    open spec fn view(&self) -> MetadataView {
        MetadataView {
            title: self.title@,
            title_unicode: self.title_unicode@,
            artist: self.artist@,
            artist_unicode: self.artist_unicode@,
            creator: self.creator@,
            source: self.source@,
            tags: self.tags@,
        }
    }
}

/// The ghost image of a folder summary.
#[verifier::ext_equal]
pub struct BeatmapsetView {
    pub folder_name: Seq<char>,
    pub title: Seq<char>,
    pub artist: Seq<char>,
    pub creator: Seq<char>,
    pub background_path: Option<Seq<char>>,
    pub beatmap_id: Seq<char>,
    pub beatmap_set_id: Seq<char>,
}

/// One beatmap folder as shown in a listing: display fields scraped
/// from its first chart file.
pub struct Beatmapset {
    pub folder_name: String,
    pub title: String,
    pub artist: String,
    pub creator: String,
    pub background_path: Option<String>,
    pub beatmap_id: String,
    pub beatmap_set_id: String,
}

impl View for Beatmapset {
    type V = BeatmapsetView;

    open spec fn view(&self) -> BeatmapsetView {
        BeatmapsetView {
            folder_name: self.folder_name@,
            title: self.title@,
            artist: self.artist@,
            creator: self.creator@,
            background_path: (match self.background_path {
                Some(ref p) => Some(p@),
                None => None,
            }),
            beatmap_id: self.beatmap_id@,
            beatmap_set_id: self.beatmap_set_id@,
        }
    }
}

} // verus!
