//! Sources, containers and elementary streams: the data a job works on.

use vstd::prelude::*;

verus! {

/// Where a source lives: a local file path or a remote URL.
#[derive(Clone, Debug)]
pub enum VideoURI {
    Path(String),
    Url(String),
}

/// A source to transform, with the stable id its job is keyed by.
#[derive(Clone, Debug)]
pub struct Video {
    pub url: VideoURI,
    pub id: String,
    pub filename: String,
}

impl Video {
    /// A missing id defaults to the empty string.
    pub fn new(url: VideoURI, id: Option<String>, filename: String) -> (v: Video)
        ensures
            v.url == url,
            v.filename == filename,
            match id {
                Some(s) => v.id == s,
                None => v.id@ == Seq::<char>::empty(),
            },
    {
        match id {
            Some(s) => Video { url, id: s, filename },
            None => Video { url, id: String::new(), filename },
        }
    }
}

/// The containers a job can ask for.
#[derive(Clone, Copy, PartialEq, Eq, Structural, Debug)]
pub enum VideoContainer {
    MP3,
    MP4,
    WEBM,
    MKV,
}

impl VideoContainer {
    /// The file extension a finished output of this container carries.
    pub open spec fn spec_file_extension(self) -> Seq<char> {
        match self {
            VideoContainer::MKV => "mkv"@,
            VideoContainer::MP4 => "mp4"@,
            VideoContainer::MP3 => "mp3"@,
            VideoContainer::WEBM => "webm"@,
        }
    }

    pub fn get_file_extension(&self) -> (r: String)
        ensures
            r@ == self.spec_file_extension(),
    {
        match self {
            VideoContainer::MKV => "mkv",
            VideoContainer::MP4 => "mp4",
            VideoContainer::MP3 => "mp3",
            VideoContainer::WEBM => "webm",
        }.to_owned()
    }
}

/// What an elementary stream carries.
#[derive(Clone, Copy, PartialEq, Eq, Structural, Debug)]
pub enum StreamKind {
    Video,
    Audio,
    Unknown,
}

/// One elementary stream of a source: its index, kind, and the source
/// duration in microseconds.  Produced by stream introspection, never mutated.
#[derive(Clone, Debug)]
pub struct MediaStream {
    pub id: usize,
    pub kind: StreamKind,
    pub duration: i64,
}

/// Desired total output size, in bytes.
#[derive(Clone, Debug)]
pub struct EncodeToSizeParameters {
    pub target_size: u32,
}

/// Trim bounds, each in microseconds from the start of the source; a missing
/// bound leaves that side of the source untouched.
#[derive(Clone, Debug)]
pub struct CutParameters {
    pub start: Option<u64>,
    pub end: Option<u64>,
}

/// The container to repackage the source into, without re-encoding.
#[derive(Clone, Debug)]
pub struct RemuxParameters {
    pub container: VideoContainer,
}

/// One source of a combine operation and the indices of its selected streams.
#[derive(Clone, Debug)]
pub struct CombineVideo {
    pub url: String,
    pub selected_streams: Vec<usize>,
}

/// The sources to combine and the inferred kind of the overall output.
#[derive(Clone, Debug)]
pub struct CombineParameters {
    pub videos: Vec<CombineVideo>,
    pub output_kind: StreamKind,
}

/// Playback-rate change, in thousandths: 1000 leaves the speed unchanged,
/// 2000 doubles it.
#[derive(Clone, Debug)]
pub struct SpeedParameters {
    pub speed_factor_milli: u64,
}

} // verus!
