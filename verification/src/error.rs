//! A closed error taxonomy, one enum per component, with explicit mapping
//! functions at component boundaries.
//!
//! Input errors are reported immediately and never retried; protocol and
//! process errors are fatal to one job; transport and resource errors are
//! surfaced for visibility without crashing the worker.

use vstd::prelude::*;
use vstd::string::StringExecFns;
use crate::media::VideoContainer;

verus! {

/// Why a size-targeted encode was rejected before any work was done.
#[derive(Clone, Debug)]
pub enum EncodeToSize {
    /// Size-targeted encoding supports only a remote, streamable source.
    UnsupportedURI,
    /// The requested size cannot even hold the audio track alone.
    TargetSizeTooSmall,
}

/// An error of the encoding strategy engine.
#[derive(Clone, Debug)]
pub enum Encode {
    EncodeToSize(EncodeToSize),
}

/// An error raised while picking the message a command was called on.
#[derive(Clone, Debug)]
pub enum Edit {
    WrongFileNumber(u32),
}

/// A producer-side input that could not be turned into job parameters.
#[derive(Clone, Debug)]
pub enum InvalidInput {
    Error,
    /// A numeric field of the input did not parse.
    StringParse,
}

/// A failure of one transcode process invocation: either the progress
/// protocol was violated, or the process exited before connecting.
///
/// The protocol is a byte stream, so the offending text is carried as the
/// raw bytes that were read.
#[derive(Clone, Debug)]
pub enum Ffmpeg {
    /// A progress line held no `=` separator; carries the whole line.
    KeyValueParse { key: Vec<u8> },
    /// A `progress` key carried something other than `continue` or `end`.
    UnknownStatus { status: Vec<u8> },
    /// A field value failed to parse as its expected numeric type.
    OtherParse { msg: Vec<u8> },
    /// The process exited before it connected to the progress socket.
    Exit { code: Option<i32> },
}

/// A failure of the queue store transport, as reported by the store client.
#[derive(Clone, Debug)]
pub enum Queue {
    Transport(String),
    Serde(String),
}

/// Everything that can end a dequeued job in failure.
#[derive(Clone, Debug)]
pub enum Worker {
    InvalidInput(InvalidInput),
    Ffmpeg(Ffmpeg),
    Encode(Encode),
    Io(String),
    Message { msg: String },
    S3(String),
    /// Remuxing into this container is not supported.
    UnsupportedContainer(VideoContainer),
    /// A combine whose selected streams resolve to no known output kind.
    UnsupportedOutputKind,
    /// The job carried no source to work on.
    NoVideo,
}

impl EncodeToSize {
    pub open spec fn spec_message(self) -> Seq<char> {
        match self {
            EncodeToSize::UnsupportedURI => "Unsupported URL"@,
            EncodeToSize::TargetSizeTooSmall => "Target size too small"@,
        }
    }

    /// The human-readable cause, as published to the job's progress channel.
    pub fn message(&self) -> (r: String)
        ensures
            r@ == self.spec_message(),
    {
        match self {
            EncodeToSize::UnsupportedURI => "Unsupported URL",
            EncodeToSize::TargetSizeTooSmall => "Target size too small",
        }.to_owned()
    }
}

impl Encode {
    pub open spec fn spec_message(self) -> Seq<char> {
        match self {
            Encode::EncodeToSize(e) => "Encode error: "@ + e.spec_message(),
        }
    }

    /// The human-readable cause, as published to the job's progress channel.
    pub fn message(&self) -> (r: String)
        ensures
            r@ == self.spec_message(),
    {
        match self {
            Encode::EncodeToSize(e) => "Encode error: ".to_owned().concat(e.message().as_str()),
        }
    }
}

impl Ffmpeg {
    pub open spec fn spec_message(self) -> Seq<char> {
        match self {
            Ffmpeg::KeyValueParse { key } => "progress line is not a key=value pair"@,
            Ffmpeg::UnknownStatus { status } => "unknown progress status value"@,
            Ffmpeg::OtherParse { msg } => "malformed numeric field in progress line"@,
            Ffmpeg::Exit { code } => "process exited before reporting progress"@,
        }
    }

    /// The human-readable cause, as published to the job's progress channel.
    pub fn message(&self) -> (r: String)
        ensures
            r@ == self.spec_message(),
    {
        match self {
            Ffmpeg::KeyValueParse { key } => "progress line is not a key=value pair".to_owned(),
            Ffmpeg::UnknownStatus { status } => "unknown progress status value".to_owned(),
            Ffmpeg::OtherParse { msg } => "malformed numeric field in progress line".to_owned(),
            Ffmpeg::Exit { code } => "process exited before reporting progress".to_owned(),
        }
    }
}

impl Worker {
    pub open spec fn spec_message(self) -> Seq<char> {
        match self {
            Worker::InvalidInput(_) => "invalid input"@,
            Worker::Ffmpeg(e) => e.spec_message(),
            Worker::Encode(e) => e.spec_message(),
            Worker::Io(msg) => "io error: "@ + msg@,
            Worker::Message { msg } => msg@,
            Worker::S3(msg) => "storage error: "@ + msg@,
            Worker::UnsupportedContainer(c) => {
                "unsupported container: "@ + c.spec_file_extension()
            },
            Worker::UnsupportedOutputKind => "combine selection has no output kind"@,
            Worker::NoVideo => "job has no video to process"@,
        }
    }

    /// The human-readable cause, as published to the job's progress channel.
    pub fn message(&self) -> (r: String)
        ensures
            r@ == self.spec_message(),
    {
        match self {
            Worker::InvalidInput(_) => "invalid input".to_owned(),
            Worker::Ffmpeg(e) => e.message(),
            Worker::Encode(e) => e.message(),
            Worker::Io(msg) => "io error: ".to_owned().concat(msg.as_str()),
            Worker::Message { msg } => msg.clone(),
            Worker::S3(msg) => "storage error: ".to_owned().concat(msg.as_str()),
            Worker::UnsupportedContainer(c) => {
                "unsupported container: ".to_owned().concat(c.get_file_extension().as_str())
            },
            Worker::UnsupportedOutputKind => "combine selection has no output kind".to_owned(),
            Worker::NoVideo => "job has no video to process".to_owned(),
        }
    }
}

} // verus!
