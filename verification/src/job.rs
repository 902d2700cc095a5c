//! The unit of work and the progress events published while it runs.

use vstd::prelude::*;
use crate::media::{
    CombineParameters, CutParameters, EncodeToSizeParameters, MediaStream, RemuxParameters,
    SpeedParameters, Video,
};

verus! {

/// The payload of a metadata-only job.
#[derive(Clone, Debug)]
pub enum Response {
    GetStreams(Vec<MediaStream>),
}

/// A status update published for one job on its own channel.
///
/// The lifecycle of a channel ends at `Done` or `Error`: no further event is
/// valid after either.
#[derive(Clone, Debug)]
pub enum Progress {
    Started,
    /// How far the job has come, in thousandths of the whole.
    Progress(u32),
    Error(String),
    Response(Response),
    /// Carries a descriptor of the output: its container extension.
    Done(String),
}

impl Progress {
    /// Whether this event ends the channel's lifecycle.
    pub open spec fn is_terminal(self) -> bool {
        self is Done || self is Error
    }
}

/// Whether a job transforms its source or only inspects it.
#[derive(Clone, Copy, PartialEq, Eq, Structural, Debug)]
pub enum Kind {
    Processing,
    Parsing,
}

/// The operation a job requests, with its payload.
#[derive(Clone, Debug)]
pub enum Parameters {
    EncodeToSize(EncodeToSizeParameters),
    Cut(CutParameters),
    Remux(RemuxParameters),
    GetStreams,
    Combine(CombineParameters),
    Speed(SpeedParameters),
}

/// One requested media transformation: its kind, its source (a job without a
/// source cannot be processed and is surfaced as an error, never dropped),
/// and the operation's parameters.
#[derive(Clone, Debug)]
pub struct Job {
    pub kind: Kind,
    pub video: Option<Video>,
    pub params: Parameters,
}

impl Job {
    pub fn new(kind: Kind, video: Option<Video>, params: Parameters) -> (j: Self)
        ensures
            j == (Job { kind, video, params }),
    {
        Job { kind, video, params }
    }
}

} // verus!
