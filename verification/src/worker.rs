//! The per-job supervisor: a state machine that decides, step by step, what
//! the worker loop must do with one dequeued job and what it publishes on
//! the job's progress channel.
//!
//! States: `Received → (AwaitingWorkspace →) WorkspaceReady → Dispatched →
//! Terminal → Cleaned`.  The surrounding loop performs the I/O each decision
//! asks for — creating the scratch workspace, spawning the planned
//! invocations, streaming the output to storage, probing streams — and hands
//! the outcome back.  The machine guarantees that every job ends in exactly
//! one terminal event, that nothing follows a terminal event on the channel,
//! and that a created workspace is removed whatever terminal state came
//! first.  One job's failure never goes beyond that job.

use vstd::prelude::*;
use crate::encoding;
use crate::encoding::{Invocation, MediaInfo};
use crate::error;
use crate::error::{Encode, EncodeToSize};
use crate::job::{Job, Kind, Parameters, Progress, Response};
use crate::media::{MediaStream, StreamKind, VideoContainer};

verus! {

/// Where one job stands in its lifecycle.
#[derive(Clone, Copy, PartialEq, Eq, Structural, Debug)]
pub enum Phase {
    Received,
    /// The scratch workspace is being created.
    AwaitingWorkspace,
    WorkspaceReady,
    Dispatched,
    /// A terminal event has been published.
    Terminal,
    Cleaned,
}

/// What the worker loop must do with a freshly received job.
#[derive(Clone, Copy, PartialEq, Eq, Structural, Debug)]
pub enum IntakeStep {
    /// The job cannot be processed; its failure is already on the channel.
    Rejected,
    /// Create the scratch workspace, then report the outcome.
    CreateWorkspace,
    /// A metadata-only job: no workspace, proceed directly.
    Ready,
}

/// No event may follow a terminal one.
pub open spec fn events_wf(events: Seq<Progress>) -> bool {
    forall|i: int|
        0 <= i < events.len() && (#[trigger] events[i]).is_terminal() ==> i == events.len() - 1
}

/// The supervisor for one job's run.
pub struct JobRun {
    pub job: Job,
    pub phase: Phase,
    /// Everything published on the job's channel so far, in order.  The
    /// loop forwards new entries to the channel after each step.
    pub events: Vec<Progress>,
    pub workspace_created: bool,
    pub workspace_removed: bool,
}

impl JobRun {
    pub open spec fn has_terminal(self) -> bool {
        exists|i: int| 0 <= i < self.events@.len() && (#[trigger] self.events@[i]).is_terminal()
    }

    /// The machine's invariant: established at intake, preserved by every
    /// step.
    pub open spec fn wf(self) -> bool {
        &&& events_wf(self.events@)
        &&& (self.has_terminal() <==> (self.phase == Phase::Terminal || self.phase
            == Phase::Cleaned))
        &&& (self.phase == Phase::Received ==> self.events@.len() == 0 && !self.workspace_created
            && !self.workspace_removed)
        &&& (self.workspace_removed ==> self.workspace_created)
        &&& (self.phase == Phase::Cleaned ==> (self.workspace_created
            ==> self.workspace_removed))
        &&& ((self.phase == Phase::AwaitingWorkspace || self.phase == Phase::WorkspaceReady
            || self.phase == Phase::Dispatched) ==> self.job.video is Some)
        &&& (self.phase == Phase::AwaitingWorkspace ==> !self.workspace_created && self.job.kind
            == Kind::Processing)
    }

    pub fn new(job: Job) -> (s: Self)
        ensures
            s.wf(),
            s.phase == Phase::Received,
            s.job == job,
            s.events@ == Seq::<Progress>::empty(),
            !s.workspace_created,
            !s.workspace_removed,
    {
        let s = JobRun {
            job,
            phase: Phase::Received,
            events: Vec::new(),
            workspace_created: false,
            workspace_removed: false,
        };
        proof {
            assert(!s.has_terminal());
        }
        s
    }

    /// Intake.  A job without a source is rejected — surfaced as an error on
    /// the channel, never silently dropped, and without a `Started` event.
    /// A transforming job needs its workspace first; a metadata job is ready
    /// at once and `Started` goes out.
    pub fn begin(&mut self) -> (r: IntakeStep)
        requires
            old(self).wf(),
            old(self).phase == Phase::Received,
        ensures
            final(self).wf(),
            final(self).job == old(self).job,
            final(self).workspace_created == old(self).workspace_created,
            final(self).workspace_removed == old(self).workspace_removed,
            match r {
                IntakeStep::Rejected => {
                    &&& old(self).job.video is None
                    &&& final(self).phase == Phase::Terminal
                    &&& final(self).events@.len() == 1
                    &&& final(self).events@[0] matches Progress::Error(m) && m@
                        == error::Worker::NoVideo.spec_message()
                },
                IntakeStep::CreateWorkspace => {
                    &&& old(self).job.video is Some
                    &&& old(self).job.kind == Kind::Processing
                    &&& final(self).phase == Phase::AwaitingWorkspace
                    &&& final(self).events@ == Seq::<Progress>::empty()
                },
                IntakeStep::Ready => {
                    &&& old(self).job.video is Some
                    &&& old(self).job.kind == Kind::Parsing
                    &&& final(self).phase == Phase::WorkspaceReady
                    &&& final(self).events@ =~= seq![Progress::Started]
                },
            },
    {
        if self.job.video.is_none() {
            let msg = error::Worker::NoVideo.message();
            self.events.push(Progress::Error(msg));
            self.phase = Phase::Terminal;
            proof {
                assert(self.events@[0].is_terminal());
                assert(self.has_terminal());
            }
            IntakeStep::Rejected
        } else {
            match self.job.kind {
                Kind::Processing => {
                    self.phase = Phase::AwaitingWorkspace;
                    IntakeStep::CreateWorkspace
                },
                Kind::Parsing => {
                    self.events.push(Progress::Started);
                    self.phase = Phase::WorkspaceReady;
                    proof {
                        assert(!self.events@[0].is_terminal());
                        assert(!self.has_terminal());
                    }
                    IntakeStep::Ready
                },
            }
        }
    }

    /// The workspace-creation outcome.  Success publishes `Started` — after
    /// the workspace, before any process.  Failure is fatal for this job
    /// only: the error goes out and the job ends, `Started` never appears.
    pub fn workspace_outcome(&mut self, outcome: Result<(), String>)
        requires
            old(self).wf(),
            old(self).phase == Phase::AwaitingWorkspace,
        ensures
            final(self).wf(),
            final(self).job == old(self).job,
            final(self).workspace_removed == old(self).workspace_removed,
            match outcome {
                Ok(_) => {
                    &&& final(self).phase == Phase::WorkspaceReady
                    &&& final(self).workspace_created
                    &&& final(self).events@ == old(self).events@.push(Progress::Started)
                },
                Err(m) => {
                    &&& final(self).phase == Phase::Terminal
                    &&& !final(self).workspace_created
                    &&& final(self).events@ == old(self).events@.push(Progress::Error(m))
                },
            },
    {
        match outcome {
            Ok(_) => {
                self.workspace_created = true;
                self.events.push(Progress::Started);
                self.phase = Phase::WorkspaceReady;
                proof {
                    assert(forall|i: int|
                        0 <= i < self.events@.len() ==> !(#[trigger] self.events@[i])
                            .is_terminal());
                    assert(!self.has_terminal());
                }
            },
            Err(m) => {
                self.events.push(Progress::Error(m));
                self.phase = Phase::Terminal;
                proof {
                    assert(self.events@.last().is_terminal());
                    assert(self.has_terminal());
                }
            },
        }
    }
}

/// The extension the output descriptor carries for each operation.
pub open spec fn spec_output_extension(p: Parameters) -> Seq<char> {
    match p {
        Parameters::Remux(rp) => rp.container.spec_file_extension(),
        Parameters::Combine(cp) => if cp.output_kind == StreamKind::Audio {
            "mp3"@
        } else {
            "mp4"@
        },
        _ => "mp4"@,
    }
}

pub fn output_extension(params: &Parameters) -> (r: String)
    ensures
        r@ == spec_output_extension(*params),
{
    match params {
        Parameters::Remux(rp) => rp.container.get_file_extension(),
        Parameters::Combine(cp) => match cp.output_kind {
            StreamKind::Audio => "mp3".to_owned(),
            _ => "mp4".to_owned(),
        },
        _ => "mp4".to_owned(),
    }
}

/// What the strategy engine decides for one transforming job: the
/// invocations to run, or the typed input error that ends it.
pub open spec fn spec_plan(job: Job, info: MediaInfo, prefix: Seq<char>) -> Result<
    Seq<encoding::GInvocation>,
    error::Worker,
> {
    match job.video {
        Some(v) => {
            let url = encoding::spec_source_url(v);
            match job.params {
                Parameters::Cut(p) => Ok(seq![encoding::spec_cut(url, p)]),
                Parameters::Remux(p) => if p.container == VideoContainer::MP4 || p.container
                    == VideoContainer::MKV {
                    Ok(seq![encoding::spec_remux(url, p.container)])
                } else {
                    Err(error::Worker::UnsupportedContainer(p.container))
                },
                Parameters::Speed(p) => Ok(seq![encoding::spec_speed(url, p.speed_factor_milli)]),
                Parameters::Combine(p) => if p.output_kind != StreamKind::Unknown {
                    Ok(seq![encoding::spec_combine(p)])
                } else {
                    Err(error::Worker::UnsupportedOutputKind)
                },
                Parameters::EncodeToSize(p) => if v.url is Path {
                    Err(error::Worker::Encode(Encode::EncodeToSize(EncodeToSize::UnsupportedURI)))
                } else if encoding::spec_audio_too_large(
                    p.target_size as int,
                    info.duration_us as int,
                    info.audio_bitrate_kbps as int,
                ) {
                    Err(
                        error::Worker::Encode(
                            Encode::EncodeToSize(EncodeToSize::TargetSizeTooSmall),
                        ),
                    )
                } else {
                    let vb = encoding::spec_target_video_bitrate_milli(
                        p.target_size as int,
                        info.duration_us as int,
                        info.audio_bitrate_kbps as int,
                    ) as i64;
                    Ok(
                        seq![
                            encoding::spec_pass1(url, vb, prefix),
                            encoding::spec_pass2(url, vb, info.audio_bitrate_kbps, prefix),
                        ],
                    )
                },
                Parameters::GetStreams => Err(error::Worker::NoVideo),
            }
        },
        None => Err(error::Worker::NoVideo),
    }
}

/// Whether a vector of invocations realizes the planned shapes, one for one.
pub open spec fn invocations_match(
    invs: Seq<Invocation>,
    planned: Seq<encoding::GInvocation>,
) -> bool {
    invs.len() == planned.len() && forall|i: int|
        0 <= i < planned.len() ==> (#[trigger] invs[i])@ == planned[i]
}

impl JobRun {
    /// Asks the strategy engine for the invocations of a transforming job.
    /// A plan error ends the job here: the typed error's message goes out as
    /// the terminal event and nothing is ever spawned.  `info` carries the
    /// probe measurements that a size-targeted encode needs; `pass_log_prefix`
    /// threads the shared pass-log path into both passes.
    pub fn dispatch(&mut self, info: &MediaInfo, pass_log_prefix: &str) -> (r: Option<
        Vec<Invocation>,
    >)
        requires
            old(self).wf(),
            old(self).phase == Phase::WorkspaceReady,
            !(old(self).job.params is GetStreams),
            old(self).job.params is EncodeToSize ==> info.duration_us > 0,
        ensures
            final(self).wf(),
            final(self).job == old(self).job,
            final(self).workspace_created == old(self).workspace_created,
            final(self).workspace_removed == old(self).workspace_removed,
            match spec_plan(old(self).job, *info, pass_log_prefix@) {
                Ok(planned) => {
                    &&& r matches Some(invs) && invocations_match(invs@, planned)
                    &&& final(self).phase == Phase::Dispatched
                    &&& final(self).events@ == old(self).events@
                },
                Err(e) => {
                    &&& r is None
                    &&& final(self).phase == Phase::Terminal
                    &&& final(self).events@.len() == old(self).events@.len() + 1
                    &&& final(self).events@.drop_last() == old(self).events@
                    &&& final(self).events@.last() matches Progress::Error(m) && m@
                        == e.spec_message()
                },
            },
    {
        let plan: Result<Vec<Invocation>, error::Worker> = match (&self.job.video,
        &self.job.params) {
            (Some(v), Parameters::Cut(p)) => {
                let mut invs: Vec<Invocation> = Vec::new();
                invs.push(encoding::cut(v, p));
                Ok(invs)
            },
            (Some(v), Parameters::Remux(p)) => {
                match encoding::remux(v, p) {
                    Ok(inv) => {
                        let mut invs: Vec<Invocation> = Vec::new();
                        invs.push(inv);
                        Ok(invs)
                    },
                    Err(e) => Err(e),
                }
            },
            (Some(v), Parameters::Speed(p)) => {
                let mut invs: Vec<Invocation> = Vec::new();
                invs.push(encoding::speed(v, p));
                Ok(invs)
            },
            (Some(v), Parameters::Combine(p)) => {
                match encoding::combine(v, p) {
                    Ok(inv) => {
                        let mut invs: Vec<Invocation> = Vec::new();
                        invs.push(inv);
                        Ok(invs)
                    },
                    Err(e) => Err(e),
                }
            },
            (Some(v), Parameters::EncodeToSize(p)) => {
                encoding::encode_to_size(v, p, info, pass_log_prefix)
            },
            (Some(_), Parameters::GetStreams) => {
                proof {
                    assert(false);
                }
                Err(error::Worker::NoVideo)
            },
            (None, _) => {
                proof {
                    assert(false);
                }
                Err(error::Worker::NoVideo)
            },
        };
        match plan {
            Ok(invs) => {
                self.phase = Phase::Dispatched;
                Some(invs)
            },
            Err(e) => {
                let msg = e.message();
                self.events.push(Progress::Error(msg));
                self.phase = Phase::Terminal;
                proof {
                    assert(self.events@.last().is_terminal());
                    assert(self.has_terminal());
                    assert(self.events@.drop_last() =~= old(self).events@);
                }
                None
            },
        }
    }

    /// The outcome of a metadata-only job.  A successful probe of a remote
    /// source publishes the streams and then the terminal `Done` with an
    /// empty descriptor — there is no output file.  A local source or a
    /// failed probe ends the job with the error on the channel.
    pub fn streams_result(&mut self, probe: Result<Vec<MediaStream>, String>)
        requires
            old(self).wf(),
            old(self).phase == Phase::WorkspaceReady,
            old(self).job.params is GetStreams,
        ensures
            final(self).wf(),
            final(self).job == old(self).job,
            final(self).workspace_created == old(self).workspace_created,
            final(self).workspace_removed == old(self).workspace_removed,
            final(self).phase == Phase::Terminal,
            match probe {
                Ok(streams) => {
                    if old(self).job.video matches Some(v) && v.url is Url {
                        &&& final(self).events@.len() == old(self).events@.len() + 2
                        &&& final(self).events@.drop_last().drop_last() == old(self).events@
                        &&& final(self).events@[old(self).events@.len() as int]
                            == Progress::Response(Response::GetStreams(streams))
                        &&& final(self).events@.last() matches Progress::Done(d) && d@
                            == Seq::<char>::empty()
                    } else {
                        &&& final(self).events@.len() == old(self).events@.len() + 1
                        &&& final(self).events@.drop_last() == old(self).events@
                        &&& final(self).events@.last() matches Progress::Error(m) && m@
                            == error::Worker::Encode(
                            Encode::EncodeToSize(EncodeToSize::UnsupportedURI),
                        ).spec_message()
                    }
                },
                Err(m) => {
                    &&& final(self).events@.len() == old(self).events@.len() + 1
                    &&& final(self).events@.drop_last() == old(self).events@
                    &&& final(self).events@.last() == Progress::Error(m)
                },
            },
    {
        match probe {
            Ok(streams) => {
                let outcome = match &self.job.video {
                    Some(v) => encoding::get_streams(v, streams),
                    None => {
                        proof {
                            assert(false);
                        }
                        Err(error::Worker::NoVideo)
                    },
                };
                match outcome {
                    Ok(streams) => {
                        self.events.push(Progress::Response(Response::GetStreams(streams)));
                        self.events.push(Progress::Done(String::new()));
                        self.phase = Phase::Terminal;
                        proof {
                            assert(self.events@.last().is_terminal());
                            assert(self.has_terminal());
                            assert(self.events@.drop_last().drop_last() =~= old(self).events@);
                            assert(forall|i: int|
                                0 <= i < self.events@.len() - 1 ==> !(#[trigger] self.events@[i])
                                    .is_terminal());
                        }
                    },
                    Err(e) => {
                        let msg = e.message();
                        self.events.push(Progress::Error(msg));
                        self.phase = Phase::Terminal;
                        proof {
                            assert(self.events@.last().is_terminal());
                            assert(self.has_terminal());
                            assert(self.events@.drop_last() =~= old(self).events@);
                        }
                    },
                }
            },
            Err(m) => {
                self.events.push(Progress::Error(m));
                self.phase = Phase::Terminal;
                proof {
                    assert(self.events@.last().is_terminal());
                    assert(self.has_terminal());
                    assert(self.events@.drop_last() =~= old(self).events@);
                }
            },
        }
    }

    /// The end of a dispatched job: success publishes `Done` with the
    /// output's descriptor, failure the cause.  Either way this is the
    /// channel's one terminal event; the job is reported once, never
    /// retried.
    pub fn exec_outcome(&mut self, outcome: Result<(), error::Worker>)
        requires
            old(self).wf(),
            old(self).phase == Phase::Dispatched,
        ensures
            final(self).wf(),
            final(self).job == old(self).job,
            final(self).workspace_created == old(self).workspace_created,
            final(self).workspace_removed == old(self).workspace_removed,
            final(self).phase == Phase::Terminal,
            final(self).events@.len() == old(self).events@.len() + 1,
            final(self).events@.drop_last() == old(self).events@,
            match outcome {
                Ok(_) => final(self).events@.last() matches Progress::Done(ext) && ext@
                    == spec_output_extension(old(self).job.params),
                Err(e) => final(self).events@.last() matches Progress::Error(m) && m@
                    == e.spec_message(),
            },
    {
        match outcome {
            Ok(_) => {
                let ext = output_extension(&self.job.params);
                self.events.push(Progress::Done(ext));
            },
            Err(e) => {
                let msg = e.message();
                self.events.push(Progress::Error(msg));
            },
        }
        self.phase = Phase::Terminal;
        proof {
            assert(self.events@.last().is_terminal());
            assert(self.has_terminal());
            assert(self.events@.drop_last() =~= old(self).events@);
        }
    }

    /// An outside failure before or while the job's work runs — a probe
    /// that failed, a store or transport that vanished — ends the job with
    /// its cause on the channel.  Surfaced to the caller, never retried.
    pub fn abort(&mut self, msg: String)
        requires
            old(self).wf(),
            old(self).phase == Phase::WorkspaceReady || old(self).phase == Phase::Dispatched,
        ensures
            final(self).wf(),
            final(self).job == old(self).job,
            final(self).workspace_created == old(self).workspace_created,
            final(self).workspace_removed == old(self).workspace_removed,
            final(self).phase == Phase::Terminal,
            final(self).events@ == old(self).events@.push(Progress::Error(msg)),
    {
        self.events.push(Progress::Error(msg));
        self.phase = Phase::Terminal;
        proof {
            assert(self.events@.last().is_terminal());
            assert(self.has_terminal());
        }
    }

    /// Unconditional cleanup once the job is terminal: tells the loop
    /// whether a scratch workspace exists to remove.  A failed removal is
    /// logged by the loop and never prevents progress reporting.
    pub fn cleanup(&mut self) -> (remove_workspace: bool)
        requires
            old(self).wf(),
            old(self).phase == Phase::Terminal,
        ensures
            final(self).wf(),
            final(self).job == old(self).job,
            final(self).events@ == old(self).events@,
            final(self).phase == Phase::Cleaned,
            final(self).workspace_created == old(self).workspace_created,
            remove_workspace == old(self).workspace_created,
            final(self).workspace_removed == (old(self).workspace_removed
                || old(self).workspace_created),
    {
        self.phase = Phase::Cleaned;
        if self.workspace_created {
            self.workspace_removed = true;
            true
        } else {
            false
        }
    }
}

/// Progress terminal exclusivity: once a `Done` or `Error` stands on a job's
/// channel, it is the last event ever published there — no event follows a
/// terminal one.
pub proof fn lemma_terminal_is_last(s: JobRun, i: int)
    requires
        s.wf(),
        0 <= i < s.events@.len(),
        s.events@[i].is_terminal(),
    ensures
        i == s.events@.len() - 1,
{
}

/// Every run that reached a terminal state carries exactly one terminal
/// event: one exists, and any two coincide.
pub proof fn lemma_exactly_one_terminal(s: JobRun)
    requires
        s.wf(),
        s.phase == Phase::Terminal || s.phase == Phase::Cleaned,
    ensures
        exists|i: int| 0 <= i < s.events@.len() && (#[trigger] s.events@[i]).is_terminal(),
        forall|i: int, j: int|
            0 <= i < s.events@.len() && 0 <= j < s.events@.len() && (#[trigger] s.events@[i])
                .is_terminal() && (#[trigger] s.events@[j]).is_terminal() ==> i == j,
{
}

/// Workspace cleanup: after the loop finishes a job — whichever terminal
/// state preceded, success or a failure at any stage after workspace
/// creation — a created workspace has been removed.
pub proof fn lemma_workspace_removed(s: JobRun)
    requires
        s.wf(),
        s.phase == Phase::Cleaned,
        s.workspace_created,
    ensures
        s.workspace_removed,
{
}

} // verus!
