//! The per-job supervisor: what gets published, in what order, and when the
//! workspace goes away.

use ive::encoding::MediaInfo;
use ive::job::{Job, Kind, Parameters, Progress};
use ive::media::{CutParameters, RemuxParameters, Video, VideoContainer, VideoURI};
use ive::worker::{IntakeStep, JobRun, Phase};

fn remote_video() -> Video {
    Video::new(
        VideoURI::Url("https://example.net/source.mp4".to_owned()),
        Some("job-7".to_owned()),
        "source.mp4".to_owned(),
    )
}

fn no_probe() -> MediaInfo {
    MediaInfo { duration_us: 0, audio_bitrate_kbps: 0 }
}

#[test]
fn cut_job_runs_to_done_then_cleanup() {
    // submit Cut{start=5s, end=None} on a 120 s source
    let job = Job::new(
        Kind::Processing,
        Some(remote_video()),
        Parameters::Cut(CutParameters { start: Some(5_000_000), end: None }),
    );
    let mut run = JobRun::new(job);

    assert_eq!(run.begin(), IntakeStep::CreateWorkspace);
    assert!(run.events.is_empty());

    run.workspace_outcome(Ok(()));
    assert!(matches!(run.events[0], Progress::Started));

    let invs = run.dispatch(&no_probe(), "tmpfs/job-7/pass").expect("a plan");
    assert_eq!(invs.len(), 1);
    // the invocation carries a start trim and no end trim
    assert_eq!(invs[0].start_trim_us, Some(5_000_000));
    assert_eq!(invs[0].end_trim_us, None);

    // the loop ran the invocation and streamed the output under the job id
    run.exec_outcome(Ok(()));
    match &run.events[1] {
        Progress::Done(ext) => assert_eq!(ext, "mp4"),
        other => panic!("expected Done, got {:?}", other),
    }

    // Done was published before the workspace goes away
    assert!(!run.workspace_removed);
    let remove = run.cleanup();
    assert!(remove);
    assert!(run.workspace_removed);
    assert_eq!(run.phase, Phase::Cleaned);
    assert_eq!(run.events.len(), 2);
}

#[test]
fn job_without_video_fails_without_started() {
    let job = Job::new(
        Kind::Processing,
        None,
        Parameters::Cut(CutParameters { start: None, end: None }),
    );
    let mut run = JobRun::new(job);
    assert_eq!(run.begin(), IntakeStep::Rejected);
    assert_eq!(run.events.len(), 1);
    assert!(matches!(run.events[0], Progress::Error(_)));
    // no workspace was ever created, so none is removed
    assert!(!run.cleanup());
}

#[test]
fn failure_after_workspace_still_cleans_up() {
    // remux to MP3 is rejected by the strategy engine after the workspace
    let job = Job::new(
        Kind::Processing,
        Some(remote_video()),
        Parameters::Remux(RemuxParameters { container: VideoContainer::MP3 }),
    );
    let mut run = JobRun::new(job);
    assert_eq!(run.begin(), IntakeStep::CreateWorkspace);
    run.workspace_outcome(Ok(()));
    assert!(run.dispatch(&no_probe(), "tmpfs/job-7/pass").is_none());
    assert_eq!(run.phase, Phase::Terminal);
    assert!(matches!(run.events.last(), Some(Progress::Error(_))));

    // the workspace does not survive the failed job
    assert!(run.cleanup());
    assert!(run.workspace_removed);
}

#[test]
fn workspace_creation_failure_is_fatal_for_the_job_only() {
    let job = Job::new(
        Kind::Processing,
        Some(remote_video()),
        Parameters::Cut(CutParameters { start: None, end: Some(1_000_000) }),
    );
    let mut run = JobRun::new(job);
    assert_eq!(run.begin(), IntakeStep::CreateWorkspace);
    run.workspace_outcome(Err("permission denied".to_owned()));
    assert_eq!(run.phase, Phase::Terminal);
    // Started never appeared; the one event is the failure
    assert_eq!(run.events.len(), 1);
    match &run.events[0] {
        Progress::Error(m) => assert_eq!(m, "permission denied"),
        other => panic!("expected Error, got {:?}", other),
    }
    assert!(!run.cleanup());
}

#[test]
fn terminal_event_is_always_last() {
    // a full failing run: whatever happened, nothing follows the terminal
    let job = Job::new(
        Kind::Processing,
        Some(remote_video()),
        Parameters::Remux(RemuxParameters { container: VideoContainer::WEBM }),
    );
    let mut run = JobRun::new(job);
    run.begin();
    run.workspace_outcome(Ok(()));
    run.dispatch(&no_probe(), "p");
    run.cleanup();
    let n = run.events.len();
    for (i, ev) in run.events.iter().enumerate() {
        let terminal = matches!(ev, Progress::Done(_) | Progress::Error(_));
        assert_eq!(terminal, i == n - 1);
    }
}

#[test]
fn metadata_job_publishes_response_then_done() {
    let job = Job::new(Kind::Parsing, Some(remote_video()), Parameters::GetStreams);
    let mut run = JobRun::new(job);
    assert_eq!(run.begin(), IntakeStep::Ready);
    assert!(matches!(run.events[0], Progress::Started));
    let streams = vec![ive::media::MediaStream {
        id: 0,
        kind: ive::media::StreamKind::Video,
        duration: 120_000_000,
    }];
    run.streams_result(Ok(streams));
    assert_eq!(run.events.len(), 3);
    assert!(matches!(run.events[1], Progress::Response(_)));
    assert!(matches!(run.events[2], Progress::Done(_)));
    assert!(!run.cleanup());
}

#[test]
fn exec_failure_publishes_the_cause() {
    let job = Job::new(
        Kind::Processing,
        Some(remote_video()),
        Parameters::Cut(CutParameters { start: None, end: Some(1) }),
    );
    let mut run = JobRun::new(job);
    run.begin();
    run.workspace_outcome(Ok(()));
    run.dispatch(&no_probe(), "p").unwrap();
    run.exec_outcome(Err(ive::error::Worker::Ffmpeg(ive::error::Ffmpeg::Exit {
        code: Some(1),
    })));
    match run.events.last() {
        Some(Progress::Error(m)) => {
            assert_eq!(m, "process exited before reporting progress")
        }
        other => panic!("expected Error, got {:?}", other),
    }
}
