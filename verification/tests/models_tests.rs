//! The data model carried through the pipeline.

use ive::error::{Encode, EncodeToSize, Worker};
use ive::media::{Video, VideoContainer, VideoURI};

#[test]
fn it_works() {}

#[test]
fn video_new_defaults_missing_id() {
    let v = Video::new(
        VideoURI::Url("https://example.net/v.mp4".to_owned()),
        None,
        "v.mp4".to_owned(),
    );
    assert_eq!(v.id, "");
    let w = Video::new(
        VideoURI::Path("/tmp/v.mp4".to_owned()),
        Some("abc".to_owned()),
        "v.mp4".to_owned(),
    );
    assert_eq!(w.id, "abc");
    assert_eq!(w.filename, "v.mp4");
}

#[test]
fn container_extensions() {
    assert_eq!(VideoContainer::MKV.get_file_extension(), "mkv");
    assert_eq!(VideoContainer::MP4.get_file_extension(), "mp4");
    assert_eq!(VideoContainer::MP3.get_file_extension(), "mp3");
    assert_eq!(VideoContainer::WEBM.get_file_extension(), "webm");
}

#[test]
fn worker_error_messages() {
    assert_eq!(
        Worker::Encode(Encode::EncodeToSize(EncodeToSize::TargetSizeTooSmall)).message(),
        "Encode error: Target size too small"
    );
    assert_eq!(
        Worker::Encode(Encode::EncodeToSize(EncodeToSize::UnsupportedURI)).message(),
        "Encode error: Unsupported URL"
    );
    assert_eq!(Worker::NoVideo.message(), "job has no video to process");
    assert_eq!(
        Worker::UnsupportedContainer(VideoContainer::WEBM).message(),
        "unsupported container: webm"
    );
}
