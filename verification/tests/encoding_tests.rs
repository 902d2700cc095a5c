//! The strategy engine: bitrate arithmetic and the invocation each
//! operation maps to.

use ive::encoding::{
    AudioCodec, FfmpegBuilderDefault, Invocation, MediaInfo, Muxer, OutputTarget, VideoCodec,
    compute_target_video_bitrate, cut, combine, encode_to_size, get_streams, remux, speed,
};
use ive::error::{Encode, EncodeToSize, Worker};
use ive::media::{
    CombineParameters, CombineVideo, CutParameters, EncodeToSizeParameters, RemuxParameters,
    SpeedParameters, StreamKind, Video, VideoURI,
};

fn remote_video() -> Video {
    Video::new(
        VideoURI::Url("https://example.net/source.mp4".to_owned()),
        Some("job-1".to_owned()),
        "source.mp4".to_owned(),
    )
}

fn local_video() -> Video {
    Video::new(
        VideoURI::Path("/tmp/source.mp4".to_owned()),
        Some("job-1".to_owned()),
        "source.mp4".to_owned(),
    )
}

#[test]
fn default_builders_copy_or_reencode_audio() {
    let b = <Invocation as FfmpegBuilderDefault>::default("https://example.net/v.mp4");
    assert_eq!(b.inputs, vec!["https://example.net/v.mp4".to_owned()]);
    assert_eq!(b.output, OutputTarget::Pipe);
    assert_eq!(b.format, Muxer::Mp4);
    assert_eq!(b.video_codec, Some(VideoCodec::Copy));
    assert_eq!(b.audio_codec, Some(AudioCodec::Copy));

    let a = <Invocation as FfmpegBuilderDefault>::default_audio("https://example.net/v.mp4");
    assert_eq!(a.format, Muxer::Mp3);
    assert_eq!(a.video_codec, None);
    assert_eq!(a.audio_codec, Some(AudioCodec::Mp3Lame));
}

#[test]
fn bitrate_formula_exact_value() {
    // 8 MiB over 60 s with 128 kbit/s audio:
    // (8 MiB * 8192) / (1.048576 * 60) - 128 = 913.666... kbit/s
    let r = compute_target_video_bitrate(8 * (1 << 20), 60_000_000, 128);
    assert_eq!(r.unwrap(), 913_666);
}

#[test]
fn bitrate_fails_when_audio_alone_overflows_target() {
    // 128 kbit/s * 60 s is about 937 KiB: a 100-byte target cannot hold it
    let r = compute_target_video_bitrate(100, 60_000_000, 128);
    assert!(matches!(r, Err(EncodeToSize::TargetSizeTooSmall)));
}

#[test]
fn encode_to_size_plans_two_passes_with_shared_log() {
    let video = remote_video();
    let params = EncodeToSizeParameters { target_size: 8 * (1 << 20) };
    let info = MediaInfo { duration_us: 60_000_000, audio_bitrate_kbps: 128 };
    let invs = encode_to_size(&video, &params, &info, "tmpfs/job-1/pass").unwrap();
    assert_eq!(invs.len(), 2);

    let pass1 = &invs[0];
    assert_eq!(pass1.output, OutputTarget::Discard);
    assert_eq!(pass1.pass_number, Some(1));
    assert!(pass1.audio_disabled);
    assert_eq!(pass1.audio_codec, None);
    assert_eq!(pass1.video_codec, Some(VideoCodec::H264));
    assert_eq!(pass1.video_bitrate_milli_kbps, Some(913_666));

    let pass2 = &invs[1];
    assert_eq!(pass2.output, OutputTarget::Pipe);
    assert_eq!(pass2.pass_number, Some(2));
    assert_eq!(pass2.audio_codec, Some(AudioCodec::Aac));
    assert_eq!(pass2.audio_bitrate_kbps, Some(128));
    assert_eq!(pass2.video_bitrate_milli_kbps, Some(913_666));

    assert_eq!(pass1.pass_log_prefix, pass2.pass_log_prefix);
    assert_eq!(pass1.pass_log_prefix.as_deref(), Some("tmpfs/job-1/pass"));
}

#[test]
fn encode_to_size_rejects_local_source() {
    let video = local_video();
    let params = EncodeToSizeParameters { target_size: 8 * (1 << 20) };
    let info = MediaInfo { duration_us: 60_000_000, audio_bitrate_kbps: 128 };
    let r = encode_to_size(&video, &params, &info, "tmpfs/job-1/pass");
    assert!(matches!(
        r,
        Err(Worker::Encode(Encode::EncodeToSize(EncodeToSize::UnsupportedURI)))
    ));
}

#[test]
fn encode_to_size_too_small_plans_nothing() {
    let video = remote_video();
    let params = EncodeToSizeParameters { target_size: 100 };
    let info = MediaInfo { duration_us: 60_000_000, audio_bitrate_kbps: 128 };
    let r = encode_to_size(&video, &params, &info, "tmpfs/job-1/pass");
    assert!(matches!(
        r,
        Err(Worker::Encode(Encode::EncodeToSize(EncodeToSize::TargetSizeTooSmall)))
    ));
}

#[test]
fn cut_sets_only_given_bounds() {
    let video = remote_video();
    let inv = cut(&video, &CutParameters { start: Some(5_000_000), end: None });
    assert_eq!(inv.start_trim_us, Some(5_000_000));
    assert_eq!(inv.end_trim_us, None);
    assert_eq!(inv.inputs, vec!["https://example.net/source.mp4".to_owned()]);
    assert_eq!(inv.video_codec, Some(VideoCodec::Copy));
    assert_eq!(inv.audio_codec, Some(AudioCodec::Copy));
}

#[test]
fn remux_maps_containers() {
    let video = local_video();
    let mkv = remux(&video, &RemuxParameters { container: ive::media::VideoContainer::MKV });
    assert_eq!(mkv.unwrap().format, Muxer::Matroska);
    let mp4 = remux(&video, &RemuxParameters { container: ive::media::VideoContainer::MP4 });
    assert_eq!(mp4.unwrap().format, Muxer::Mp4);
    let mp3 = remux(&video, &RemuxParameters { container: ive::media::VideoContainer::MP3 });
    assert!(matches!(mp3, Err(Worker::UnsupportedContainer(_))));
    let webm = remux(&video, &RemuxParameters { container: ive::media::VideoContainer::WEBM });
    assert!(matches!(webm, Err(Worker::UnsupportedContainer(_))));
}

#[test]
fn speed_carries_filter_factor() {
    let video = remote_video();
    let inv = speed(&video, &SpeedParameters { speed_factor_milli: 1500 });
    assert_eq!(inv.speed_factor_milli, Some(1500));
    assert_eq!(inv.video_codec, Some(VideoCodec::H264));
    assert_eq!(inv.audio_codec, Some(AudioCodec::Aac));
}

#[test]
fn combine_maps_every_selected_stream() {
    let video = remote_video();
    let params = CombineParameters {
        videos: vec![
            CombineVideo { url: "https://example.net/a.mp4".to_owned(), selected_streams: vec![0, 1] },
            CombineVideo { url: "https://example.net/b.mp4".to_owned(), selected_streams: vec![1] },
        ],
        output_kind: StreamKind::Video,
    };
    let inv = combine(&video, &params).unwrap();
    assert_eq!(
        inv.inputs,
        vec!["https://example.net/a.mp4".to_owned(), "https://example.net/b.mp4".to_owned()]
    );
    assert_eq!(inv.stream_maps.len(), 3);
    assert_eq!((inv.stream_maps[0].input, inv.stream_maps[0].stream), (0, 0));
    assert_eq!((inv.stream_maps[1].input, inv.stream_maps[1].stream), (0, 1));
    assert_eq!((inv.stream_maps[2].input, inv.stream_maps[2].stream), (1, 1));
    assert_eq!(inv.format, Muxer::Mp4);

    let audio = CombineParameters { videos: vec![], output_kind: StreamKind::Audio };
    let inv = combine(&video, &audio).unwrap();
    assert_eq!(inv.format, Muxer::Mp3);
    assert_eq!(inv.audio_codec, Some(AudioCodec::Mp3Lame));

    let unknown = CombineParameters { videos: vec![], output_kind: StreamKind::Unknown };
    assert!(matches!(combine(&video, &unknown), Err(Worker::UnsupportedOutputKind)));
}

#[test]
fn get_streams_needs_remote_source() {
    let streams = vec![ive::media::MediaStream { id: 0, kind: StreamKind::Video, duration: 1 }];
    let ok = get_streams(&remote_video(), streams.clone());
    assert_eq!(ok.unwrap().len(), 1);
    let err = get_streams(&local_video(), streams);
    assert!(matches!(
        err,
        Err(Worker::Encode(Encode::EncodeToSize(EncodeToSize::UnsupportedURI)))
    ));
}
