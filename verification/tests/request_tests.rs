//! Producer-side parameter construction from typed text and selections.

use ive::error::{Edit, InvalidInput};
use ive::job::{Parameters, Progress};
use ive::media::StreamKind;
use ive::request::{
    SelectedStream, WaitStep, attachment_check, combine_request, cut_request,
    encode_to_size_request, fits_send_limit, speed_request, wait_step,
};

#[test]
fn size_request_converts_mebibytes() {
    match encode_to_size_request(b"7.5") {
        Ok(Parameters::EncodeToSize(p)) => assert_eq!(p.target_size, 7_864_320),
        other => panic!("expected size parameters, got {:?}", other),
    }
    match encode_to_size_request(b"45") {
        Ok(Parameters::EncodeToSize(p)) => assert_eq!(p.target_size, 45 << 20),
        other => panic!("expected size parameters, got {:?}", other),
    }
}

#[test]
fn size_request_rejects_cap_and_garbage() {
    assert!(matches!(encode_to_size_request(b"45.001"), Err(InvalidInput::Error)));
    assert!(matches!(encode_to_size_request(b"many"), Err(InvalidInput::StringParse)));
    assert!(matches!(encode_to_size_request(b""), Err(InvalidInput::StringParse)));
}

#[test]
fn cut_request_orders_bounds() {
    match cut_request(b"1.5", b"4") {
        Ok(Parameters::Cut(c)) => {
            assert_eq!(c.start, Some(1_500_000));
            assert_eq!(c.end, Some(4_000_000));
        }
        other => panic!("expected cut parameters, got {:?}", other),
    }
    assert!(matches!(cut_request(b"0", b"0"), Err(InvalidInput::Error)));
    assert!(matches!(cut_request(b"5", b"2"), Err(InvalidInput::Error)));
    assert!(matches!(cut_request(b"x", b"2"), Err(InvalidInput::StringParse)));
}

#[test]
fn speed_request_prefers_typed_duration() {
    // a 60 s source squeezed into 40 s runs at 1.5x
    match speed_request(60_000_000, b"40", b"") {
        Ok(Parameters::Speed(p)) => assert_eq!(p.speed_factor_milli, 1500),
        other => panic!("expected speed parameters, got {:?}", other),
    }
    // zero duration falls back to the typed factor, comma tolerated
    match speed_request(60_000_000, b"0", b"1,5") {
        Ok(Parameters::Speed(p)) => assert_eq!(p.speed_factor_milli, 1500),
        other => panic!("expected speed parameters, got {:?}", other),
    }
    assert!(matches!(speed_request(60_000_000, b"0", b"quick"), Err(InvalidInput::StringParse)));
}

#[test]
fn exactly_one_attachment() {
    assert!(attachment_check(1).is_ok());
    assert!(matches!(attachment_check(0), Err(Edit::WrongFileNumber(0))));
    assert!(matches!(attachment_check(3), Err(Edit::WrongFileNumber(3))));
}

#[test]
fn send_limit_is_25_mebibytes() {
    assert!(fits_send_limit(25 << 20));
    assert!(!fits_send_limit((25 << 20) + 1));
}

#[test]
fn wait_ends_only_on_terminal_events() {
    assert!(matches!(wait_step(Progress::Started), WaitStep::Acknowledge));
    assert!(matches!(wait_step(Progress::Progress(500)), WaitStep::KeepWaiting));
    match wait_step(Progress::Done("mp4".to_owned())) {
        WaitStep::Finished(ext) => assert_eq!(ext, "mp4"),
        other => panic!("expected Finished, got {:?}", other),
    }
    match wait_step(Progress::Error("boom".to_owned())) {
        WaitStep::Failed(m) => assert_eq!(m, "boom"),
        other => panic!("expected Failed, got {:?}", other),
    }
}

fn sel(url: &str, id: usize, kind: StreamKind, kept: bool) -> SelectedStream {
    SelectedStream { url: url.to_owned(), stream_id: id, kind, kept }
}

#[test]
fn combine_request_groups_by_source_in_order() {
    let streams = vec![
        sel("https://example.net/a.mp4", 0, StreamKind::Video, true),
        sel("https://example.net/b.mp4", 0, StreamKind::Audio, true),
        sel("https://example.net/a.mp4", 1, StreamKind::Audio, true),
        sel("https://example.net/a.mp4", 2, StreamKind::Audio, false),
    ];
    match combine_request(&streams) {
        Ok(Parameters::Combine(cp)) => {
            // video wins over audio
            assert!(matches!(cp.output_kind, StreamKind::Video));
            assert_eq!(cp.videos.len(), 2);
            assert_eq!(cp.videos[0].url, "https://example.net/a.mp4");
            assert_eq!(cp.videos[0].selected_streams, vec![0, 1]);
            assert_eq!(cp.videos[1].url, "https://example.net/b.mp4");
            assert_eq!(cp.videos[1].selected_streams, vec![0]);
        }
        other => panic!("expected combine parameters, got {:?}", other),
    }
}

#[test]
fn combine_request_audio_only_and_empty() {
    let audio = vec![sel("https://example.net/a.mp4", 0, StreamKind::Audio, true)];
    match combine_request(&audio) {
        Ok(Parameters::Combine(cp)) => assert!(matches!(cp.output_kind, StreamKind::Audio)),
        other => panic!("expected combine parameters, got {:?}", other),
    }
    // nothing kept, or only unknown streams: no output kind
    let nothing = vec![sel("https://example.net/a.mp4", 0, StreamKind::Video, false)];
    assert!(matches!(combine_request(&nothing), Err(InvalidInput::Error)));
    let unknown = vec![sel("https://example.net/a.mp4", 0, StreamKind::Unknown, true)];
    assert!(matches!(combine_request(&unknown), Err(InvalidInput::Error)));
}
