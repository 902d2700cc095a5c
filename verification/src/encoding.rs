//! The encoding strategy engine: what command to run for each operation.
//!
//! Every operation maps deterministically to one invocation, except the
//! size-targeted encode, which needs two sequential passes sharing a pass-log
//! prefix.  An invocation is a structured description of one transcode
//! process run; rendering it into an actual command line is presentation and
//! happens outside this crate.
//!
//! Bitrates are carried in thousandths of a kilobit per second, so the
//! two-pass arithmetic is exact.

use vstd::prelude::*;
use vstd::arithmetic::div_mod::{
    lemma_div_is_ordered, lemma_div_is_ordered_by_denominator,
};
use vstd::arithmetic::mul::lemma_mul_upper_bound;
use crate::error::{Encode, EncodeToSize, Worker};
use crate::media::{
    CombineParameters, CombineVideo, CutParameters, EncodeToSizeParameters, MediaStream,
    RemuxParameters, SpeedParameters, StreamKind, Video, VideoContainer, VideoURI,
};

verus! {

/// Where an invocation's primary output goes: the pipe that is streamed to
/// storage, or nowhere (the analysis pass).
#[derive(Clone, Copy, PartialEq, Eq, Structural, Debug)]
pub enum OutputTarget {
    Pipe,
    Discard,
}

/// The muxer the output is written with.
#[derive(Clone, Copy, PartialEq, Eq, Structural, Debug)]
pub enum Muxer {
    Mp4,
    Mp3,
    Matroska,
}

#[derive(Clone, Copy, PartialEq, Eq, Structural, Debug)]
pub enum VideoCodec {
    Copy,
    H264,
}

#[derive(Clone, Copy, PartialEq, Eq, Structural, Debug)]
pub enum AudioCodec {
    Copy,
    Aac,
    Mp3Lame,
}

/// One explicit stream-mapping argument: stream `stream` of input `input`.
#[derive(Clone, Copy, PartialEq, Eq, Structural, Debug)]
pub struct StreamMap {
    pub input: usize,
    pub stream: usize,
}

/// A structured description of one transcode process run.
#[derive(Clone, Debug)]
pub struct Invocation {
    pub inputs: Vec<String>,
    pub output: OutputTarget,
    pub format: Muxer,
    /// `None` leaves the video codec argument out entirely.
    pub video_codec: Option<VideoCodec>,
    /// `None` leaves the audio codec argument out entirely.
    pub audio_codec: Option<AudioCodec>,
    /// The flag that drops audio from the output (the analysis pass).
    pub audio_disabled: bool,
    /// Target video bitrate, in thousandths of a kbit/s; may be negative,
    /// exactly as the arithmetic produces it.
    pub video_bitrate_milli_kbps: Option<i64>,
    /// Target audio bitrate, in kbit/s.
    pub audio_bitrate_kbps: Option<u32>,
    /// 1 or 2 for the two-pass encode.
    pub pass_number: Option<u8>,
    /// The pass-log prefix both passes share, threaded explicitly.
    pub pass_log_prefix: Option<String>,
    /// Trim bounds, in microseconds.
    pub start_trim_us: Option<u64>,
    pub end_trim_us: Option<u64>,
    pub stream_maps: Vec<StreamMap>,
    /// Playback-rate factor in thousandths, driving the timing and tempo
    /// filter pair.
    pub speed_factor_milli: Option<u64>,
}

/// The mathematical shape of an invocation, with sequences for the
/// collection-valued fields.
pub ghost struct GInvocation {
    pub inputs: Seq<Seq<char>>,
    pub output: OutputTarget,
    pub format: Muxer,
    pub video_codec: Option<VideoCodec>,
    pub audio_codec: Option<AudioCodec>,
    pub audio_disabled: bool,
    pub video_bitrate_milli_kbps: Option<i64>,
    pub audio_bitrate_kbps: Option<u32>,
    pub pass_number: Option<u8>,
    pub pass_log_prefix: Option<Seq<char>>,
    pub start_trim_us: Option<u64>,
    pub end_trim_us: Option<u64>,
    pub stream_maps: Seq<StreamMap>,
    pub speed_factor_milli: Option<u64>,
}

impl View for Invocation {
    type V = GInvocation;

    open spec fn view(&self) -> GInvocation {
        GInvocation {
            inputs: self.inputs.deep_view(),
            output: self.output,
            format: self.format,
            video_codec: self.video_codec,
            audio_codec: self.audio_codec,
            audio_disabled: self.audio_disabled,
            video_bitrate_milli_kbps: self.video_bitrate_milli_kbps,
            audio_bitrate_kbps: self.audio_bitrate_kbps,
            pass_number: self.pass_number,
            pass_log_prefix: match self.pass_log_prefix {
                Some(s) => Some(s@),
                None => None,
            },
            start_trim_us: self.start_trim_us,
            end_trim_us: self.end_trim_us,
            stream_maps: self.stream_maps@,
            speed_factor_milli: self.speed_factor_milli,
        }
    }
}

/// The default invocation: one input, both streams copied unchanged into a
/// streamable fragmented MP4 on the pipe.
pub open spec fn spec_base(url: Seq<char>) -> GInvocation {
    GInvocation {
        inputs: seq![url],
        output: OutputTarget::Pipe,
        format: Muxer::Mp4,
        video_codec: Some(VideoCodec::Copy),
        audio_codec: Some(AudioCodec::Copy),
        audio_disabled: false,
        video_bitrate_milli_kbps: None,
        audio_bitrate_kbps: None,
        pass_number: None,
        pass_log_prefix: None,
        start_trim_us: None,
        end_trim_us: None,
        stream_maps: Seq::<StreamMap>::empty(),
        speed_factor_milli: None,
    }
}

/// The audio-only default: re-encode to MP3 on the pipe.
pub open spec fn spec_base_audio(url: Seq<char>) -> GInvocation {
    GInvocation {
        format: Muxer::Mp3,
        video_codec: None,
        audio_codec: Some(AudioCodec::Mp3Lame),
        ..spec_base(url)
    }
}

impl Invocation {
    pub fn base(url: &str) -> (r: Invocation)
        ensures
            r@ == spec_base(url@),
    {
        let mut inputs: Vec<String> = Vec::new();
        inputs.push(url.to_owned());
        let r = Invocation {
            inputs,
            output: OutputTarget::Pipe,
            format: Muxer::Mp4,
            video_codec: Some(VideoCodec::Copy),
            audio_codec: Some(AudioCodec::Copy),
            audio_disabled: false,
            video_bitrate_milli_kbps: None,
            audio_bitrate_kbps: None,
            pass_number: None,
            pass_log_prefix: None,
            start_trim_us: None,
            end_trim_us: None,
            stream_maps: Vec::new(),
            speed_factor_milli: None,
        };
        proof {
            assert(r@.inputs =~~= seq![url@]);
            assert(r@.stream_maps =~= Seq::<StreamMap>::empty());
            assert(r@ == spec_base(url@));
        }
        r
    }

    pub fn base_audio(url: &str) -> (r: Invocation)
        ensures
            r@ == spec_base_audio(url@),
    {
        let mut r = Invocation::base(url);
        r.format = Muxer::Mp3;
        r.video_codec = None;
        r.audio_codec = Some(AudioCodec::Mp3Lame);
        r
    }
}

/// The two starting points every operation builds on.
pub trait FfmpegBuilderDefault {
    /// Copy both streams unchanged into a streamable MP4 on the pipe.
    fn default(url: &str) -> (r: Invocation)
        ensures
            r@ == spec_base(url@),
    ;

    /// Re-encode the audio alone into an MP3 on the pipe.
    fn default_audio(url: &str) -> (r: Invocation)
        ensures
            r@ == spec_base_audio(url@),
    ;
}

impl FfmpegBuilderDefault for Invocation {
    fn default(url: &str) -> (r: Invocation) {
        Invocation::base(url)
    }

    fn default_audio(url: &str) -> (r: Invocation) {
        Invocation::base_audio(url)
    }
}

/// The string a source is addressed by, wherever it lives.
pub open spec fn spec_source_url(v: Video) -> Seq<char> {
    match v.url {
        VideoURI::Path(p) => p@,
        VideoURI::Url(u) => u@,
    }
}

fn source_url(video: &Video) -> (r: &String)
    ensures
        r@ == spec_source_url(*video),
{
    match &video.url {
        VideoURI::Path(p) => p,
        VideoURI::Url(u) => u,
    }
}

/// A cut: the default invocation plus the requested trim bounds.
pub open spec fn spec_cut(url: Seq<char>, p: CutParameters) -> GInvocation {
    GInvocation { start_trim_us: p.start, end_trim_us: p.end, ..spec_base(url) }
}

/// Builds the trim invocation; a missing bound adds no argument.
pub fn cut(video: &Video, params: &CutParameters) -> (r: Invocation)
    ensures
        r@ == spec_cut(spec_source_url(*video), *params),
{
    let mut r = Invocation::base(source_url(video).as_str());
    r.start_trim_us = params.start;
    r.end_trim_us = params.end;
    r
}

/// The muxer for a container a remux can target.
pub open spec fn spec_muxer(c: VideoContainer) -> Muxer
    recommends
        c == VideoContainer::MP4 || c == VideoContainer::MKV,
{
    match c {
        VideoContainer::MP4 => Muxer::Mp4,
        VideoContainer::MKV => Muxer::Matroska,
        _ => Muxer::Mp4,
    }
}

/// A remux: the default invocation with the requested muxer.
pub open spec fn spec_remux(url: Seq<char>, c: VideoContainer) -> GInvocation {
    GInvocation { format: spec_muxer(c), ..spec_base(url) }
}

/// Builds the repackaging invocation.  A container the remux path does not
/// support is rejected as a typed input error, never attempted.
pub fn remux(video: &Video, params: &RemuxParameters) -> (r: Result<Invocation, Worker>)
    ensures
        match r {
            Ok(inv) => {
                &&& params.container == VideoContainer::MP4 || params.container
                    == VideoContainer::MKV
                &&& inv@ == spec_remux(spec_source_url(*video), params.container)
            },
            Err(e) => {
                &&& params.container == VideoContainer::MP3 || params.container
                    == VideoContainer::WEBM
                &&& e == Worker::UnsupportedContainer(params.container)
            },
        },
{
    let format = match params.container {
        VideoContainer::MP4 => Muxer::Mp4,
        VideoContainer::MKV => Muxer::Matroska,
        VideoContainer::MP3 => {
            return Err(Worker::UnsupportedContainer(VideoContainer::MP3));
        },
        VideoContainer::WEBM => {
            return Err(Worker::UnsupportedContainer(VideoContainer::WEBM));
        },
    };
    let mut r = Invocation::base(source_url(video).as_str());
    r.format = format;
    Ok(r)
}

/// A speed change: re-encode with the playback-rate filter pair.  The factor
/// drives video timing by its inverse and audio tempo directly.
pub open spec fn spec_speed(url: Seq<char>, factor_milli: u64) -> GInvocation {
    GInvocation {
        video_codec: Some(VideoCodec::H264),
        audio_codec: Some(AudioCodec::Aac),
        speed_factor_milli: Some(factor_milli),
        ..spec_base(url)
    }
}

pub fn speed(video: &Video, params: &SpeedParameters) -> (r: Invocation)
    ensures
        r@ == spec_speed(spec_source_url(*video), params.speed_factor_milli),
{
    let mut r = Invocation::base(source_url(video).as_str());
    r.video_codec = Some(VideoCodec::H264);
    r.audio_codec = Some(AudioCodec::Aac);
    r.speed_factor_milli = Some(params.speed_factor_milli);
    r
}

/// The inputs of a combine, in selection order.
pub open spec fn spec_combine_inputs(videos: Seq<CombineVideo>) -> Seq<Seq<char>> {
    videos.map_values(|v: CombineVideo| v.url@)
}

/// The mapping arguments one source contributes: each of its selected
/// streams, against its input position.
pub open spec fn spec_maps_for(i: int, v: CombineVideo) -> Seq<StreamMap> {
    v.selected_streams@.map_values(|s: usize| StreamMap { input: i as usize, stream: s })
}

/// All mapping arguments of a combine, source by source, in order.
pub open spec fn spec_combine_maps(videos: Seq<CombineVideo>) -> Seq<StreamMap>
    decreases videos.len(),
{
    if videos.len() == 0 {
        Seq::<StreamMap>::empty()
    } else {
        spec_combine_maps(videos.drop_last()) + spec_maps_for(
            videos.len() - 1,
            videos.last(),
        )
    }
}

/// A combine: the default of the inferred output kind, with the selected
/// sources as inputs and one mapping argument per selected stream.
pub open spec fn spec_combine(params: CombineParameters) -> GInvocation
    recommends
        params.output_kind != StreamKind::Unknown,
{
    let start = if params.output_kind == StreamKind::Audio {
        spec_base_audio(Seq::<char>::empty())
    } else {
        spec_base(Seq::<char>::empty())
    };
    GInvocation {
        inputs: spec_combine_inputs(params.videos@),
        stream_maps: spec_combine_maps(params.videos@),
        ..start
    }
}

/// Builds the combining invocation.  An `Unknown` output kind cannot be
/// muxed and is rejected as a typed input error.
pub fn combine(video: &Video, params: &CombineParameters) -> (r: Result<Invocation, Worker>)
    ensures
        match r {
            Ok(inv) => params.output_kind != StreamKind::Unknown && inv@ == spec_combine(
                *params,
            ),
            Err(e) => params.output_kind == StreamKind::Unknown && e
                == Worker::UnsupportedOutputKind,
        },
{
    let url = source_url(video);
    let mut r = match params.output_kind {
        StreamKind::Video => Invocation::base(url.as_str()),
        StreamKind::Audio => Invocation::base_audio(url.as_str()),
        StreamKind::Unknown => {
            return Err(Worker::UnsupportedOutputKind);
        },
    };
    let mut inputs: Vec<String> = Vec::new();
    let mut maps: Vec<StreamMap> = Vec::new();
    let ghost videos = params.videos@;
    let mut i: usize = 0;
    proof {
        assert(inputs.deep_view() =~~= spec_combine_inputs(videos.take(0)));
        assert(maps@ =~= spec_combine_maps(videos.take(0)));
    }
    while i < params.videos.len()
        invariant
            0 <= i <= videos.len(),
            videos == params.videos@,
            inputs.deep_view() == spec_combine_inputs(videos.take(i as int)),
            maps@ == spec_combine_maps(videos.take(i as int)),
        decreases videos.len() - i,
    {
        let v: &CombineVideo = &params.videos[i];
        let ghost old_inputs = inputs.deep_view();
        inputs.push(v.url.clone());
        proof {
            assert(videos.take(i + 1).drop_last() =~= videos.take(i as int));
            assert(videos.take(i + 1).last() == videos[i as int]);
            assert(old_inputs.len() == i as int);
            assert(inputs@.len() == i + 1);
            assert forall|k: int| 0 <= k < i + 1 implies inputs.deep_view()[k]
                == spec_combine_inputs(videos.take(i + 1))[k] by {
                assert(spec_combine_inputs(videos.take(i + 1))[k] == videos.take(i + 1)[k].url@);
                if k < i {
                    assert(inputs.deep_view()[k] == old_inputs[k]);
                    assert(old_inputs[k] == videos.take(i as int)[k].url@);
                } else {
                    assert(inputs@[k] == v.url);
                }
            }
            assert(inputs.deep_view() =~~= spec_combine_inputs(videos.take(i + 1)));
        }
        let ghost base_maps = maps@;
        let mut j: usize = 0;
        proof {
            assert(spec_maps_for(i as int, videos[i as int]).take(0)
                =~= Seq::<StreamMap>::empty());
            assert(maps@ =~= base_maps + spec_maps_for(i as int, videos[i as int]).take(0));
        }
        while j < v.selected_streams.len()
            invariant
                0 <= j <= v.selected_streams@.len(),
                videos == params.videos@,
                0 <= i < videos.len(),
                v == videos[i as int],
                maps@ == base_maps + spec_maps_for(i as int, videos[i as int]).take(j as int),
            decreases v.selected_streams@.len() - j,
        {
            let s: usize = v.selected_streams[j];
            maps.push(StreamMap { input: i, stream: s });
            proof {
                assert(spec_maps_for(i as int, videos[i as int])[j as int] == (StreamMap {
                    input: i,
                    stream: s,
                }));
                assert(spec_maps_for(i as int, videos[i as int]).take(j + 1)
                    =~= spec_maps_for(i as int, videos[i as int]).take(j as int).push(
                    StreamMap { input: i, stream: s },
                ));
                assert(maps@ =~= base_maps + spec_maps_for(i as int, videos[i as int]).take(
                    j + 1,
                ));
            }
            j = j + 1;
        }
        proof {
            assert(spec_maps_for(i as int, videos[i as int]).take(
                v.selected_streams@.len() as int,
            ) =~= spec_maps_for(i as int, videos[i as int]));
            assert(maps@ =~= spec_combine_maps(videos.take(i as int)) + spec_maps_for(
                i as int,
                videos[i as int],
            ));
            assert(spec_combine_maps(videos.take(i + 1)) == spec_combine_maps(
                videos.take(i as int),
            ) + spec_maps_for(i as int, videos[i as int]));
        }
        i = i + 1;
    }
    r.inputs = inputs;
    r.stream_maps = maps;
    proof {
        assert(videos.take(videos.len() as int) =~= videos);
    }
    Ok(r)
}

/// The measurements a size-targeted encode needs from its source.
#[derive(Clone, Copy, PartialEq, Eq, Structural, Debug)]
pub struct MediaInfo {
    /// Source duration, in microseconds.
    pub duration_us: u64,
    /// Measured audio bitrate, in kbit/s.
    pub audio_bitrate_kbps: u32,
}

/// Whether the audio track alone already overflows the requested size:
/// `audio_bitrate * duration / 8192 MiB > target / 2^20 MiB`, cleared of
/// denominators.
pub open spec fn spec_audio_too_large(
    target_size: int,
    duration_us: int,
    audio_kbps: int,
) -> bool {
    audio_kbps * duration_us * 128 > target_size * 1000000
}

/// The target video bitrate in thousandths of a kbit/s:
/// `(target/2^20 MiB * 8192) / (1.048576 * duration_s) - audio_kbps`,
/// cleared of denominators (`1.048576 == 2^20 / 10^6`, `0x8000000 == 2^27`).
pub open spec fn spec_target_video_bitrate_milli(
    target_size: int,
    duration_us: int,
    audio_kbps: int,
) -> int {
    target_size * 0x38d7ea4c68000 / (0x8000000 * duration_us) - audio_kbps * 1000
}

/// The bitrate-targeting arithmetic of the size-constrained encode.  Fails
/// with `TargetSizeTooSmall` — before anything is spawned — exactly when the
/// audio track alone cannot fit; otherwise returns the exact target video
/// bitrate, negative if the formula says so.
pub fn compute_target_video_bitrate(
    target_size: u32,
    duration_us: u64,
    audio_bitrate_kbps: u32,
) -> (r: Result<i64, EncodeToSize>)
    requires
        duration_us > 0,
    ensures
        match r {
            Ok(v) => {
                &&& !spec_audio_too_large(
                    target_size as int,
                    duration_us as int,
                    audio_bitrate_kbps as int,
                )
                &&& v == spec_target_video_bitrate_milli(
                    target_size as int,
                    duration_us as int,
                    audio_bitrate_kbps as int,
                )
            },
            Err(e) => {
                &&& spec_audio_too_large(
                    target_size as int,
                    duration_us as int,
                    audio_bitrate_kbps as int,
                )
                &&& e == EncodeToSize::TargetSizeTooSmall
            },
        },
{
    proof {
        lemma_mul_upper_bound(
            audio_bitrate_kbps as int,
            0xffffffff,
            duration_us as int,
            0xffffffffffffffff,
        );
    }
    let audio_load: u128 = audio_bitrate_kbps as u128 * duration_us as u128 * 128;
    let budget: u128 = target_size as u128 * 1000000;
    if audio_load > budget {
        return Err(EncodeToSize::TargetSizeTooSmall);
    }
    let num: u128 = target_size as u128 * 1000000000000000;
    let den: u128 = 134217728 * duration_us as u128;
    let gross: u128 = num / den;
    proof {
        assert(den >= 134217728);
        assert(num <= 0xffffffffu128 * 1000000000000000);
        lemma_div_is_ordered_by_denominator(num as int, 134217728, den as int);
        lemma_div_is_ordered(num as int, 0xffffffffint * 1000000000000000, 134217728);
        assert(0xffffffffint * 1000000000000000 / 134217728 < 0x7fffffffffffffffint);
    }
    let gross_i: i64 = gross as i64;
    let audio_milli: i64 = (audio_bitrate_kbps as i64) * 1000;
    Ok(gross_i - audio_milli)
}

/// The first, analysis pass: video only, output discarded, building the
/// bitrate-distribution log under the shared prefix.
pub open spec fn spec_pass1(
    url: Seq<char>,
    vb_milli: i64,
    pass_log_prefix: Seq<char>,
) -> GInvocation {
    GInvocation {
        output: OutputTarget::Discard,
        video_codec: Some(VideoCodec::H264),
        audio_codec: None,
        audio_disabled: true,
        video_bitrate_milli_kbps: Some(vb_milli),
        pass_number: Some(1),
        pass_log_prefix: Some(pass_log_prefix),
        ..spec_base(url)
    }
}

/// The second pass: re-encode against the log, with the audio track at its
/// measured rate.
pub open spec fn spec_pass2(
    url: Seq<char>,
    vb_milli: i64,
    audio_kbps: u32,
    pass_log_prefix: Seq<char>,
) -> GInvocation {
    GInvocation {
        video_codec: Some(VideoCodec::H264),
        audio_codec: Some(AudioCodec::Aac),
        audio_bitrate_kbps: Some(audio_kbps),
        video_bitrate_milli_kbps: Some(vb_milli),
        pass_number: Some(2),
        pass_log_prefix: Some(pass_log_prefix),
        ..spec_base(url)
    }
}

/// Plans the size-targeted encode: two passes over a remote source, sharing
/// one pass-log prefix.  A local path is rejected (only a streamable source
/// is supported), and a target too small for the audio alone fails before
/// anything would be spawned.
pub fn encode_to_size(
    video: &Video,
    params: &EncodeToSizeParameters,
    info: &MediaInfo,
    pass_log_prefix: &str,
) -> (r: Result<Vec<Invocation>, Worker>)
    requires
        info.duration_us > 0,
    ensures
        match r {
            Ok(invs) => {
                &&& video.url is Url
                &&& !spec_audio_too_large(
                    params.target_size as int,
                    info.duration_us as int,
                    info.audio_bitrate_kbps as int,
                )
                &&& invs@.len() == 2
                &&& invs@[0]@ == spec_pass1(
                    spec_source_url(*video),
                    spec_target_video_bitrate_milli(
                        params.target_size as int,
                        info.duration_us as int,
                        info.audio_bitrate_kbps as int,
                    ) as i64,
                    pass_log_prefix@,
                )
                &&& invs@[1]@ == spec_pass2(
                    spec_source_url(*video),
                    spec_target_video_bitrate_milli(
                        params.target_size as int,
                        info.duration_us as int,
                        info.audio_bitrate_kbps as int,
                    ) as i64,
                    info.audio_bitrate_kbps,
                    pass_log_prefix@,
                )
            },
            Err(e) => {
                ||| {
                    &&& video.url is Path
                    &&& e == Worker::Encode(Encode::EncodeToSize(EncodeToSize::UnsupportedURI))
                }
                ||| {
                    &&& video.url is Url
                    &&& spec_audio_too_large(
                        params.target_size as int,
                        info.duration_us as int,
                        info.audio_bitrate_kbps as int,
                    )
                    &&& e == Worker::Encode(
                        Encode::EncodeToSize(EncodeToSize::TargetSizeTooSmall),
                    )
                }
            },
        },
{
    let url: &String = match &video.url {
        VideoURI::Url(u) => u,
        VideoURI::Path(_) => {
            return Err(Worker::Encode(Encode::EncodeToSize(EncodeToSize::UnsupportedURI)));
        },
    };
    let vb: i64 = match compute_target_video_bitrate(
        params.target_size,
        info.duration_us,
        info.audio_bitrate_kbps,
    ) {
        Ok(v) => v,
        Err(e) => {
            return Err(Worker::Encode(Encode::EncodeToSize(e)));
        },
    };
    let mut pass1 = Invocation::base(url.as_str());
    pass1.output = OutputTarget::Discard;
    pass1.video_codec = Some(VideoCodec::H264);
    pass1.audio_codec = None;
    pass1.audio_disabled = true;
    pass1.video_bitrate_milli_kbps = Some(vb);
    pass1.pass_number = Some(1);
    pass1.pass_log_prefix = Some(pass_log_prefix.to_owned());
    let mut pass2 = Invocation::base(url.as_str());
    pass2.video_codec = Some(VideoCodec::H264);
    pass2.audio_codec = Some(AudioCodec::Aac);
    pass2.audio_bitrate_kbps = Some(info.audio_bitrate_kbps);
    pass2.video_bitrate_milli_kbps = Some(vb);
    pass2.pass_number = Some(2);
    pass2.pass_log_prefix = Some(pass_log_prefix.to_owned());
    let mut invs: Vec<Invocation> = Vec::new();
    invs.push(pass1);
    invs.push(pass2);
    Ok(invs)
}

/// Stream introspection accepts only a remote source; the probe's streams
/// pass through unchanged.
pub fn get_streams(video: &Video, probe: Vec<MediaStream>) -> (r: Result<
    Vec<MediaStream>,
    Worker,
>)
    ensures
        match r {
            Ok(s) => video.url is Url && s == probe,
            Err(e) => video.url is Path && e == Worker::Encode(
                Encode::EncodeToSize(EncodeToSize::UnsupportedURI),
            ),
        },
{
    match &video.url {
        VideoURI::Url(_) => Ok(probe),
        VideoURI::Path(_) => Err(Worker::Encode(Encode::EncodeToSize(
            EncodeToSize::UnsupportedURI,
        ))),
    }
}

} // verus!
