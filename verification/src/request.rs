//! Producer-side construction of job parameters from what a user typed or
//! selected: the computing half of each request flow.  The prompts, modals
//! and waits around these calls are a chat-platform concern and live outside
//! this crate; they hand these functions plain text and stream selections.

use vstd::prelude::*;
use crate::error::{Edit, InvalidInput};
use crate::job::{Parameters, Progress};
use crate::media::{
    CombineParameters, CombineVideo, CutParameters, EncodeToSizeParameters, SpeedParameters,
    StreamKind,
};
use crate::text::{parse_milli, spec_parse_milli};
use crate::timestamp;

verus! {

/// The sending cap on a requested size, in thousandths of a mebibyte.
pub const MAX_TARGET_MILLI_MIB: u64 = 45000;

/// The cap on a finished file sent back to the requester, in bytes (25 MiB).
pub const SEND_LIMIT_BYTES: u64 = 26214400;

/// The edit command works on exactly one attached file; any other count is
/// rejected with the count it saw.
pub fn attachment_check(count: u32) -> (r: Result<(), Edit>)
    ensures
        match r {
            Ok(_) => count == 1,
            Err(e) => count != 1 && e == Edit::WrongFileNumber(count),
        },
{
    if count == 1 {
        Ok(())
    } else {
        Err(Edit::WrongFileNumber(count))
    }
}

/// Whether a finished file fits under the sending cap.
pub fn fits_send_limit(filesize: u64) -> (r: bool)
    ensures
        r == (filesize <= SEND_LIMIT_BYTES),
{
    filesize <= SEND_LIMIT_BYTES
}

/// What the producer's wait does with one event from the job's channel.
#[derive(Clone, Debug)]
pub enum WaitStep {
    /// The job started: tell the requester, keep listening.
    Acknowledge,
    /// An intermediate event: keep listening.
    KeepWaiting,
    /// The terminal success, with the output's extension.
    Finished(String),
    /// The terminal failure, with its cause.
    Failed(String),
}

/// The producer's wait loop, one event at a time: it ends at the first
/// `Done` or `Error` and keeps listening through everything else.
pub fn wait_step(ev: Progress) -> (r: WaitStep)
    ensures
        match ev {
            Progress::Started => r is Acknowledge,
            Progress::Progress(_) => r is KeepWaiting,
            Progress::Response(_) => r is KeepWaiting,
            Progress::Done(d) => r == WaitStep::Finished(d),
            Progress::Error(m) => r == WaitStep::Failed(m),
        },
{
    match ev {
        Progress::Started => WaitStep::Acknowledge,
        Progress::Progress(_) => WaitStep::KeepWaiting,
        Progress::Response(_) => WaitStep::KeepWaiting,
        Progress::Done(d) => WaitStep::Finished(d),
        Progress::Error(m) => WaitStep::Failed(m),
    }
}

/// Builds the size-targeted encode parameters from the typed size: a decimal
/// number of mebibytes, kept to thousandths and converted exactly to bytes.
/// A size over the sending cap is rejected up front; text that is no number
/// is a parse error.
pub fn encode_to_size_request(text: &[u8]) -> (r: Result<Parameters, InvalidInput>)
    ensures
        match spec_parse_milli(text@) {
            Some(m) => match r {
                Ok(p) => {
                    &&& m <= MAX_TARGET_MILLI_MIB
                    &&& p matches Parameters::EncodeToSize(e) && e.target_size == m * 0x100000
                        / 1000
                },
                Err(e) => m > MAX_TARGET_MILLI_MIB && e == InvalidInput::Error,
            },
            None => r == Err::<Parameters, InvalidInput>(InvalidInput::StringParse),
        },
{
    match parse_milli(text) {
        None => Err(InvalidInput::StringParse),
        Some(m) => {
            if m > MAX_TARGET_MILLI_MIB {
                Err(InvalidInput::Error)
            } else {
                let bytes: u64 = m * 0x100000 / 1000;
                proof {
                    assert(m * 0x100000 <= 45000 * 0x100000);
                    vstd::arithmetic::div_mod::lemma_div_is_ordered(
                        m as int * 0x100000,
                        45000int * 0x100000,
                        1000,
                    );
                }
                Ok(Parameters::EncodeToSize(EncodeToSizeParameters { target_size: bytes as u32 }))
            }
        },
    }
}

/// When two typed trim bounds make a cut: not both zero, in order, and small
/// enough to count in microseconds.
pub open spec fn spec_cut_ok(s_mil: int, e_mil: int) -> bool {
    &&& !(s_mil == 0 && e_mil == 0)
    &&& s_mil <= e_mil
    &&& e_mil * 1000 <= u64::MAX
}

/// Builds the cut parameters from the two typed bounds, decimal seconds
/// each.  Bounds out of order or both zero are rejected; text that is no
/// number is a parse error.
pub fn cut_request(start_text: &[u8], end_text: &[u8]) -> (r: Result<Parameters, InvalidInput>)
    ensures
        match (spec_parse_milli(start_text@), spec_parse_milli(end_text@)) {
            (Some(s), Some(e)) => if spec_cut_ok(s as int, e as int) {
                r matches Ok(Parameters::Cut(c)) && c.start == Some((s * 1000) as u64) && c.end
                    == Some((e * 1000) as u64)
            } else {
                r == Err::<Parameters, InvalidInput>(InvalidInput::Error)
            },
            _ => r == Err::<Parameters, InvalidInput>(InvalidInput::StringParse),
        },
{
    let s = match parse_milli(start_text) {
        Some(v) => v,
        None => {
            return Err(InvalidInput::StringParse);
        },
    };
    let e = match parse_milli(end_text) {
        Some(v) => v,
        None => {
            return Err(InvalidInput::StringParse);
        },
    };
    if s == 0 && e == 0 {
        return Err(InvalidInput::Error);
    }
    if s > e {
        return Err(InvalidInput::Error);
    }
    let end_us = match e.checked_mul(1000) {
        Some(v) => v,
        None => {
            return Err(InvalidInput::Error);
        },
    };
    let start_us = s * 1000;
    proof {
        assert(s * 1000 <= e * 1000) by (nonlinear_arith)
            requires
                s <= e,
        ;
    }
    Ok(Parameters::Cut(CutParameters { start: Some(start_us), end: Some(end_us) }))
}

/// Every comma softened to a point, so `1,5` reads as `1.5`.
pub open spec fn spec_comma_to_dot(s: Seq<u8>) -> Seq<u8> {
    s.map_values(
        |x: u8|
            if x == 44 {
                46u8
            } else {
                x
            },
    )
}

fn comma_to_dot(s: &[u8]) -> (r: Vec<u8>)
    ensures
        r@ == spec_comma_to_dot(s@),
{
    let mut r: Vec<u8> = Vec::new();
    let mut i: usize = 0;
    while i < s.len()
        invariant
            0 <= i <= s@.len(),
            r@ =~= spec_comma_to_dot(s@.take(i as int)),
        decreases s@.len() - i,
    {
        let b = s[i];
        if b == 44 {
            r.push(46);
        } else {
            r.push(b);
        }
        proof {
            assert(r@ =~= spec_comma_to_dot(s@.take(i + 1)));
        }
        i = i + 1;
    }
    proof {
        assert(s@.take(s@.len() as int) =~= s@);
    }
    r
}

/// Builds the speed parameters.  A typed target duration of zero means the
/// user typed a factor instead — a decimal, comma or point; otherwise the
/// factor is the source duration against the target, in thousandths.
pub fn speed_request(
    source_duration_us: u64,
    duration_text: &[u8],
    factor_text: &[u8],
) -> (r: Result<Parameters, InvalidInput>)
    ensures
        match timestamp::spec_parse_timestamp(duration_text@) {
            None => r == Err::<Parameters, InvalidInput>(InvalidInput::StringParse),
            Some(t) => if t == 0 {
                match spec_parse_milli(spec_comma_to_dot(factor_text@)) {
                    Some(f) => r matches Ok(Parameters::Speed(sp)) && sp.speed_factor_milli == f,
                    None => r == Err::<Parameters, InvalidInput>(InvalidInput::StringParse),
                }
            } else {
                if source_duration_us * 1000 / t <= u64::MAX {
                    r matches Ok(Parameters::Speed(sp)) && sp.speed_factor_milli
                        == source_duration_us * 1000 / t
                } else {
                    r == Err::<Parameters, InvalidInput>(InvalidInput::Error)
                }
            },
        },
{
    let target = match timestamp::parse(duration_text) {
        Ok(t) => t,
        Err(_) => {
            return Err(InvalidInput::StringParse);
        },
    };
    if target.micros == 0 {
        let cleaned = comma_to_dot(factor_text);
        match parse_milli(cleaned.as_slice()) {
            Some(f) => Ok(Parameters::Speed(SpeedParameters { speed_factor_milli: f })),
            None => Err(InvalidInput::StringParse),
        }
    } else {
        let ratio: u128 = source_duration_us as u128 * 1000 / target.micros as u128;
        if ratio > 0xffffffffffffffff {
            return Err(InvalidInput::Error);
        }
        Ok(Parameters::Speed(SpeedParameters { speed_factor_milli: ratio as u64 }))
    }
}

/// One stream of one source, as presented for selection: where it lives,
/// which stream it is, what it carries, and whether the user kept it.
#[derive(Clone, Debug)]
pub struct SelectedStream {
    pub url: String,
    pub stream_id: usize,
    pub kind: StreamKind,
    pub kept: bool,
}

/// One source of the combine, at the specification level.
pub ghost struct GCombineVideo {
    pub url: Seq<char>,
    pub streams: Seq<usize>,
}

pub open spec fn gview(v: CombineVideo) -> GCombineVideo {
    GCombineVideo { url: v.url@, streams: v.selected_streams@ }
}

pub open spec fn gviews(vs: Seq<CombineVideo>) -> Seq<GCombineVideo> {
    vs.map_values(|v: CombineVideo| gview(v))
}

/// The first group with this source, if one was opened.
pub open spec fn index_of_url(gs: Seq<GCombineVideo>, url: Seq<char>) -> Option<int>
    decreases gs.len(),
{
    if gs.len() == 0 {
        None
    } else if gs[0].url == url {
        Some(0)
    } else {
        match index_of_url(gs.drop_first(), url) {
            Some(i) => Some(i + 1),
            None => None,
        }
    }
}

proof fn lemma_index_of_url_at(gs: Seq<GCombineVideo>, url: Seq<char>, i: int)
    requires
        0 <= i < gs.len(),
        gs[i].url == url,
        forall|j: int| 0 <= j < i ==> gs[j].url != url,
    ensures
        index_of_url(gs, url) == Some(i),
    decreases i,
{
    if i > 0 {
        assert(forall|j: int| 0 <= j < i - 1 ==> gs.drop_first()[j].url != url);
        lemma_index_of_url_at(gs.drop_first(), url, i - 1);
    }
}

proof fn lemma_index_of_url_none(gs: Seq<GCombineVideo>, url: Seq<char>)
    requires
        forall|j: int| 0 <= j < gs.len() ==> gs[j].url != url,
    ensures
        index_of_url(gs, url) == None::<int>,
    decreases gs.len(),
{
    if gs.len() > 0 {
        lemma_index_of_url_none(gs.drop_first(), url);
    }
}

fn find_group(videos: &Vec<CombineVideo>, url: &String) -> (r: Option<usize>)
    ensures
        match r {
            Some(i) => index_of_url(gviews(videos@), url@) == Some(i as int) && 0 <= i
                < videos@.len(),
            None => index_of_url(gviews(videos@), url@) == None::<int>,
        },
{
    let mut j: usize = 0;
    while j < videos.len()
        invariant
            0 <= j <= videos@.len(),
            forall|k: int| 0 <= k < j ==> gviews(videos@)[k].url != url@,
        decreases videos@.len() - j,
    {
        if videos[j].url == *url {
            proof {
                lemma_index_of_url_at(gviews(videos@), url@, j as int);
            }
            return Some(j);
        }
        j = j + 1;
    }
    proof {
        lemma_index_of_url_none(gviews(videos@), url@);
    }
    None
}

/// What one selection entry does to the groups: nothing unless kept; a kept
/// stream joins its source's group, opening it in first-seen order.
pub open spec fn spec_add_selection(
    gs: Seq<GCombineVideo>,
    s: SelectedStream,
) -> Seq<GCombineVideo> {
    if !s.kept {
        gs
    } else {
        match index_of_url(gs, s.url@) {
            Some(i) => gs.update(
                i,
                GCombineVideo { url: gs[i].url, streams: gs[i].streams.push(s.stream_id) },
            ),
            None => gs.push(GCombineVideo { url: s.url@, streams: seq![s.stream_id] }),
        }
    }
}

/// The kept streams grouped by source, sources in first-seen order, stream
/// indices in selection order.
pub open spec fn spec_groups(ss: Seq<SelectedStream>) -> Seq<GCombineVideo>
    decreases ss.len(),
{
    if ss.len() == 0 {
        Seq::<GCombineVideo>::empty()
    } else {
        spec_add_selection(spec_groups(ss.drop_last()), ss.last())
    }
}

/// The overall output kind of a selection: video wins over audio whenever
/// any kept stream is video; with no kept video or audio stream there is no
/// kind.
pub open spec fn spec_selection_kind(ss: Seq<SelectedStream>) -> Option<StreamKind> {
    if exists|i: int| 0 <= i < ss.len() && (#[trigger] ss[i]).kept && ss[i].kind
        == StreamKind::Video {
        Some(StreamKind::Video)
    } else if exists|i: int| 0 <= i < ss.len() && (#[trigger] ss[i]).kept && ss[i].kind
        == StreamKind::Audio {
        Some(StreamKind::Audio)
    } else {
        None
    }
}

/// Builds the combine parameters from a finished selection: the kept
/// streams, grouped by source in first-seen order, under the inferred output
/// kind.  A selection that keeps no video and no audio stream has no output
/// kind and is rejected.
pub fn combine_request(streams: &Vec<SelectedStream>) -> (r: Result<Parameters, InvalidInput>)
    ensures
        match spec_selection_kind(streams@) {
            Some(k) => {
                &&& r matches Ok(Parameters::Combine(cp))
                &&& cp.output_kind == k
                &&& gviews(cp.videos@) == spec_groups(streams@)
            },
            None => r == Err::<Parameters, InvalidInput>(InvalidInput::Error),
        },
{
    let mut videos: Vec<CombineVideo> = Vec::new();
    let mut saw_video = false;
    let mut saw_audio = false;
    let ghost all = streams@;
    let mut i: usize = 0;
    proof {
        assert(gviews(videos@) =~= spec_groups(all.take(0)));
    }
    while i < streams.len()
        invariant
            0 <= i <= all.len(),
            all == streams@,
            gviews(videos@) == spec_groups(all.take(i as int)),
            saw_video == exists|k: int|
                0 <= k < i && (#[trigger] all[k]).kept && all[k].kind == StreamKind::Video,
            saw_audio == exists|k: int|
                0 <= k < i && (#[trigger] all[k]).kept && all[k].kind == StreamKind::Audio,
        decreases all.len() - i,
    {
        let s: &SelectedStream = &streams[i];
        proof {
            assert(all.take(i + 1).drop_last() =~= all.take(i as int));
            assert(all.take(i + 1).last() == all[i as int]);
        }
        if s.kept {
            match s.kind {
                StreamKind::Video => {
                    saw_video = true;
                },
                StreamKind::Audio => {
                    saw_audio = true;
                },
                StreamKind::Unknown => {},
            }
            let ghost old_groups = gviews(videos@);
            match find_group(&videos, &s.url) {
                Some(idx) => {
                    let mut cv = videos.remove(idx);
                    cv.selected_streams.push(s.stream_id);
                    let ghost cv_g = gview(cv);
                    videos.insert(idx, cv);
                    proof {
                        assert(gviews(videos@) =~= old_groups.update(idx as int, cv_g));
                        assert(gviews(videos@) =~= spec_add_selection(
                            old_groups,
                            all[i as int],
                        ));
                    }
                },
                None => {
                    let mut ids: Vec<usize> = Vec::new();
                    ids.push(s.stream_id);
                    let cv = CombineVideo { url: s.url.clone(), selected_streams: ids };
                    videos.push(cv);
                    proof {
                        assert(gviews(videos@) =~= old_groups.push(
                            GCombineVideo { url: all[i as int].url@, streams: seq![all[i as int].stream_id] },
                        ));
                        assert(gviews(videos@) =~= spec_add_selection(
                            old_groups,
                            all[i as int],
                        ));
                    }
                },
            }
        }
        i = i + 1;
    }
    proof {
        assert(all.take(all.len() as int) =~= all);
    }
    let kind = if saw_video {
        StreamKind::Video
    } else if saw_audio {
        StreamKind::Audio
    } else {
        return Err(InvalidInput::Error);
    };
    Ok(Parameters::Combine(CombineParameters { videos, output_kind: kind }))
}

} // verus!
