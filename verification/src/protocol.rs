//! The progress protocol: a newline-delimited ASCII `key=value` stream that
//! a running transcode process emits on its side channel.
//!
//! The parser is an explicit state machine: a [`PendingRecord`] accumulates
//! the last value seen for each recognized key; when the `progress` key
//! arrives the record is complete, it is emitted with its `continue`/`end`
//! status, and the accumulator resets to all-empty.  A line with no `=`, an
//! unparseable numeric field, or an unknown `progress` value is a fatal
//! protocol violation that terminates the sequence; unrecognized keys are
//! ignored.  End of input closes the sequence cleanly.
//!
//! Fractional fields (`fps`, `speed`) are carried in thousandths; `speed`
//! first loses a trailing `x` suffix.

use vstd::prelude::*;
use vstd::slice::slice_subrange;
use vstd::string::StringSliceAdditionalSpecFns;
use vstd::utf8::{is_ascii_chars, is_ascii_chars_encode_utf8};
use crate::error::Ffmpeg;
use crate::text::{
    bytes_of, eq_bytes, find_byte, parse_milli, parse_u64, spec_find_byte, spec_parse_milli,
    spec_parse_u64, trim, trim_end, trim_end_spec, trim_spec, trim_start, trim_start_spec,
};

verus! {

/// A line split at its first `=`: the whole line trimmed, then the key's
/// tail and the value's head trimmed.  `None` when the line holds no `=`.
pub open spec fn spec_parse_line_kv(line: Seq<u8>) -> Option<(Seq<u8>, Seq<u8>)> {
    let t = trim_spec(line);
    match spec_find_byte(t, 61) {
        None => None,
        Some(p) => Some((trim_end_spec(t.take(p)), trim_start_spec(t.skip(p + 1)))),
    }
}

/// What the process will do after a record: keep going or finish.
#[derive(Clone, Copy, PartialEq, Eq, Structural, Debug)]
pub enum Status {
    Continue,
    End,
}

impl Default for Status {
    fn default() -> (r: Self)
        ensures
            r == Status::Continue,
    {
        Status::Continue
    }
}

/// One complete progress record, emitted when a `progress` key is seen.
/// Every field is optional: the process only sends what it knows.
#[derive(Clone, Debug)]
pub struct Progress {
    /// Frame the process is on.
    pub frame: Option<u64>,
    /// Processing rate in thousandths of a frame per second.
    pub fps_milli: Option<u64>,
    /// Bytes of output produced so far.
    pub total_size: Option<u64>,
    /// How far the output has come, in microseconds.
    pub out_time_us: Option<u64>,
    /// Duplicated frames.
    pub dup_frames: Option<u64>,
    /// Dropped frames.
    pub drop_frames: Option<u64>,
    /// Processing speed relative to playback, in thousandths.
    pub speed_milli: Option<u64>,
    pub status: Status,
}

/// The accumulator of a record not yet emitted: the last value seen for each
/// recognized key since the previous emission.
#[derive(Clone, Debug)]
pub struct PendingRecord {
    pub frame: Option<u64>,
    pub fps_milli: Option<u64>,
    pub total_size: Option<u64>,
    pub out_time_us: Option<u64>,
    pub dup_frames: Option<u64>,
    pub drop_frames: Option<u64>,
    pub speed_milli: Option<u64>,
}

/// The all-empty accumulator.
pub open spec fn empty_pending() -> PendingRecord {
    PendingRecord {
        frame: None,
        fps_milli: None,
        total_size: None,
        out_time_us: None,
        dup_frames: None,
        drop_frames: None,
        speed_milli: None,
    }
}

/// The record an accumulator emits under a given status.
pub open spec fn record_of(acc: PendingRecord, status: Status) -> Progress {
    Progress {
        frame: acc.frame,
        fps_milli: acc.fps_milli,
        total_size: acc.total_size,
        out_time_us: acc.out_time_us,
        dup_frames: acc.dup_frames,
        drop_frames: acc.drop_frames,
        speed_milli: acc.speed_milli,
        status: status,
    }
}

/// What feeding one line to the accumulator does, at the specification
/// level.  Fatal outcomes carry the offending bytes.
pub enum SpecFeed {
    /// A field was stored or an unrecognized key ignored; no record yet.
    Advance(PendingRecord),
    /// A `progress` key completed this record.
    Emit(Progress),
    /// The line held no `=`.
    BadLine(Seq<u8>),
    /// A recognized field's value failed to parse as a number.
    BadNumber(Seq<u8>),
    /// The `progress` value was neither `continue` nor `end`.
    BadStatus(Seq<u8>),
}

/// The protocol's transition function: one line against one accumulator.
pub open spec fn spec_feed(acc: PendingRecord, line: Seq<u8>) -> SpecFeed {
    match spec_parse_line_kv(line) {
        None => SpecFeed::BadLine(line),
        Some((k, v)) => {
            if k == "progress".spec_bytes() {
                if v == "continue".spec_bytes() {
                    SpecFeed::Emit(record_of(acc, Status::Continue))
                } else if v == "end".spec_bytes() {
                    SpecFeed::Emit(record_of(acc, Status::End))
                } else {
                    SpecFeed::BadStatus(v)
                }
            } else if k == "frame".spec_bytes() {
                match spec_parse_u64(v) {
                    Some(x) => SpecFeed::Advance(PendingRecord { frame: Some(x), ..acc }),
                    None => SpecFeed::BadNumber(v),
                }
            } else if k == "fps".spec_bytes() {
                match spec_parse_milli(v) {
                    Some(x) => SpecFeed::Advance(PendingRecord { fps_milli: Some(x), ..acc }),
                    None => SpecFeed::BadNumber(v),
                }
            } else if k == "total_size".spec_bytes() {
                match spec_parse_u64(v) {
                    Some(x) => SpecFeed::Advance(PendingRecord { total_size: Some(x), ..acc }),
                    None => SpecFeed::BadNumber(v),
                }
            } else if k == "out_time_us".spec_bytes() {
                match spec_parse_u64(v) {
                    Some(x) => SpecFeed::Advance(PendingRecord { out_time_us: Some(x), ..acc }),
                    None => SpecFeed::BadNumber(v),
                }
            } else if k == "dup_frames".spec_bytes() {
                match spec_parse_u64(v) {
                    Some(x) => SpecFeed::Advance(PendingRecord { dup_frames: Some(x), ..acc }),
                    None => SpecFeed::BadNumber(v),
                }
            } else if k == "drop_frames".spec_bytes() {
                match spec_parse_u64(v) {
                    Some(x) => SpecFeed::Advance(PendingRecord { drop_frames: Some(x), ..acc }),
                    None => SpecFeed::BadNumber(v),
                }
            } else if k == "speed".spec_bytes() {
                let w = if v.len() > 0 && v.last() == 120 {
                    v.drop_last()
                } else {
                    v
                };
                match spec_parse_milli(w) {
                    Some(x) => SpecFeed::Advance(PendingRecord { speed_milli: Some(x), ..acc }),
                    None => SpecFeed::BadNumber(w),
                }
            } else {
                SpecFeed::Advance(acc)
            }
        },
    }
}

/// What one fed line produced, as handed back to the driver.
#[derive(Clone, Debug)]
pub enum FeedResult {
    /// No complete record yet.
    Accumulating,
    /// A complete record.
    Record(Progress),
    /// A fatal protocol violation; the sequence must stop.
    Fatal(Ffmpeg),
}

impl PendingRecord {
    pub fn new() -> (r: Self)
        ensures
            r == empty_pending(),
    {
        PendingRecord {
            frame: None,
            fps_milli: None,
            total_size: None,
            out_time_us: None,
            dup_frames: None,
            drop_frames: None,
            speed_milli: None,
        }
    }

    /// Completes the pending record under `status` and resets the
    /// accumulator to all-empty.
    fn take_record(&mut self, status: Status) -> (r: Progress)
        ensures
            r == record_of(*old(self), status),
            *final(self) == empty_pending(),
    {
        let r = Progress {
            frame: self.frame,
            fps_milli: self.fps_milli,
            total_size: self.total_size,
            out_time_us: self.out_time_us,
            dup_frames: self.dup_frames,
            drop_frames: self.drop_frames,
            speed_milli: self.speed_milli,
            status,
        };
        self.frame = None;
        self.fps_milli = None;
        self.total_size = None;
        self.out_time_us = None;
        self.dup_frames = None;
        self.drop_frames = None;
        self.speed_milli = None;
        r
    }

    /// Feeds one line to the accumulator, following [`spec_feed`] exactly.
    pub fn feed_line(&mut self, line: &[u8]) -> (r: FeedResult)
        ensures
            match spec_feed(*old(self), line@) {
                SpecFeed::Advance(a) => *final(self) == a && r is Accumulating,
                SpecFeed::Emit(p) => {
                    &&& *final(self) == empty_pending()
                    &&& r matches FeedResult::Record(q) && q == p
                },
                SpecFeed::BadLine(b) => {
                    &&& *final(self) == *old(self)
                    &&& r matches FeedResult::Fatal(Ffmpeg::KeyValueParse { key }) && key@ == b
                },
                SpecFeed::BadNumber(b) => {
                    &&& *final(self) == *old(self)
                    &&& r matches FeedResult::Fatal(Ffmpeg::OtherParse { msg }) && msg@ == b
                },
                SpecFeed::BadStatus(b) => {
                    &&& *final(self) == *old(self)
                    &&& r matches FeedResult::Fatal(Ffmpeg::UnknownStatus { status }) && status@
                        == b
                },
            },
    {
        match parse_line(line) {
            None => FeedResult::Fatal(Ffmpeg::KeyValueParse { key: bytes_of(line) }),
            Some((k, v)) => {
                if eq_bytes(k.as_slice(), "progress".as_bytes()) {
                    if eq_bytes(v.as_slice(), "continue".as_bytes()) {
                        FeedResult::Record(self.take_record(Status::Continue))
                    } else if eq_bytes(v.as_slice(), "end".as_bytes()) {
                        FeedResult::Record(self.take_record(Status::End))
                    } else {
                        FeedResult::Fatal(Ffmpeg::UnknownStatus { status: v })
                    }
                } else if eq_bytes(k.as_slice(), "frame".as_bytes()) {
                    match parse_u64(v.as_slice()) {
                        Some(x) => {
                            self.frame = Some(x);
                            FeedResult::Accumulating
                        },
                        None => FeedResult::Fatal(Ffmpeg::OtherParse { msg: v }),
                    }
                } else if eq_bytes(k.as_slice(), "fps".as_bytes()) {
                    match parse_milli(v.as_slice()) {
                        Some(x) => {
                            self.fps_milli = Some(x);
                            FeedResult::Accumulating
                        },
                        None => FeedResult::Fatal(Ffmpeg::OtherParse { msg: v }),
                    }
                } else if eq_bytes(k.as_slice(), "total_size".as_bytes()) {
                    match parse_u64(v.as_slice()) {
                        Some(x) => {
                            self.total_size = Some(x);
                            FeedResult::Accumulating
                        },
                        None => FeedResult::Fatal(Ffmpeg::OtherParse { msg: v }),
                    }
                } else if eq_bytes(k.as_slice(), "out_time_us".as_bytes()) {
                    match parse_u64(v.as_slice()) {
                        Some(x) => {
                            self.out_time_us = Some(x);
                            FeedResult::Accumulating
                        },
                        None => FeedResult::Fatal(Ffmpeg::OtherParse { msg: v }),
                    }
                } else if eq_bytes(k.as_slice(), "dup_frames".as_bytes()) {
                    match parse_u64(v.as_slice()) {
                        Some(x) => {
                            self.dup_frames = Some(x);
                            FeedResult::Accumulating
                        },
                        None => FeedResult::Fatal(Ffmpeg::OtherParse { msg: v }),
                    }
                } else if eq_bytes(k.as_slice(), "drop_frames".as_bytes()) {
                    match parse_u64(v.as_slice()) {
                        Some(x) => {
                            self.drop_frames = Some(x);
                            FeedResult::Accumulating
                        },
                        None => FeedResult::Fatal(Ffmpeg::OtherParse { msg: v }),
                    }
                } else if eq_bytes(k.as_slice(), "speed".as_bytes()) {
                    let w: &[u8] = if v.len() > 0 && v[v.len() - 1] == 120 {
                        let r = slice_subrange(v.as_slice(), 0, v.len() - 1);
                        proof {
                            assert(r@ =~= v@.drop_last());
                        }
                        r
                    } else {
                        v.as_slice()
                    };
                    match parse_milli(w) {
                        Some(x) => {
                            self.speed_milli = Some(x);
                            FeedResult::Accumulating
                        },
                        None => FeedResult::Fatal(Ffmpeg::OtherParse { msg: bytes_of(w) }),
                    }
                } else {
                    FeedResult::Accumulating
                }
            },
        }
    }
}

/// Splits a line at its first `=`: the key with its tail trimmed, the value
/// with its head trimmed, the line itself trimmed first.  `None` when the
/// line holds no `=`.
pub fn parse_line(line: &[u8]) -> (r: Option<(Vec<u8>, Vec<u8>)>)
    ensures
        match r {
            Some((k, v)) => spec_parse_line_kv(line@) == Some((k@, v@)),
            None => spec_parse_line_kv(line@) is None,
        },
{
    let t = trim(line);
    match find_byte(t, 61) {
        None => None,
        Some(p) => {
            let n: usize = t.len();
            let k = trim_end(slice_subrange(t, 0, p));
            let v = trim_start(slice_subrange(t, p + 1, n));
            Some((bytes_of(k), bytes_of(v)))
        },
    }
}

/// How a finished parse of a whole line sequence ended.
pub enum SpecStop {
    /// End of input, no violation; carries the accumulator left behind.
    Clean(PendingRecord),
    BadLine(Seq<u8>),
    BadNumber(Seq<u8>),
    BadStatus(Seq<u8>),
}

/// The records a line sequence produces from a starting accumulator, and how
/// the parse ends.  A fatal line stops the sequence; lines after it are
/// never read.
pub open spec fn spec_run(acc: PendingRecord, lines: Seq<Seq<u8>>) -> (Seq<Progress>, SpecStop)
    decreases lines.len(),
{
    if lines.len() == 0 {
        (Seq::<Progress>::empty(), SpecStop::Clean(acc))
    } else {
        match spec_feed(acc, lines[0]) {
            SpecFeed::Advance(a) => spec_run(a, lines.drop_first()),
            SpecFeed::Emit(p) => {
                let rest = spec_run(empty_pending(), lines.drop_first());
                (seq![p] + rest.0, rest.1)
            },
            SpecFeed::BadLine(b) => (Seq::<Progress>::empty(), SpecStop::BadLine(b)),
            SpecFeed::BadNumber(b) => (Seq::<Progress>::empty(), SpecStop::BadNumber(b)),
            SpecFeed::BadStatus(b) => (Seq::<Progress>::empty(), SpecStop::BadStatus(b)),
        }
    }
}

/// Everything one invocation's progress channel produced.
#[derive(Clone, Debug)]
pub struct ParseOutcome {
    /// The complete records, in emission order.
    pub records: Vec<Progress>,
    /// The violation that stopped the parse, if one did.
    pub error: Option<Ffmpeg>,
}

/// Whether an exec outcome is the one the specification names.
pub open spec fn outcome_matches(r: ParseOutcome, expect: (Seq<Progress>, SpecStop)) -> bool {
    &&& r.records@ == expect.0
    &&& match expect.1 {
        SpecStop::Clean(_) => r.error is None,
        SpecStop::BadLine(b) => r.error matches Some(Ffmpeg::KeyValueParse { key }) && key@ == b,
        SpecStop::BadNumber(b) => r.error matches Some(Ffmpeg::OtherParse { msg }) && msg@ == b,
        SpecStop::BadStatus(b) => r.error matches Some(Ffmpeg::UnknownStatus { status })
            && status@ == b,
    }
}

/// Parses a whole sequence of lines from an empty accumulator: the pull-based
/// driver of the state machine.
pub fn parse_lines(lines: &Vec<Vec<u8>>) -> (r: ParseOutcome)
    ensures
        outcome_matches(r, spec_run(empty_pending(), lines.deep_view())),
{
    let ghost all: Seq<Seq<u8>> = lines.deep_view();
    let mut acc = PendingRecord::new();
    let mut records: Vec<Progress> = Vec::new();
    let mut i: usize = 0;
    proof {
        assert(all.skip(0) =~= all);
    }
    while i < lines.len()
        invariant
            0 <= i <= lines@.len(),
            all == lines.deep_view(),
            all.len() == lines@.len(),
            spec_run(empty_pending(), all).0 == records@ + spec_run(acc, all.skip(i as int)).0,
            spec_run(empty_pending(), all).1 == spec_run(acc, all.skip(i as int)).1,
        decreases lines@.len() - i,
    {
        let ghost rest = all.skip(i as int);
        let ghost acc0 = acc;
        let ghost old_records = records@;
        proof {
            assert(rest[0] == all[i as int]);
            assert(all[i as int] == lines@[i as int]@);
            assert(rest.drop_first() =~= all.skip(i + 1));
        }
        let line: &Vec<u8> = &lines[i];
        let step = acc.feed_line(line.as_slice());
        match step {
            FeedResult::Accumulating => {
                proof {
                    assert(spec_run(acc0, rest) == spec_run(acc, all.skip(i + 1)));
                }
            },
            FeedResult::Record(p) => {
                records.push(p);
                proof {
                    assert(spec_run(acc0, rest).0 == seq![p] + spec_run(
                        empty_pending(),
                        all.skip(i + 1),
                    ).0);
                    assert(old_records + (seq![p] + spec_run(empty_pending(), all.skip(i + 1)).0)
                        =~= records@ + spec_run(empty_pending(), all.skip(i + 1)).0);
                }
            },
            FeedResult::Fatal(e) => {
                proof {
                    assert(records@ + Seq::<Progress>::empty() =~= records@);
                }
                return ParseOutcome { records, error: Some(e) };
            },
        }
        i = i + 1;
    }
    proof {
        assert(all.skip(i as int) =~= Seq::<Seq<u8>>::empty());
        assert(records@ + Seq::<Progress>::empty() =~= records@);
    }
    ParseOutcome { records, error: None }
}

/// A byte stream cut at every line feed; the line feed belongs to no line.
/// A final fragment without a terminator still counts as a line.
pub open spec fn spec_split_lines(s: Seq<u8>) -> Seq<Seq<u8>>
    decreases s.len(),
{
    if s.len() == 0 {
        Seq::<Seq<u8>>::empty()
    } else {
        match spec_find_byte(s, 10) {
            None => seq![s],
            Some(p) => if 0 <= p < s.len() {
                seq![s.take(p)] + spec_split_lines(s.skip(p + 1))
            } else {
                seq![s]
            },
        }
    }
}

pub fn split_lines(s: &[u8]) -> (r: Vec<Vec<u8>>)
    ensures
        r.deep_view() == spec_split_lines(s@),
{
    let mut out: Vec<Vec<u8>> = Vec::new();
    let mut start: usize = 0;
    proof {
        assert(s@.skip(0) =~= s@);
    }
    while start < s.len()
        invariant
            0 <= start <= s@.len(),
            spec_split_lines(s@) == out.deep_view() + spec_split_lines(s@.skip(start as int)),
        decreases s@.len() - start,
    {
        let n: usize = s.len();
        let tail = slice_subrange(s, start, n);
        let ghost old_out = out.deep_view();
        match find_byte(tail, 10) {
            Some(q) => {
                let line = bytes_of(slice_subrange(tail, 0, q));
                out.push(line);
                proof {
                    assert(tail@.take(q as int) =~= line@);
                    assert(tail@.skip(q + 1) =~= s@.skip(start + q + 1));
                    assert(spec_split_lines(tail@) == seq![line@] + spec_split_lines(
                        s@.skip(start + q + 1),
                    ));
                    assert(out.deep_view() =~~= old_out.push(line@));
                    assert(old_out + (seq![line@] + spec_split_lines(s@.skip(start + q + 1)))
                        =~= out.deep_view() + spec_split_lines(s@.skip(start + q + 1)));
                }
                start = start + q + 1;
            },
            None => {
                let line = bytes_of(tail);
                out.push(line);
                proof {
                    assert(spec_split_lines(tail@) == seq![line@]);
                    assert(out.deep_view() =~~= old_out.push(line@));
                    assert(s@.skip(s@.len() as int) =~= Seq::<u8>::empty());
                    assert(old_out + seq![line@] =~= out.deep_view() + spec_split_lines(
                        s@.skip(s@.len() as int),
                    ));
                }
                start = n;
            },
        }
    }
    proof {
        assert(s@.skip(start as int) =~= Seq::<u8>::empty());
        assert(out.deep_view() + Seq::<Seq<u8>>::empty() =~= out.deep_view());
    }
    out
}

/// Parses one invocation's whole progress channel: the stream split into
/// lines, then run through the state machine from an empty accumulator.
/// Independently testable against a literal byte stream.
pub fn parse_stream(s: &[u8]) -> (r: ParseOutcome)
    ensures
        outcome_matches(r, spec_run(empty_pending(), spec_split_lines(s@))),
{
    let lines = split_lines(s);
    parse_lines(&lines)
}

/// The words `continue` and `end` name different byte strings.
proof fn lemma_status_words()
    ensures
        "continue".spec_bytes() != "end".spec_bytes(),
{
    reveal_strlit("continue");
    reveal_strlit("end");
    assert(is_ascii_chars("continue"@));
    assert(is_ascii_chars("end"@));
    is_ascii_chars_encode_utf8("continue"@);
    is_ascii_chars_encode_utf8("end"@);
}

/// A line without `=` stops the parse at once: no records come out and the
/// stop is the parse error, no matter what valid lines follow.
pub proof fn lemma_bad_line_stops_everything(
    acc: PendingRecord,
    first: Seq<u8>,
    rest: Seq<Seq<u8>>,
)
    requires
        spec_parse_line_kv(first) is None,
    ensures
        spec_run(acc, seq![first] + rest) == (
            Seq::<Progress>::empty(),
            SpecStop::BadLine(first),
        ),
{
    let lines = seq![first] + rest;
    assert(lines[0] == first);
    assert(spec_feed(acc, first) == SpecFeed::BadLine(first));
}

/// Whether every line in the sequence advances the accumulator: field lines
/// and ignored keys only, no emission and no violation.
pub open spec fn all_advance(acc: PendingRecord, lines: Seq<Seq<u8>>) -> bool
    decreases lines.len(),
{
    lines.len() == 0 || (spec_feed(acc, lines[0]) matches SpecFeed::Advance(a)
        && all_advance(a, lines.drop_first()))
}

/// The accumulator after a run of advancing lines: the last value seen for
/// each recognized key, on top of what was already pending.
pub open spec fn acc_after(acc: PendingRecord, lines: Seq<Seq<u8>>) -> PendingRecord
    decreases lines.len(),
{
    if lines.len() == 0 {
        acc
    } else {
        match spec_feed(acc, lines[0]) {
            SpecFeed::Advance(a) => acc_after(a, lines.drop_first()),
            _ => acc,
        }
    }
}

/// For a valid line sequence ending in `progress=end` — field lines only,
/// then the one `progress` line — the parser emits exactly one complete
/// record: its fields are the last value seen for each key, its status is
/// `End`, the parse ends cleanly, and the accumulator is reset to empty.
pub proof fn lemma_single_record(acc: PendingRecord, fields: Seq<Seq<u8>>, last: Seq<u8>)
    requires
        all_advance(acc, fields),
        spec_parse_line_kv(last) == Some(("progress".spec_bytes(), "end".spec_bytes())),
    ensures
        spec_run(acc, fields + seq![last]) == (
            seq![record_of(acc_after(acc, fields), Status::End)],
            SpecStop::Clean(empty_pending()),
        ),
    decreases fields.len(),
{
    lemma_status_words();
    let lines = fields + seq![last];
    if fields.len() == 0 {
        assert(lines[0] == last);
        assert(spec_feed(acc, last) == SpecFeed::Emit(record_of(acc, Status::End)));
        assert(lines.drop_first() =~= Seq::<Seq<u8>>::empty());
        let rest = spec_run(empty_pending(), lines.drop_first());
        assert(rest == (Seq::<Progress>::empty(), SpecStop::Clean(empty_pending())));
        assert(spec_run(acc, lines).0 == seq![record_of(acc, Status::End)] + rest.0);
        assert(seq![record_of(acc, Status::End)] + Seq::<Progress>::empty()
            =~= seq![record_of(acc, Status::End)]);
        assert(spec_run(acc, lines).0 == seq![record_of(acc_after(acc, fields), Status::End)]);
        assert(spec_run(acc, lines).1 == SpecStop::Clean(empty_pending()));
    } else {
        assert(lines[0] == fields[0]);
        match spec_feed(acc, fields[0]) {
            SpecFeed::Advance(a) => {
                assert(lines.drop_first() =~= fields.drop_first() + seq![last]);
                lemma_single_record(a, fields.drop_first(), last);
            },
            _ => {
                assert(false);
            },
        }
    }
}

} // verus!
