//! `MM:SS.fff`-style timestamps: parsing user-typed positions and durations
//! into microseconds, and rendering a duration back for display.
//!
//! Parsing follows the producer-side form exactly: the text splits on `:`;
//! the last piece splits on `,` or `.` into seconds and a fraction; the
//! fraction is left-justified to five digits and read as microseconds; a
//! minutes piece counts only when there is exactly one `:`.  Pieces that do
//! not parse as numbers count as zero — only a malformed fraction or an
//! out-of-range total is an error.

use vstd::prelude::*;
use vstd::slice::slice_subrange;
use crate::error::InvalidInput;
use crate::text::{
    dec_chars, find_byte, parse_u64, spec_find_byte,
    spec_parse_u64, u64_to_string,
};
use vstd::string::StringExecFns;

verus! {

/// A span of media time, in microseconds.
#[derive(Clone, Copy, PartialEq, Eq, Structural, Debug)]
pub struct Timestamp {
    pub micros: u64,
}

/// The first index holding either separator.
pub open spec fn spec_find_either(s: Seq<u8>, a: u8, b: u8) -> Option<int>
    decreases s.len(),
{
    if s.len() == 0 {
        None
    } else if s[0] == a || s[0] == b {
        Some(0)
    } else {
        match spec_find_either(s.drop_first(), a, b) {
            Some(i) => Some(i + 1),
            None => None,
        }
    }
}

proof fn lemma_find_either_at(s: Seq<u8>, a: u8, b: u8, i: int)
    requires
        0 <= i < s.len(),
        s[i] == a || s[i] == b,
        forall|j: int| 0 <= j < i ==> s[j] != a && s[j] != b,
    ensures
        spec_find_either(s, a, b) == Some(i),
    decreases i,
{
    if i > 0 {
        assert(forall|j: int|
            0 <= j < i - 1 ==> s.drop_first()[j] != a && s.drop_first()[j] != b);
        lemma_find_either_at(s.drop_first(), a, b, i - 1);
    }
}

proof fn lemma_find_either_none(s: Seq<u8>, a: u8, b: u8)
    requires
        forall|j: int| 0 <= j < s.len() ==> s[j] != a && s[j] != b,
    ensures
        spec_find_either(s, a, b) == None::<int>,
    decreases s.len(),
{
    if s.len() > 0 {
        lemma_find_either_none(s.drop_first(), a, b);
    }
}

fn find_either(s: &[u8], a: u8, b: u8) -> (r: Option<usize>)
    ensures
        match r {
            Some(i) => {
                &&& spec_find_either(s@, a, b) == Some(i as int)
                &&& 0 <= i < s@.len()
            },
            None => spec_find_either(s@, a, b) == None::<int>,
        },
{
    let mut i: usize = 0;
    while i < s.len()
        invariant
            0 <= i <= s@.len(),
            forall|j: int| 0 <= j < i ==> s@[j] != a && s@[j] != b,
        decreases s@.len() - i,
    {
        if s[i] == a || s[i] == b {
            proof {
                lemma_find_either_at(s@, a, b, i as int);
            }
            return Some(i);
        }
        i = i + 1;
    }
    proof {
        lemma_find_either_none(s@, a, b);
    }
    None
}

/// The pieces of `s` between occurrences of `sep`: always one more piece
/// than separators, so empty text gives one empty piece.
pub open spec fn spec_split_all(s: Seq<u8>, sep: u8) -> Seq<Seq<u8>>
    decreases s.len(),
{
    match spec_find_byte(s, sep) {
        None => seq![s],
        Some(p) => if 0 <= p < s.len() {
            seq![s.take(p)] + spec_split_all(s.skip(p + 1), sep)
        } else {
            seq![s]
        },
    }
}

/// The pieces of the last `:`-piece between `,` or `.` separators.
pub open spec fn spec_split_either(s: Seq<u8>, a: u8, b: u8) -> Seq<Seq<u8>>
    decreases s.len(),
{
    match spec_find_either(s, a, b) {
        None => seq![s],
        Some(p) => if 0 <= p < s.len() {
            seq![s.take(p)] + spec_split_either(s.skip(p + 1), a, b)
        } else {
            seq![s]
        },
    }
}

/// The fraction digits left-justified to five places with zeros: the value
/// read as microseconds.
pub open spec fn spec_pad5(f: Seq<u8>) -> Seq<u8> {
    if f.len() >= 5 {
        f
    } else {
        f + Seq::<u8>::new((5 - f.len()) as nat, |i: int| 48u8)
    }
}

/// The parse lives on three pieces: minutes when exactly one `:` stands in
/// the text, seconds, and the fraction.  Unparseable minutes or seconds
/// count as zero; an unparseable fraction, or a total beyond the machine
/// bound, is an error (`None`).
pub open spec fn spec_parse_timestamp(s: Seq<u8>) -> Option<int> {
    let b = spec_split_all(s, 58);
    let c = spec_split_either(b.last(), 44, 46);
    if c.len() == 2 && spec_parse_u64(spec_pad5(c.last())) is None {
        None
    } else {
        let micros: int = if c.len() == 2 {
            spec_parse_u64(spec_pad5(c.last())).unwrap() as int
        } else {
            0
        };
        let seconds: int = match spec_parse_u64(c.first()) {
            Some(v) => v as int,
            None => 0,
        };
        let minutes: int = if b.len() == 2 {
            match spec_parse_u64(b.first()) {
                Some(v) => v as int,
                None => 0,
            }
        } else {
            0
        };
        let total = micros + seconds * 1000000 + minutes * 60000000;
        if total <= u64::MAX {
            Some(total)
        } else {
            None
        }
    }
}

fn split_all(s: &[u8], sep: u8) -> (r: Vec<Vec<u8>>)
    ensures
        r.deep_view() == spec_split_all(s@, sep),
        r@.len() > 0,
{
    let mut out: Vec<Vec<u8>> = Vec::new();
    let mut start: usize = 0;
    let n: usize = s.len();
    proof {
        assert(s@.skip(0) =~= s@);
        assert(out.deep_view() =~~= Seq::<Seq<u8>>::empty());
        assert(Seq::<Seq<u8>>::empty() + spec_split_all(s@, sep) =~= spec_split_all(s@, sep));
    }
    loop
        invariant
            0 <= start <= s@.len(),
            n == s@.len(),
            spec_split_all(s@, sep) == out.deep_view() + spec_split_all(
                s@.skip(start as int),
                sep,
            ),
        decreases s@.len() - start,
    {
        let tail = slice_subrange(s, start, n);
        let ghost old_out = out.deep_view();
        match find_byte(tail, sep) {
            Some(q) => {
                let piece = crate::text::bytes_of(slice_subrange(tail, 0, q));
                out.push(piece);
                proof {
                    assert(tail@.take(q as int) =~= piece@);
                    assert(tail@.skip(q + 1) =~= s@.skip(start + q + 1));
                    assert(spec_split_all(tail@, sep) == seq![piece@] + spec_split_all(
                        s@.skip(start + q + 1),
                        sep,
                    ));
                    assert(out.deep_view() =~~= old_out.push(piece@));
                    assert(old_out + (seq![piece@] + spec_split_all(s@.skip(start + q + 1), sep))
                        =~= out.deep_view() + spec_split_all(s@.skip(start + q + 1), sep));
                }
                start = start + q + 1;
            },
            None => {
                let piece = crate::text::bytes_of(tail);
                out.push(piece);
                proof {
                    assert(spec_split_all(tail@, sep) == seq![piece@]);
                    assert(out.deep_view() =~~= old_out.push(piece@));
                    assert(old_out + seq![piece@] =~= out.deep_view());
                }
                return out;
            },
        }
    }
}

fn split_either(s: &[u8], a: u8, b: u8) -> (r: Vec<Vec<u8>>)
    ensures
        r.deep_view() == spec_split_either(s@, a, b),
        r@.len() > 0,
{
    let mut out: Vec<Vec<u8>> = Vec::new();
    let mut start: usize = 0;
    let n: usize = s.len();
    proof {
        assert(s@.skip(0) =~= s@);
        assert(out.deep_view() =~~= Seq::<Seq<u8>>::empty());
        assert(Seq::<Seq<u8>>::empty() + spec_split_either(s@, a, b) =~= spec_split_either(
            s@,
            a,
            b,
        ));
    }
    loop
        invariant
            0 <= start <= s@.len(),
            n == s@.len(),
            spec_split_either(s@, a, b) == out.deep_view() + spec_split_either(
                s@.skip(start as int),
                a,
                b,
            ),
        decreases s@.len() - start,
    {
        let tail = slice_subrange(s, start, n);
        let ghost old_out = out.deep_view();
        match find_either(tail, a, b) {
            Some(q) => {
                let piece = crate::text::bytes_of(slice_subrange(tail, 0, q));
                out.push(piece);
                proof {
                    assert(tail@.take(q as int) =~= piece@);
                    assert(tail@.skip(q + 1) =~= s@.skip(start + q + 1));
                    assert(spec_split_either(tail@, a, b) == seq![piece@] + spec_split_either(
                        s@.skip(start + q + 1),
                        a,
                        b,
                    ));
                    assert(out.deep_view() =~~= old_out.push(piece@));
                    assert(old_out + (seq![piece@] + spec_split_either(
                        s@.skip(start + q + 1),
                        a,
                        b,
                    )) =~= out.deep_view() + spec_split_either(s@.skip(start + q + 1), a, b));
                }
                start = start + q + 1;
            },
            None => {
                let piece = crate::text::bytes_of(tail);
                out.push(piece);
                proof {
                    assert(spec_split_either(tail@, a, b) == seq![piece@]);
                    assert(out.deep_view() =~~= old_out.push(piece@));
                    assert(old_out + seq![piece@] =~= out.deep_view());
                }
                return out;
            },
        }
    }
}

fn pad5(f: &[u8]) -> (r: Vec<u8>)
    ensures
        r@ == spec_pad5(f@),
{
    let mut r = crate::text::bytes_of(f);
    while r.len() < 5
        invariant
            f@.len() >= 5 ==> r@ == f@,
            f@.len() < 5 ==> f@.len() <= r@.len() <= 5 && r@.take(f@.len() as int) == f@
                && (forall|i: int| f@.len() <= i < r@.len() ==> r@[i] == 48u8),
        decreases 5 - r.len(),
    {
        r.push(48);
        proof {
            assert(r@.take(f@.len() as int) =~= r@.drop_last().take(f@.len() as int));
        }
    }
    proof {
        if f@.len() < 5 {
            assert(r@ =~= spec_pad5(f@));
        }
    }
    r
}

/// Parses a typed timestamp into microseconds.
pub fn parse(text: &[u8]) -> (r: Result<Timestamp, InvalidInput>)
    ensures
        match r {
            Ok(t) => spec_parse_timestamp(text@) == Some(t.micros as int),
            Err(e) => spec_parse_timestamp(text@) is None && e == InvalidInput::StringParse,
        },
{
    let b = split_all(text, 58);
    let last_piece: &Vec<u8> = &b[b.len() - 1];
    proof {
        assert(b.deep_view().last() == last_piece@);
    }
    let c = split_either(last_piece.as_slice(), 44, 46);
    let micros: u64 = if c.len() == 2 {
        let padded = pad5(c[1].as_slice());
        proof {
            assert(c.deep_view().last() == c@[1]@);
        }
        match parse_u64(padded.as_slice()) {
            Some(v) => v,
            None => {
                return Err(InvalidInput::StringParse);
            },
        }
    } else {
        0
    };
    let seconds: u64 = match parse_u64(c[0].as_slice()) {
        Some(v) => v,
        None => 0,
    };
    proof {
        assert(c.deep_view().first() == c@[0]@);
    }
    let minutes: u64 = if b.len() == 2 {
        proof {
            assert(b.deep_view().first() == b@[0]@);
        }
        match parse_u64(b[0].as_slice()) {
            Some(v) => v,
            None => 0,
        }
    } else {
        0
    };
    let total: u128 = micros as u128 + seconds as u128 * 1000000 + minutes as u128 * 60000000;
    if total > 0xffffffffffffffff {
        return Err(InvalidInput::StringParse);
    }
    Ok(Timestamp { micros: total as u64 })
}

/// Zero-padded to at least two digits.
pub open spec fn spec_pad2(n: int) -> Seq<char> {
    if n < 10 {
        seq!['0'] + dec_chars(n)
    } else {
        dec_chars(n)
    }
}

/// `MM:SS.fff`: minutes and seconds zero-padded to two digits, the
/// milliseconds written plainly.
pub open spec fn spec_display_timestamp(us: int) -> Seq<char> {
    spec_pad2(us / 60000000) + seq![':'] + spec_pad2((us / 1000000) % 60) + seq!['.'] + dec_chars(
        (us / 1000) % 1000,
    )
}

fn pad2_string(n: u64) -> (r: String)
    ensures
        r@ == spec_pad2(n as int),
{
    let digits = u64_to_string(n);
    if n < 10 {
        let r = "0".to_owned().concat(digits.as_str());
        proof {
            reveal_strlit("0");
            assert("0"@ =~= seq!['0']);
        }
        r
    } else {
        digits
    }
}

/// Display of a span as a timestamp.
pub trait DisplayTimestamp {
    /// What the display must spell, character by character.
    spec fn spec_display(&self) -> Seq<char>;

    fn display_timestamp(&self) -> (r: String)
        ensures
            r@ == self.spec_display(),
    ;
}

impl DisplayTimestamp for Timestamp {
    open spec fn spec_display(&self) -> Seq<char> {
        spec_display_timestamp(self.micros as int)
    }

    fn display_timestamp(&self) -> (r: String)
        ensures
            r@ == self.spec_display(),
    {
        let minutes = self.micros / 60000000;
        let seconds = (self.micros / 1000000) % 60;
        let millis = (self.micros / 1000) % 1000;
        let r = pad2_string(minutes).concat(":").concat(pad2_string(seconds).as_str()).concat(
            ".",
        ).concat(u64_to_string(millis).as_str());
        proof {
            reveal_strlit(":");
            reveal_strlit(".");
            assert(":"@ =~= seq![':']);
            assert("."@ =~= seq!['.']);
        }
        r
    }
}

} // verus!
