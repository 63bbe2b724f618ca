//! The transcript: one line per segment in which speech was recognised,
//! `HH:MM:SS:CC - HH:MM:SS:CC  --  text`, where `CC` counts hundredths of a
//! second.

use vstd::prelude::*;
use vstd::string::*;
use crate::audio::error::AudioError;
use crate::audio::text::{digit_char, push_two_digits, trim, trimmed, two_digits};
use crate::audio::vad::SpeechSegment;

verus! {

/// Ticks in a second.
pub const TICKS_PER_SECOND: u64 = 16000;

/// Ticks in a hundredth of a second.
pub const TICKS_PER_CENTI: u64 = 160;

/// Ticks in a hundred hours: timestamps below have two digits in every field.
pub const HUNDRED_HOURS: u64 = 5_760_000_000;

pub open spec fn hours_of(ticks: nat) -> nat {
    ticks / 16000 / 3600
}

pub open spec fn minutes_of(ticks: nat) -> nat {
    ticks / 16000 / 60 % 60
}

pub open spec fn seconds_of(ticks: nat) -> nat {
    ticks / 16000 % 60
}

/// Whole hundredths of the second that `ticks` falls in.
pub open spec fn centis_of(ticks: nat) -> nat {
    ticks % 16000 / 160
}

/// The timestamp of a position in time: hours, minutes, seconds and
/// hundredths, each padded to two digits, separated by colons.
pub open spec fn timestamp_text(ticks: nat) -> Seq<char> {
    two_digits(hours_of(ticks)) + seq![':'] + two_digits(minutes_of(ticks)) + seq![':']
        + two_digits(seconds_of(ticks)) + seq![':'] + two_digits(centis_of(ticks))
}

/// Formats a position in time as `HH:MM:SS:CC`.
pub fn format_timestamp(ticks: u64) -> (text: String)
    ensures
        text@ == timestamp_text(ticks as nat),
{
    let seconds: u64 = ticks / TICKS_PER_SECOND;
    let mut text = String::new();
    proof {
        reveal_strlit(":");
        assert(":"@ =~= seq![':']);
    }
    push_two_digits(&mut text, seconds / 3600);
    text.append(":");
    push_two_digits(&mut text, seconds / 60 % 60);
    text.append(":");
    push_two_digits(&mut text, seconds % 60);
    text.append(":");
    push_two_digits(&mut text, ticks % TICKS_PER_SECOND / TICKS_PER_CENTI);
    proof {
        assert(text@ =~= timestamp_text(ticks as nat));
    }
    text
}

/// The two digits of a number below 100.
pub open spec fn digit_pair(n: nat) -> Seq<char> {
    seq![digit_char((n / 10) as int), digit_char((n % 10) as int)]
}

/// Below a hundred hours a timestamp is exactly `HH:MM:SS:CC`: eleven
/// characters, two decimal digits in each of the four fields.
pub proof fn lemma_timestamp_shape(ticks: nat)
    requires
        ticks < HUNDRED_HOURS,
    ensures
        timestamp_text(ticks) == stamp(
            hours_of(ticks),
            minutes_of(ticks),
            seconds_of(ticks),
            centis_of(ticks),
        ),
        timestamp_text(ticks).len() == 11,
        forall|i: int|
            0 <= i < 11 ==> (if i == 2 || i == 5 || i == 8 {
                timestamp_text(ticks)[i] == ':'
            } else {
                exists|d: int| 0 <= d <= 9 && timestamp_text(ticks)[i] == digit_char(d)
            }),
        hours_of(ticks) < 100,
        minutes_of(ticks) < 60,
        seconds_of(ticks) < 60,
        centis_of(ticks) < 100,
{
    let (h, m, s, c) = (hours_of(ticks), minutes_of(ticks), seconds_of(ticks), centis_of(ticks));
    lemma_two_digits(h);
    lemma_two_digits(m);
    lemma_two_digits(s);
    lemma_two_digits(c);
    let text = timestamp_text(ticks);
    assert(text =~= stamp(h, m, s, c));
    assert(text[0] == digit_char((h / 10) as int) && text[1] == digit_char((h % 10) as int));
    assert(text[3] == digit_char((m / 10) as int) && text[4] == digit_char((m % 10) as int));
    assert(text[6] == digit_char((s / 10) as int) && text[7] == digit_char((s % 10) as int));
    assert(text[9] == digit_char((c / 10) as int) && text[10] == digit_char((c % 10) as int));
}

proof fn lemma_two_digits(n: nat)
    requires
        n < 100,
    ensures
        two_digits(n) == digit_pair(n),
{
    reveal_with_fuel(crate::audio::text::decimal, 3);
    assert(two_digits(n) =~= digit_pair(n));
}

/// `a` comes before `b` in the order of strings, or equals it.
pub open spec fn lex_le(a: Seq<char>, b: Seq<char>) -> bool
    decreases a.len(),
{
    if a.len() == 0 {
        true
    } else if b.len() == 0 {
        false
    } else {
        (a[0] as u32) < (b[0] as u32) || (a[0] == b[0] && lex_le(a.drop_first(), b.drop_first()))
    }
}

/// The order of two digit pairs followed by more text is decided by the
/// numbers, then by what follows.
proof fn lemma_pair_order(m: nat, n: nat, rest_m: Seq<char>, rest_n: Seq<char>)
    requires
        m < 100,
        n < 100,
        m < n || (m == n && lex_le(rest_m, rest_n)),
    ensures
        lex_le(digit_pair(m) + rest_m, digit_pair(n) + rest_n),
{
    let a = digit_pair(m) + rest_m;
    let b = digit_pair(n) + rest_n;
    assert(a.drop_first().drop_first() =~= rest_m);
    assert(b.drop_first().drop_first() =~= rest_n);
    assert(a[0] == digit_char((m / 10) as int) && a.drop_first()[0] == digit_char((m % 10) as int));
    assert(b[0] == digit_char((n / 10) as int) && b.drop_first()[0] == digit_char((n % 10) as int));
    reveal_with_fuel(lex_le, 3);
}

/// The same first character keeps the order of what follows.
proof fn lemma_colon_order(rest_m: Seq<char>, rest_n: Seq<char>)
    requires
        lex_le(rest_m, rest_n),
    ensures
        lex_le(seq![':'] + rest_m, seq![':'] + rest_n),
{
    assert((seq![':'] + rest_m).drop_first() =~= rest_m);
    assert((seq![':'] + rest_n).drop_first() =~= rest_n);
}

/// Four digit pairs with colons between them.
pub open spec fn stamp(h: nat, m: nat, s: nat, c: nat) -> Seq<char> {
    digit_pair(h) + (seq![':'] + (digit_pair(m) + (seq![':'] + (digit_pair(s) + (seq![':'] + (
        digit_pair(c) + Seq::<char>::empty()))))))
}

/// Stamps are ordered as their fields are, read from the left.
proof fn lemma_stamp_order(h1: nat, m1: nat, s1: nat, c1: nat, h2: nat, m2: nat, s2: nat, c2: nat)
    requires
        h1 < 100 && m1 < 100 && s1 < 100 && c1 < 100,
        h2 < 100 && m2 < 100 && s2 < 100 && c2 < 100,
        h1 < h2 || (h1 == h2 && (m1 < m2 || (m1 == m2 && (s1 < s2 || (s1 == s2 && c1 <= c2))))),
    ensures
        lex_le(stamp(h1, m1, s1, c1), stamp(h2, m2, s2, c2)),
{
    let e = Seq::<char>::empty();
    let t4a = digit_pair(c1) + e;
    let t4b = digit_pair(c2) + e;
    let t3a = digit_pair(s1) + (seq![':'] + t4a);
    let t3b = digit_pair(s2) + (seq![':'] + t4b);
    let t2a = digit_pair(m1) + (seq![':'] + t3a);
    let t2b = digit_pair(m2) + (seq![':'] + t3b);
    if h1 == h2 {
        if m1 == m2 {
            if s1 == s2 {
                if c1 == c2 {
                    lemma_lex_refl(t4a);
                } else {
                    lemma_pair_order(c1, c2, e, e);
                }
                lemma_colon_order(t4a, t4b);
            }
            lemma_pair_order(s1, s2, seq![':'] + t4a, seq![':'] + t4b);
            lemma_colon_order(t3a, t3b);
        }
        lemma_pair_order(m1, m2, seq![':'] + t3a, seq![':'] + t3b);
        lemma_colon_order(t2a, t2b);
    }
    lemma_pair_order(h1, h2, seq![':'] + t2a, seq![':'] + t2b);
}

/// Timestamps are monotone: below a hundred hours, a later position in time
/// never has a timestamp that comes earlier in the order of strings.
pub proof fn lemma_timestamp_monotone(earlier: nat, later: nat)
    requires
        earlier <= later < HUNDRED_HOURS,
    ensures
        lex_le(timestamp_text(earlier), timestamp_text(later)),
{
    lemma_timestamp_shape(earlier);
    lemma_timestamp_shape(later);
    lemma_fields_grow(earlier, later);
    lemma_stamp_order(
        hours_of(earlier),
        minutes_of(earlier),
        seconds_of(earlier),
        centis_of(earlier),
        hours_of(later),
        minutes_of(later),
        seconds_of(later),
        centis_of(later),
    );
}

/// The four fields of a timestamp, read as one number, grow with the position.
proof fn lemma_fields_grow(earlier: nat, later: nat)
    requires
        earlier <= later,
    ensures
        ({
            let (h1, m1, s1, c1) = (
                hours_of(earlier),
                minutes_of(earlier),
                seconds_of(earlier),
                centis_of(earlier),
            );
            let (h2, m2, s2, c2) = (
                hours_of(later),
                minutes_of(later),
                seconds_of(later),
                centis_of(later),
            );
            h1 < h2 || (h1 == h2 && (m1 < m2 || (m1 == m2 && (s1 < s2 || (s1 == s2 && c1 <= c2)))))
        }),
{
    let sec1 = earlier / 16000;
    let sec2 = later / 16000;
    assert(sec1 <= sec2);
    if sec1 == sec2 {
        assert(earlier % 16000 <= later % 16000);
    } else {
        let min1 = sec1 / 60;
        let min2 = sec2 / 60;
        assert(min1 <= min2);
        assert(sec1 / 3600 == min1 / 60);
        assert(sec2 / 3600 == min2 / 60);
        if min1 == min2 {
            assert(sec1 % 60 < sec2 % 60);
        } else {
            assert(min1 / 60 <= min2 / 60);
            if min1 / 60 == min2 / 60 {
                assert(min1 % 60 < min2 % 60);
            }
        }
    }
}

proof fn lemma_lex_refl(a: Seq<char>)
    ensures
        lex_le(a, a),
    decreases a.len(),
{
    if a.len() > 0 {
        lemma_lex_refl(a.drop_first());
    }
}

// ---------------------------------------------------------------------------
// Lines
// ---------------------------------------------------------------------------

/// The line for a segment in which `text` was recognised.
pub open spec fn line_text(segment: SpeechSegment, text: Seq<char>) -> Seq<char> {
    timestamp_text(segment.start as nat) + " - "@ + timestamp_text(segment.end as nat) + "  --  "@
        + trimmed(text)
}

/// What a segment adds to the transcript: a line where text was recognised
/// that is not only white space, else nothing.
pub open spec fn line_for(segment: SpeechSegment, recognised: Option<Seq<char>>) -> Option<
    Seq<char>,
> {
    match recognised {
        Some(text) => if trimmed(text).len() > 0 {
            Some(line_text(segment, text))
        } else {
            None
        },
        None => None,
    }
}

/// Makes the transcript line of a segment, unless the recognised text is
/// empty or only white space.
pub fn transcript_line(segment: &SpeechSegment, text: &str) -> (line: Option<String>)
    ensures
        match line {
            Some(l) => line_for(*segment, Some(text@)) == Some(l@),
            None => line_for(*segment, Some(text@)).is_none(),
        },
{
    let content = trim(text);
    if content.unicode_len() == 0 {
        return None;
    }
    let mut line = format_timestamp(segment.start);
    line.append(" - ");
    let end_time = format_timestamp(segment.end);
    line.append(end_time.as_str());
    line.append("  --  ");
    line.append(content);
    Some(line)
}

/// The lines joined by single line feeds.
pub open spec fn joined(lines: Seq<Seq<char>>) -> Seq<char>
    decreases lines.len(),
{
    if lines.len() == 0 {
        Seq::empty()
    } else if lines.len() == 1 {
        lines[0]
    } else {
        joined(lines.drop_last()) + seq!['\n'] + lines.last()
    }
}

/// The texts of a list of strings.
pub open spec fn texts(lines: Seq<String>) -> Seq<Seq<char>> {
    Seq::new(lines.len(), |i: int| lines[i]@)
}

/// Joins the lines by single line feeds.
pub fn join_lines(lines: &Vec<String>) -> (transcript: String)
    ensures
        transcript@ == joined(texts(lines@)),
{
    let mut transcript = String::new();
    let mut i: usize = 0;
    proof {
        reveal_strlit("\n");
        assert("\n"@ =~= seq!['\n']);
        assert(texts(lines@).take(0) =~= Seq::<Seq<char>>::empty());
    }
    while i < lines.len()
        invariant
            i <= lines.len(),
            "\n"@ == seq!['\n'],
            transcript@ == joined(texts(lines@).take(i as int)),
        decreases lines.len() - i,
    {
        proof {
            let upto = texts(lines@).take(i + 1);
            assert(upto.drop_last() =~= texts(lines@).take(i as int));
            assert(upto.last() == lines@[i as int]@);
        }
        if i > 0 {
            transcript.append("\n");
        }
        transcript.append(lines[i].as_str());
        proof {
            assert(transcript@ =~= joined(texts(lines@).take(i + 1)));
        }
        i = i + 1;
    }
    proof {
        assert(texts(lines@).take(i as int) =~= texts(lines@));
    }
    transcript
}

// ---------------------------------------------------------------------------
// The session
// ---------------------------------------------------------------------------

/// What a session has come to: the segments, how many of them are dealt
/// with, and the lines so far.
pub struct SessionState {
    pub segments: Seq<SpeechSegment>,
    pub next: nat,
    pub lines: Seq<Seq<char>>,
}

/// A transcription in progress. The caller asks for the segment to
/// recognise next, runs the recogniser on it and hands back the outcome,
/// until no segment is left.
pub struct TranscriptSession {
    segments: Vec<SpeechSegment>,
    next: usize,
    lines: Vec<String>,
}

impl SessionState {
    /// The state after the recogniser answered for the segment at `next`;
    /// `None` stands for a failure, which only skips the segment.
    pub open spec fn answered(self, recognised: Option<Seq<char>>) -> SessionState {
        SessionState {
            next: self.next + 1,
            lines: match line_for(self.segments[self.next as int], recognised) {
                Some(line) => self.lines.push(line),
                None => self.lines,
            },
            ..self
        }
    }
}

/// What the recogniser said, if it did not fail.
pub open spec fn recognised_text(outcome: Result<String, AudioError>) -> Option<Seq<char>> {
    match outcome {
        Ok(text) => Some(text@),
        Err(_) => None,
    }
}

impl TranscriptSession {
    pub closed spec fn view(&self) -> SessionState {
        SessionState {
            segments: self.segments@,
            next: self.next as nat,
            lines: texts(self.lines@),
        }
    }

    /// No more segments are dealt with than there are.
    pub open spec fn wf(&self) -> bool {
        self@.next <= self@.segments.len()
    }

    /// Starts a transcription of the given segments.
    pub fn new(segments: Vec<SpeechSegment>) -> (session: Self)
        ensures
            session.wf(),
            session@ == (SessionState { segments: segments@, next: 0, lines: Seq::empty() }),
    {
        let session = TranscriptSession { segments, next: 0, lines: Vec::new() };
        proof {
            assert(texts(session.lines@) =~= Seq::<Seq<char>>::empty());
        }
        session
    }

    /// The segment to recognise next, or `None` when all are dealt with.
    pub fn current(&self) -> (segment: Option<SpeechSegment>)
        requires
            self.wf(),
        ensures
            segment == (if self@.next < self@.segments.len() {
                Some(self@.segments[self@.next as int])
            } else {
                None
            }),
    {
        if self.next < self.segments.len() {
            Some(self.segments[self.next])
        } else {
            None
        }
    }

    /// Takes the recogniser's outcome for the current segment. Text that is
    /// not only white space becomes a line; an error or empty text only
    /// moves the session on.
    pub fn accept(&mut self, outcome: Result<String, AudioError>)
        requires
            old(self).wf(),
            old(self)@.next < old(self)@.segments.len(),
        ensures
            final(self).wf(),
            final(self)@ == old(self)@.answered(recognised_text(outcome)),
    {
        assert(self.next < self.segments.len());
        let segment: SpeechSegment = self.segments[self.next];
        let ghost lines_before = texts(self.lines@);
        match outcome {
            Ok(text) => {
                match transcript_line(&segment, text.as_str()) {
                    Some(line) => {
                        self.lines.push(line);
                        proof {
                            assert(texts(self.lines@) =~= lines_before.push(line@));
                        }
                    },
                    None => {},
                }
            },
            Err(_) => {},
        }
        self.next = self.next + 1;
    }

    /// The transcript: the lines so far, joined by line feeds.
    pub fn finish(self) -> (transcript: String)
        ensures
            transcript@ == joined(self@.lines),
    {
        join_lines(&self.lines)
    }
}

/// The lines of a transcription of `segments` whose first `n` segments got
/// the outcomes `recognised`.
pub open spec fn lines_after(
    segments: Seq<SpeechSegment>,
    recognised: Seq<Option<Seq<char>>>,
    n: int,
) -> Seq<Seq<char>>
    decreases n,
{
    if n <= 0 {
        Seq::empty()
    } else {
        match line_for(segments[n - 1], recognised[n - 1]) {
            Some(line) => lines_after(segments, recognised, n - 1).push(line),
            None => lines_after(segments, recognised, n - 1),
        }
    }
}

/// The transcript follows the order of the segments: the lines of the first
/// `n + 1` outcomes are those of the first `n` and then, at most, the line
/// of segment `n`. A session that has taken `n` outcomes holds exactly these lines.
pub proof fn lemma_session_lines(state: SessionState, recognised: Seq<Option<Seq<char>>>, n: int)
    requires
        0 <= n < state.segments.len(),
        n < recognised.len(),
        state.next == n,
        state.lines == lines_after(state.segments, recognised, n),
    ensures
        state.answered(recognised[n]).lines == lines_after(state.segments, recognised, n + 1),
        state.answered(recognised[n]).next == n + 1,
{
}

} // verus!
