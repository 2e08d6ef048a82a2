//! Framing of a child's output stream into lines.
//!
//! Bytes are gathered until a newline; the gathered bytes are then decoded as
//! UTF-8 into one line event, or a decoding error for that line alone. The
//! stream ends with one end-of-stream event, after a read error too.

use std::string::FromUtf8Error;
use vstd::prelude::*;
use vstd::utf8::{decode_utf8, encode_utf8, valid_utf8, decode_utf8_encode_utf8};

verus! {

#[verifier::external_type_specification]
#[verifier::external_body]
pub struct ExFromUtf8Error(FromUtf8Error);

#[verifier::external_type_specification]
#[verifier::external_body]
pub struct ExIoError(std::io::Error);

/// Why a line could not be delivered.
#[derive(Debug)]
pub enum PipeError {
    /// Reading the stream failed.
    IO(std::io::Error),
    /// The line is not valid UTF-8.
    NotUtf8(FromUtf8Error),
}

/// A line of text, without its newline, or the end of the stream.
#[derive(Debug)]
pub enum PipedLine {
    Line(String),
    EOF,
}

/// What one read of one byte from the stream gave.
#[derive(Debug)]
pub enum ReadOutcome {
    Byte(u8),
    End,
    Failed(std::io::Error),
}

/// An event as the contracts see it.
pub enum LineEvent {
    Text(Seq<char>),
    NotUtf8,
    IoError,
    End,
}

pub open spec fn event_view(e: &Result<PipedLine, PipeError>) -> LineEvent {
    match e {
        Ok(PipedLine::Line(s)) => LineEvent::Text(s@),
        Ok(PipedLine::EOF) => LineEvent::End,
        Err(PipeError::IO(_)) => LineEvent::IoError,
        Err(PipeError::NotUtf8(_)) => LineEvent::NotUtf8,
    }
}

pub open spec fn events_view(v: Seq<Result<PipedLine, PipeError>>) -> Seq<LineEvent> {
    Seq::new(v.len(), |i: int| event_view(&v[i]))
}

/// The event for the bytes of one line.
pub open spec fn line_event(bytes: Seq<u8>) -> LineEvent {
    if valid_utf8(bytes) {
        LineEvent::Text(decode_utf8(bytes))
    } else {
        LineEvent::NotUtf8
    }
}

/// The line events for `input`, with `pending` gathered before it; bytes after
/// the last newline give no event.
pub open spec fn frame(pending: Seq<u8>, input: Seq<u8>) -> Seq<LineEvent>
    decreases input.len(),
{
    if input.len() == 0 {
        Seq::empty()
    } else if input[0] == 10u8 {
        seq![line_event(pending)] + frame(Seq::empty(), input.drop_first())
    } else {
        frame(pending.push(input[0]), input.drop_first())
    }
}

/// The bytes gathered after the last newline of `input`.
pub open spec fn pending_after(pending: Seq<u8>, input: Seq<u8>) -> Seq<u8>
    decreases input.len(),
{
    if input.len() == 0 {
        pending
    } else if input[0] == 10u8 {
        pending_after(Seq::empty(), input.drop_first())
    } else {
        pending_after(pending.push(input[0]), input.drop_first())
    }
}

/// Relies on String::from_utf8: it succeeds exactly on valid UTF-8, and the
/// string then holds the characters those bytes encode.
#[verifier::external_body]
fn decode_line(bytes: Vec<u8>) -> (r: Result<String, FromUtf8Error>)
    ensures
        r is Ok == valid_utf8(bytes@),
        r matches Ok(s) ==> s@ == decode_utf8(bytes@),
{
    String::from_utf8(bytes)
}

/// Gathers the bytes of one stream into line events.
pub struct LineAssembler {
    pending: Vec<u8>,
    ended: bool,
}

impl LineAssembler {
    /// The bytes gathered since the last newline.
    pub closed spec fn pending(&self) -> Seq<u8> {
        self.pending@
    }

    /// True once the end-of-stream event has been given.
    pub closed spec fn ended(&self) -> bool {
        self.ended
    }

    /// An assembler at the start of a stream.
    pub fn new() -> (r: LineAssembler)
        ensures
            r.pending() == Seq::<u8>::empty(),
            !r.ended(),
    {
        LineAssembler { pending: Vec::new(), ended: false }
    }

    /// True once the stream has ended and nothing more will be read.
    pub fn is_ended(&self) -> (r: bool)
        ensures
            r == self.ended(),
    {
        self.ended
    }

    /// Takes what one read gave and returns the events it completes: a line at
    /// a newline, the end at the end of the stream, and an I/O error followed
    /// by the end when the read failed. After the end nothing more is given.
    pub fn step(&mut self, read: ReadOutcome) -> (r: Vec<Result<PipedLine, PipeError>>)
        ensures
            old(self).ended() ==> r@.len() == 0 && *final(self) == *old(self),
            !old(self).ended() ==> match read {
                ReadOutcome::Byte(b) => if b == 10u8 {
                    events_view(r@) == seq![line_event(old(self).pending())]
                        && final(self).pending() == Seq::<u8>::empty() && !final(self).ended()
                } else {
                    r@.len() == 0 && final(self).pending() == old(self).pending().push(b)
                        && !final(self).ended()
                },
                ReadOutcome::End => events_view(r@) == seq![LineEvent::End] && final(self).ended(),
                ReadOutcome::Failed(_) => events_view(r@) == seq![LineEvent::IoError, LineEvent::End]
                    && final(self).ended(),
            },
    {
        let mut out: Vec<Result<PipedLine, PipeError>> = Vec::new();
        if self.ended {
            return out;
        }
        match read {
            ReadOutcome::Byte(b) => {
                if b == 10u8 {
                    let mut line: Vec<u8> = Vec::new();
                    std::mem::swap(&mut line, &mut self.pending);
                    let ghost bytes = line@;
                    match decode_line(line) {
                        Ok(text) => out.push(Ok(PipedLine::Line(text))),
                        Err(e) => out.push(Err(PipeError::NotUtf8(e))),
                    }
                    assert(events_view(out@) == seq![line_event(bytes)]);
                } else {
                    self.pending.push(b);
                }
            },
            ReadOutcome::End => {
                self.ended = true;
                out.push(Ok(PipedLine::EOF));
                assert(events_view(out@) == seq![LineEvent::End]);
            },
            ReadOutcome::Failed(e) => {
                self.ended = true;
                out.push(Err(PipeError::IO(e)));
                out.push(Ok(PipedLine::EOF));
                assert(events_view(out@) == seq![LineEvent::IoError, LineEvent::End]);
            },
        }
        out
    }
}

proof fn lemma_frame_step(pending: Seq<u8>, input: Seq<u8>, b: u8)
    ensures
        frame(pending, input.push(b)) == frame(pending, input) + (if b == 10u8 {
            seq![line_event(pending_after(pending, input))]
        } else {
            Seq::empty()
        }),
        pending_after(pending, input.push(b)) == if b == 10u8 {
            Seq::empty()
        } else {
            pending_after(pending, input).push(b)
        },
    decreases input.len(),
{
    assert(frame(Seq::empty(), Seq::empty()) == Seq::<LineEvent>::empty());
    assert(frame(pending.push(b), Seq::empty()) == Seq::<LineEvent>::empty());
    assert(pending_after(Seq::empty(), Seq::empty()) == Seq::<u8>::empty());
    assert(pending_after(pending.push(b), Seq::empty()) == pending.push(b));
    if input.len() == 0 {
        assert(input.push(b).drop_first() == Seq::<u8>::empty());
        assert(input.push(b)[0] == b);
    } else {
        assert(input.push(b)[0] == input[0]);
        assert(input.push(b).drop_first() == input.drop_first().push(b));
        if input[0] == 10u8 {
            lemma_frame_step(Seq::empty(), input.drop_first(), b);
        } else {
            lemma_frame_step(pending.push(input[0]), input.drop_first(), b);
        }
    }
}

/// Frames a whole stream: the events that the assembler gives for `bytes`
/// read one by one and then the end of the stream.
pub fn frame_stream(bytes: &Vec<u8>) -> (r: Vec<Result<PipedLine, PipeError>>)
    ensures
        events_view(r@) == frame(Seq::empty(), bytes@) + seq![LineEvent::End],
{
    let mut framer = LineAssembler::new();
    let mut out: Vec<Result<PipedLine, PipeError>> = Vec::new();
    let mut i: usize = 0;
    assert(bytes@.take(0) == Seq::<u8>::empty());
    while i < bytes.len()
        invariant
            i <= bytes@.len(),
            !framer.ended(),
            framer.pending() == pending_after(Seq::empty(), bytes@.take(i as int)),
            events_view(out@) == frame(Seq::empty(), bytes@.take(i as int)),
        decreases bytes@.len() - i,
    {
        let b = bytes[i];
        proof {
            lemma_frame_step(Seq::empty(), bytes@.take(i as int), b);
        }
        assert(bytes@.take(i + 1) == bytes@.take(i as int).push(b));
        let got = framer.step(ReadOutcome::Byte(b));
        let ghost before = out@;
        let mut more = got;
        out.append(&mut more);
        assert(events_view(out@) == events_view(before) + events_view(got@));
        i = i + 1;
    }
    assert(bytes@.take(bytes@.len() as int) == bytes@);
    let ghost before = out@;
    let mut last = framer.step(ReadOutcome::End);
    let ghost got = last@;
    out.append(&mut last);
    assert(events_view(out@) == events_view(before) + events_view(got));
    out
}

/// The bytes of `lines`, each followed by a newline.
pub open spec fn newline_terminated(lines: Seq<Seq<u8>>) -> Seq<u8>
    decreases lines.len(),
{
    if lines.len() == 0 {
        Seq::empty()
    } else {
        newline_terminated(lines.drop_last()) + lines.last() + seq![10u8]
    }
}

proof fn lemma_frame_append(pending: Seq<u8>, a: Seq<u8>, b: Seq<u8>)
    ensures
        frame(pending, a + b) == frame(pending, a) + frame(pending_after(pending, a), b),
        pending_after(pending, a + b) == pending_after(pending_after(pending, a), b),
    decreases a.len(),
{
    if a.len() == 0 {
        assert(a + b == b);
    } else {
        assert((a + b).drop_first() == a.drop_first() + b);
        if a[0] == 10u8 {
            lemma_frame_append(Seq::empty(), a.drop_first(), b);
        } else {
            lemma_frame_append(pending.push(a[0]), a.drop_first(), b);
        }
    }
}

proof fn lemma_frame_line(pending: Seq<u8>, line: Seq<u8>)
    requires
        !line.contains(10u8),
    ensures
        frame(pending, line + seq![10u8]) == seq![line_event(pending + line)],
        pending_after(pending, line + seq![10u8]) == Seq::<u8>::empty(),
    decreases line.len(),
{
    assert(frame(Seq::empty(), Seq::empty()) == Seq::<LineEvent>::empty());
    assert(pending_after(Seq::empty(), Seq::empty()) == Seq::<u8>::empty());
    if line.len() == 0 {
        assert(seq![10u8].drop_first() == Seq::<u8>::empty());
        assert(pending + line == pending);
        assert(line + seq![10u8] == seq![10u8]);
    } else {
        assert((line + seq![10u8])[0] == line[0]);
        assert((line + seq![10u8]).drop_first() == line.drop_first() + seq![10u8]);
        assert(!line.drop_first().contains(10u8)) by {
            if line.drop_first().contains(10u8) {
                let k = choose|k: int| 0 <= k < line.drop_first().len() && line.drop_first()[k] == 10u8;
                assert(line[k + 1] == 10u8);
            }
        }
        assert(line[0] != 10u8);
        lemma_frame_line(pending.push(line[0]), line.drop_first());
        assert(pending.push(line[0]) + line.drop_first() == pending + line);
    }
}

/// Newline-terminated lines are framed into exactly one event each, in order;
/// a line that is valid UTF-8 comes out as text whose UTF-8 encoding is the
/// line's bytes.
pub proof fn lemma_lines_framed(lines: Seq<Seq<u8>>)
    requires
        forall|i: int| 0 <= i < lines.len() ==> !(#[trigger] lines[i]).contains(10u8),
    ensures
        frame(Seq::empty(), newline_terminated(lines)) == Seq::new(
            lines.len(),
            |i: int| line_event(lines[i]),
        ),
        forall|i: int|
            0 <= i < lines.len() && valid_utf8(#[trigger] lines[i]) ==> (line_event(lines[i])
                matches LineEvent::Text(t) && encode_utf8(t) == lines[i]),
    decreases lines.len(),
{
    assert forall|i: int| 0 <= i < lines.len() && valid_utf8(#[trigger] lines[i]) implies (line_event(
        lines[i],
    ) matches LineEvent::Text(t) && encode_utf8(t) == lines[i]) by {
        decode_utf8_encode_utf8(lines[i]);
    }
    if lines.len() > 0 {
        let init = lines.drop_last();
        assert forall|i: int| 0 <= i < init.len() implies !(#[trigger] init[i]).contains(10u8) by {
            assert(init[i] == lines[i]);
        }
        lemma_lines_framed(init);
        lemma_pending_after_lines(init);
        let body = newline_terminated(init);
        let tail = lines.last() + seq![10u8];
        assert(newline_terminated(lines) == body + tail);
        lemma_frame_append(Seq::empty(), body, tail);
        assert(!lines.last().contains(10u8)) by {
            assert(lines.last() == lines[lines.len() - 1]);
        }
        lemma_frame_line(Seq::empty(), lines.last());
        assert(Seq::<u8>::empty() + lines.last() == lines.last());
        assert(Seq::new(lines.len(), |i: int| line_event(lines[i])) == Seq::new(
            init.len(),
            |i: int| line_event(init[i]),
        ).push(line_event(lines.last())));
    }
}

proof fn lemma_pending_after_lines(lines: Seq<Seq<u8>>)
    requires
        forall|i: int| 0 <= i < lines.len() ==> !(#[trigger] lines[i]).contains(10u8),
    ensures
        pending_after(Seq::empty(), newline_terminated(lines)) == Seq::<u8>::empty(),
    decreases lines.len(),
{
    if lines.len() > 0 {
        let init = lines.drop_last();
        assert forall|i: int| 0 <= i < init.len() implies !(#[trigger] init[i]).contains(10u8) by {
            assert(init[i] == lines[i]);
        }
        lemma_pending_after_lines(init);
        lemma_frame_append(Seq::empty(), newline_terminated(init), lines.last() + seq![10u8]);
        assert(newline_terminated(lines) == newline_terminated(init) + (lines.last() + seq![10u8]));
        assert(!lines.last().contains(10u8)) by {
            assert(lines.last() == lines[lines.len() - 1]);
        }
        lemma_frame_line(Seq::empty(), lines.last());
    }
}

} // verus!
