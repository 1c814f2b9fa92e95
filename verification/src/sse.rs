//! Incremental reading of Server-Sent Events.
//!
//! The stream is cut into lines at `\n` bytes. A line that begins with `data:`
//! adds one line to the payload of the event under construction; an empty line
//! ends that event; every other line is ignored.

use vstd::prelude::*;
use vstd::slice::*;
use vstd::string::*;
use vstd::utf8::*;

use crate::text::{chars_of, lossy_text, starts_with};

verus! {

/// The byte that ends a line.
pub const NEWLINE: u8 = 10;

/// The byte that may stand before the end of a line.
pub const CARRIAGE_RETURN: u8 = 13;

/// What a parser remembers between two chunks: the bytes of the unfinished
/// line, and the payload lines of the unfinished event.
#[verifier::ext_equal]
pub struct SseState {
    pub buffer: Seq<u8>,
    pub data: Seq<Seq<char>>,
}

/// What reading some bytes leads to: the state afterwards and the payloads of
/// the events that were completed.
#[verifier::ext_equal]
pub struct SseReading {
    pub state: SseState,
    pub events: Seq<Seq<char>>,
}

/// `line` without the line feeds and carriage returns that it ends with.
pub open spec fn without_line_end(line: Seq<char>) -> Seq<char>
    decreases line.len(),
{
    if line.len() > 0 && (line.last() == '\n' || line.last() == '\r') {
        without_line_end(line.drop_last())
    } else {
        line
    }
}

/// The text of the raw line `raw`.
pub open spec fn line_text(raw: Seq<u8>) -> Seq<char> {
    without_line_end(crate::text::decoded(raw))
}

/// The payload that `line` carries, if it is a `data:` line: what follows the
/// colon, less one leading space.
pub open spec fn payload(line: Seq<char>) -> Option<Seq<char>> {
    if "data:"@.is_prefix_of(line) {
        let rest = line.skip("data:"@.len() as int);
        if rest.len() > 0 && rest[0] == ' ' {
            Some(rest.skip(1))
        } else {
            Some(rest)
        }
    } else {
        None
    }
}

/// `lines` with a line feed between each two.
pub open spec fn joined(lines: Seq<Seq<char>>) -> Seq<char>
    decreases lines.len(),
{
    if lines.len() == 0 {
        Seq::empty()
    } else if lines.len() == 1 {
        lines[0]
    } else {
        joined(lines.drop_last()) + seq!['\n'] + lines.last()
    }
}

/// The payload lines held after the line `line`.
pub open spec fn data_after_line(data: Seq<Seq<char>>, line: Seq<char>) -> Seq<Seq<char>> {
    if line.len() == 0 {
        Seq::empty()
    } else {
        match payload(line) {
            Some(more) => data.push(more),
            None => data,
        }
    }
}

/// The event that the line `line` completes, if any.
pub open spec fn events_of_line(data: Seq<Seq<char>>, line: Seq<char>) -> Seq<Seq<char>> {
    if line.len() == 0 && data.len() > 0 {
        seq![joined(data)]
    } else {
        Seq::empty()
    }
}

/// What one more byte makes of a reading.
pub open spec fn after_byte(reading: SseReading, byte: u8) -> SseReading {
    let raw = reading.state.buffer.push(byte);
    if byte == NEWLINE {
        let line = line_text(raw);
        SseReading {
            state: SseState {
                buffer: Seq::empty(),
                data: data_after_line(reading.state.data, line),
            },
            events: reading.events + events_of_line(reading.state.data, line),
        }
    } else {
        SseReading { state: SseState { buffer: raw, ..reading.state }, ..reading }
    }
}

impl SseState {
    /// The state in which nothing was read yet.
    pub open spec fn fresh() -> SseState {
        SseState { buffer: Seq::empty(), data: Seq::empty() }
    }

    /// What reading `chunk` from this state leads to.
    pub open spec fn read(self, chunk: Seq<u8>) -> SseReading
        decreases chunk.len(),
    {
        if chunk.len() == 0 {
            SseReading { state: self, events: Seq::empty() }
        } else {
            after_byte(self.read(chunk.drop_last()), chunk.last())
        }
    }
}

/// Incremental parser of an event stream. It is fed raw bytes, in chunks cut
/// anywhere, and hands out the payload of each completed event.
pub struct SseParser {
    buffer: Vec<u8>,
    data_lines: Vec<String>,
}

impl View for SseParser {
    type V = SseState;

    closed spec fn view(&self) -> SseState {
        SseState { buffer: self.buffer@, data: crate::text::texts(self.data_lines@) }
    }
}

impl Default for SseParser {
    fn default() -> (parser: Self)
        ensures
            parser@ == SseState::fresh(),
    {
        let parser = SseParser { buffer: Vec::new(), data_lines: Vec::new() };
        assert(crate::text::texts(parser.data_lines@) =~= Seq::<Seq<char>>::empty());
        parser
    }
}

/// Joins `lines` with line feeds.
fn join_lines(lines: &Vec<String>) -> (text: String)
    ensures
        text@ == joined(crate::text::texts(lines@)),
{
    let mut text = String::new();
    proof {
        reveal_strlit("\n");
    }
    for i in 0..lines.len()
        invariant
            text@ == joined(crate::text::texts(lines@).take(i as int)),
            "\n"@ == seq!['\n'],
    {
        if i > 0 {
            text.append("\n");
        }
        text.append(lines[i].as_str());
        proof {
            let all = crate::text::texts(lines@);
            assert(all.take(i + 1).drop_last() =~= all.take(i as int));
            assert(all.take(i + 1).last() == lines@[i as int]@);
        }
    }
    assert(crate::text::texts(lines@).take(lines@.len() as int) =~= crate::text::texts(lines@));
    text
}

/// The text of a raw line, without its line end.
fn read_line(raw: &Vec<u8>) -> (line: String)
    ensures
        line@ == line_text(raw@),
{
    let whole = lossy_text(raw.as_slice());
    let chars = chars_of(whole.as_str());
    let mut end: usize = chars.len();
    assert(whole@.take(end as int) =~= whole@);
    while end > 0 && (chars[end - 1] == '\n' || chars[end - 1] == '\r')
        invariant
            end <= chars.len(),
            chars@ == whole@,
            without_line_end(whole@) == without_line_end(whole@.take(end as int)),
        decreases end,
    {
        assert(whole@.take(end as int).drop_last() =~= whole@.take(end - 1));
        end = end - 1;
    }
    whole.as_str().substring_char(0, end).to_string()
}

/// The payload of a line, if it is a `data:` line.
fn read_payload(line: &String) -> (data: Option<String>)
    ensures
        match data {
            Some(text) => payload(line@) == Some(text@),
            None => payload(line@) is None,
        },
{
    let chars = chars_of(line.as_str());
    if !starts_with(&chars, "data:") {
        return None;
    }
    proof {
        reveal_strlit("data:");
    }
    let n: usize = chars.len();
    if n > 5 && chars[5] == ' ' {
        assert(line@.skip(5).skip(1) =~= line@.subrange(6, n as int));
        Some(line.as_str().substring_char(6, n).to_string())
    } else {
        assert(line@.skip(5) =~= line@.subrange(5, n as int));
        Some(line.as_str().substring_char(5, n).to_string())
    }
}

impl SseParser {
    /// Reads `chunk` and returns the payloads of the events that it completes.
    pub fn push(&mut self, chunk: &[u8]) -> (events: Vec<String>)
        ensures
            (SseReading { state: final(self)@, events: crate::text::texts(events@) })
                == old(self)@.read(chunk@),
    {
        let mut events: Vec<String> = Vec::new();
        assert(crate::text::texts(events@) =~= Seq::<Seq<char>>::empty());
        for i in 0..chunk.len()
            invariant
                (SseReading { state: self@, events: crate::text::texts(events@) })
                    == old(self)@.read(chunk@.take(i as int)),
        {
            let ghost before = SseReading { state: self@, events: crate::text::texts(events@) };
            let byte: u8 = chunk[i];
            proof {
                assert(chunk@.take(i + 1).drop_last() =~= chunk@.take(i as int));
                assert(chunk@.take(i + 1).last() == byte);
            }
            self.buffer.push(byte);
            if byte == NEWLINE {
                let line = read_line(&self.buffer);
                self.buffer.clear();
                if line.as_str().is_empty() {
                    if !self.data_lines.is_empty() {
                        let event = join_lines(&self.data_lines);
                        proof {
                            assert(crate::text::texts(events@.push(event)) =~= crate::text::texts(
                                events@,
                            ).push(event@));
                        }
                        events.push(event);
                        self.data_lines.clear();
                    }
                    assert(crate::text::texts(self.data_lines@) =~= Seq::<Seq<char>>::empty());
                } else if let Some(data) = read_payload(&line) {
                    proof {
                        assert(crate::text::texts(self.data_lines@.push(data))
                            =~= crate::text::texts(self.data_lines@).push(data@));
                    }
                    self.data_lines.push(data);
                }
            }
            assert((SseReading { state: self@, events: crate::text::texts(events@) })
                =~= after_byte(before, byte));
        }
        assert(chunk@.take(chunk@.len() as int) =~= chunk@);
        events
    }
}

/// A stream may be cut into chunks anywhere: reading `a` and then `b` gives
/// the events and the state that reading both at once gives.
pub proof fn law_chunks_may_be_cut_anywhere(state: SseState, a: Seq<u8>, b: Seq<u8>)
    ensures
        state.read(a + b).state == state.read(a).state.read(b).state,
        state.read(a + b).events == state.read(a).events + state.read(a).state.read(b).events,
    decreases b.len(),
{
    if b.len() == 0 {
        assert(a + b =~= a);
    } else {
        law_chunks_may_be_cut_anywhere(state, a, b.drop_last());
        assert((a + b).drop_last() =~= a + b.drop_last());
        assert((a + b).last() == b.last());
        assert(state.read(a + b).events =~= state.read(a).events + state.read(a).state.read(
            b,
        ).events);
    }
}

/// The bytes held back for the next chunk never hold the end of a line.
pub proof fn law_held_bytes_are_an_unfinished_line(state: SseState, chunk: Seq<u8>)
    requires
        !state.buffer.contains(NEWLINE),
    ensures
        !state.read(chunk).state.buffer.contains(NEWLINE),
    decreases chunk.len(),
{
    if chunk.len() > 0 {
        law_held_bytes_are_an_unfinished_line(state, chunk.drop_last());
        let before = state.read(chunk.drop_last()).state.buffer;
        if chunk.last() != NEWLINE {
            assert forall|i: int| 0 <= i < before.push(chunk.last()).len() implies before.push(
                chunk.last(),
            )[i] != NEWLINE by {
                if i < before.len() {
                    assert(before.contains(before[i]));
                }
            }
        }
    }
}

impl SseState {
    /// What reading `chunks`, one after the other, leads to.
    pub open spec fn read_all(self, chunks: Seq<Seq<u8>>) -> SseReading
        decreases chunks.len(),
    {
        if chunks.len() == 0 {
            SseReading { state: self, events: Seq::empty() }
        } else {
            let before = self.read_all(chunks.drop_last());
            let last = before.state.read(chunks.last());
            SseReading { state: last.state, events: before.events + last.events }
        }
    }
}

/// The bytes of `chunks`, one chunk after the other.
pub open spec fn concatenated(chunks: Seq<Seq<u8>>) -> Seq<u8>
    decreases chunks.len(),
{
    if chunks.len() == 0 {
        Seq::empty()
    } else {
        concatenated(chunks.drop_last()) + chunks.last()
    }
}

/// Any number of chunks, read one after the other, give what their bytes give,
/// read at once.
pub proof fn law_chunks_read_as_their_bytes(state: SseState, chunks: Seq<Seq<u8>>)
    ensures
        state.read_all(chunks) == state.read(concatenated(chunks)),
    decreases chunks.len(),
{
    if chunks.len() > 0 {
        law_chunks_read_as_their_bytes(state, chunks.drop_last());
        law_chunks_may_be_cut_anywhere(state, concatenated(chunks.drop_last()), chunks.last());
    }
}

/// The bytes behind the last line feed of `bytes`; all of them where there is
/// none.
pub open spec fn unfinished_line(bytes: Seq<u8>) -> Seq<u8>
    decreases bytes.len(),
{
    if bytes.len() == 0 || bytes.last() == NEWLINE {
        Seq::empty()
    } else {
        unfinished_line(bytes.drop_last()).push(bytes.last())
    }
}

proof fn lemma_unfinished_line(bytes: Seq<u8>)
    ensures
        SseState::fresh().read(bytes).state.buffer == unfinished_line(bytes),
        !unfinished_line(bytes).contains(NEWLINE),
        unfinished_line(bytes).len() <= bytes.len(),
        unfinished_line(bytes) == bytes.skip(bytes.len() - unfinished_line(bytes).len()),
        unfinished_line(bytes).len() < bytes.len() ==> bytes[bytes.len() - unfinished_line(
            bytes,
        ).len() - 1] == NEWLINE,
    decreases bytes.len(),
{
    let rest = unfinished_line(bytes);
    if bytes.len() > 0 {
        let before = unfinished_line(bytes.drop_last());
        lemma_unfinished_line(bytes.drop_last());
        if bytes.last() != NEWLINE {
            assert forall|i: int| 0 <= i < rest.len() implies rest[i] != NEWLINE by {
                if i < before.len() {
                    assert(before.contains(before[i]));
                }
            }
        }
    }
    assert(rest =~= bytes.skip(bytes.len() - rest.len()));
}

/// A parser that was fed `chunks` holds back the bytes behind their last line
/// feed, all of them where there is none, and no others.
pub proof fn law_held_bytes_are_the_unfinished_line(chunks: Seq<Seq<u8>>)
    ensures
        ({
            let bytes = concatenated(chunks);
            let held = SseState::fresh().read_all(chunks).state.buffer;
            let from = bytes.len() - held.len();
            &&& held == unfinished_line(bytes)
            &&& !held.contains(NEWLINE)
            &&& 0 <= from
            &&& held == bytes.skip(from)
            &&& from > 0 ==> bytes[from - 1] == NEWLINE
        }),
{
    let bytes = concatenated(chunks);
    law_chunks_read_as_their_bytes(SseState::fresh(), chunks);
    lemma_unfinished_line(bytes);
}

/// Every payload line that a parser holds after `chunks` fits on one line,
/// whatever the bytes: it holds no line feed and does not end with a carriage
/// return.
pub proof fn law_held_payloads_are_single_lines(chunks: Seq<Seq<u8>>, i: int)
    requires
        0 <= i < SseState::fresh().read_all(chunks).state.data.len(),
    ensures
        fits_one_line(SseState::fresh().read_all(chunks).state.data[i]),
{
    law_chunks_read_as_their_bytes(SseState::fresh(), chunks);
    lemma_held_payloads(concatenated(chunks));
}

proof fn lemma_held_payloads(bytes: Seq<u8>)
    ensures
        forall|i: int|
            0 <= i < SseState::fresh().read(bytes).state.data.len() ==> fits_one_line(
                #[trigger] SseState::fresh().read(bytes).state.data[i],
            ),
    decreases bytes.len(),
{
    if bytes.len() > 0 {
        let state = SseState::fresh().read(bytes.drop_last()).state;
        lemma_held_payloads(bytes.drop_last());
        lemma_unfinished_line(bytes.drop_last());
        if bytes.last() == NEWLINE {
            let line = line_text(state.buffer.push(NEWLINE));
            let data = SseState::fresh().read(bytes).state.data;
            lemma_line_text(state.buffer);
            if payload(line) is Some {
                lemma_payload(line);
            }
            assert forall|i: int| 0 <= i < data.len() implies fits_one_line(#[trigger] data[i]) by {
                if i < state.data.len() {
                    assert(data[i] == state.data[i]);
                }
            }
        }
    }
}

/// The text of a line is that of the bytes before its end, and fits on one line.
proof fn lemma_line_text(line: Seq<u8>)
    requires
        !line.contains(NEWLINE),
    ensures
        line_text(line.push(NEWLINE)) == without_line_end(crate::text::decoded(line)),
        fits_one_line(line_text(line.push(NEWLINE))),
{
    let text = crate::text::decoded(line);
    let shown = without_line_end(text);
    crate::text::lemma_decoded_push_ascii(line, NEWLINE);
    assert(text.push('\n').drop_last() =~= text);
    assert(line_text(line.push(NEWLINE)) == shown);
    lemma_without_line_end(text);
    crate::text::lemma_decoded_holds_no_other_ascii(line, NEWLINE);
    assert forall|i: int| 0 <= i < shown.len() implies shown[i] != '\n' by {
        assert(text[i] == shown[i]);
        assert(text.contains(text[i]));
    }
}

/// Removing the end of a line leaves a beginning of it that has no such end, and
/// takes off line feeds and carriage returns only.
proof fn lemma_without_line_end(line: Seq<char>)
    ensures
        without_line_end(line).is_prefix_of(line),
        forall|i: int|
            without_line_end(line).len() <= i < line.len() ==> #[trigger] line[i] == '\n' || line[i]
                == '\r',
        without_line_end(line).len() > 0 ==> without_line_end(line).last() != '\n'
            && without_line_end(line).last() != '\r',
    decreases line.len(),
{
    if line.len() > 0 && (line.last() == '\n' || line.last() == '\r') {
        let shorter = line.drop_last();
        lemma_without_line_end(shorter);
        assert forall|i: int| without_line_end(line).len() <= i < line.len() implies (
        #[trigger] line[i] == '\n' || line[i] == '\r') by {
            if i < shorter.len() {
                assert(shorter[i] == line[i]);
            }
        }
    }
}

/// A payload is the end of its line.
proof fn lemma_payload(line: Seq<char>)
    requires
        payload(line) is Some,
    ensures
        payload(line)->0.len() > 0 ==> payload(line)->0.last() == line.last(),
        payload(line)->0.contains('\n') ==> line.contains('\n'),
{
    let more = payload(line)->0;
    let from = line.len() - more.len();
    assert(forall|i: int| 0 <= i < more.len() ==> more[i] == line[from + i]);
    if more.contains('\n') {
        let i = choose|i: int| 0 <= i < more.len() && more[i] == '\n';
        assert(line[from + i] == '\n');
    }
}

/// Reading bytes that end no line only holds them back.
proof fn lemma_read_within_line(state: SseState, bytes: Seq<u8>)
    requires
        !bytes.contains(NEWLINE),
    ensures
        state.read(bytes) == (SseReading {
            state: SseState { buffer: state.buffer + bytes, data: state.data },
            events: Seq::empty(),
        }),
    decreases bytes.len(),
{
    if bytes.len() == 0 {
        assert(state.buffer + bytes =~= state.buffer);
    } else {
        assert forall|i: int| 0 <= i < bytes.drop_last().len() implies bytes.drop_last()[i]
            != NEWLINE by {
            assert(bytes.contains(bytes[i]));
        }
        lemma_read_within_line(state, bytes.drop_last());
        assert(bytes.contains(bytes.last()));
        assert((state.buffer + bytes.drop_last()).push(bytes.last()) =~= state.buffer + bytes);
    }
}

/// Bytes that end no line are only held back: they complete no event and change
/// no payload line.
pub proof fn law_unfinished_line_is_held_back(state: SseState, bytes: Seq<u8>)
    requires
        !bytes.contains(NEWLINE),
    ensures
        state.read(bytes) == (SseReading {
            state: SseState { buffer: state.buffer + bytes, data: state.data },
            events: Seq::empty(),
        }),
{
    lemma_read_within_line(state, bytes);
}

/// A line takes effect as soon as its end is read, and only by its text.
pub proof fn law_line_takes_effect_at_its_end(state: SseState, line: Seq<u8>)
    requires
        state.buffer.len() == 0,
        !line.contains(NEWLINE),
    ensures
        ({
            let text = line_text(line.push(NEWLINE));
            state.read(line.push(NEWLINE)) == (SseReading {
                state: SseState {
                    buffer: Seq::empty(),
                    data: data_after_line(state.data, text),
                },
                events: events_of_line(state.data, text),
            })
        }),
{
    lemma_read_within_line(state, line);
    assert(line.push(NEWLINE).drop_last() =~= line);
    assert(state.buffer + line =~= line);
    let text = line_text(line.push(NEWLINE));
    assert(Seq::<Seq<char>>::empty() + events_of_line(state.data, text) =~= events_of_line(
        state.data,
        text,
    ));
}

/// Comments and the fields other than `data` change nothing: neither does any
/// other line that is not empty and does not begin with `data:`.
pub proof fn law_other_lines_are_ignored(state: SseState, line: Seq<u8>)
    requires
        state.buffer.len() == 0,
        !line.contains(NEWLINE),
        line_text(line.push(NEWLINE)).len() > 0,
        !"data:"@.is_prefix_of(line_text(line.push(NEWLINE))),
    ensures
        state.read(line.push(NEWLINE)) == (SseReading { state, events: Seq::empty() }),
{
    law_line_takes_effect_at_its_end(state, line);
    assert(state.buffer =~= Seq::empty());
}

/// Cutting a stream at its line ends cuts no character: every run of whole
/// lines of valid UTF-8 is valid UTF-8 by itself.
pub proof fn law_whole_lines_of_utf8_are_utf8(bytes: Seq<u8>, from: int, to: int)
    requires
        valid_utf8(bytes),
        0 <= from <= to <= bytes.len(),
        from == 0 || bytes[from - 1] == NEWLINE,
        to == bytes.len() || (to > 0 && bytes[to - 1] == NEWLINE),
    ensures
        valid_utf8(bytes.subrange(from, to)),
{
    lemma_cut_after_newline(bytes, from);
    let rest = bytes.subrange(from, bytes.len() as int);
    if to == from {
        assert(bytes.subrange(from, to) =~= Seq::<u8>::empty());
    } else {
        lemma_cut_after_newline(rest, to - from);
        assert(rest.subrange(0, to - from) =~= bytes.subrange(from, to));
    }
}

proof fn lemma_cut_after_newline(bytes: Seq<u8>, at: int)
    requires
        valid_utf8(bytes),
        0 <= at <= bytes.len(),
        at == 0 || at == bytes.len() || bytes[at - 1] == NEWLINE,
    ensures
        valid_utf8(bytes.subrange(0, at)),
        valid_utf8(bytes.subrange(at, bytes.len() as int)),
    decreases bytes.len(),
{
    if at == 0 {
        assert(bytes.subrange(0, at) =~= Seq::<u8>::empty());
        assert(bytes.subrange(at, bytes.len() as int) =~= bytes);
    } else if at == bytes.len() {
        assert(bytes.subrange(0, at) =~= bytes);
        assert(bytes.subrange(at, bytes.len() as int) =~= Seq::<u8>::empty());
    } else {
        crate::text::lemma_boundary_after_ascii(bytes, at);
        valid_utf8_split(bytes, at);
    }
}

/// Text that fits on one line of an event: it holds no line feed and does not
/// end with a carriage return.
pub open spec fn fits_one_line(text: Seq<char>) -> bool {
    &&& !text.contains('\n')
    &&& text.len() > 0 ==> text.last() != '\r'
}

/// The `data:` lines that carry `lines`, as a server writes them.
pub open spec fn data_source(lines: Seq<Seq<char>>) -> Seq<u8>
    decreases lines.len(),
{
    if lines.len() == 0 {
        Seq::empty()
    } else {
        data_source(lines.drop_last()) + encode_utf8("data: "@ + lines.last()).push(NEWLINE)
    }
}

/// An event is read back as it was written: its `data:` lines and an empty line
/// give one event, the lines joined with line feeds, and nothing is left over.
pub proof fn law_event_is_read_back(lines: Seq<Seq<char>>)
    requires
        lines.len() > 0,
        forall|i: int| 0 <= i < lines.len() ==> fits_one_line(#[trigger] lines[i]),
    ensures
        ({
            let clean = SseState::fresh();
            clean.read(data_source(lines).push(NEWLINE)) == (SseReading {
                state: clean,
                events: seq![joined(lines)],
            })
        }),
{
    let clean = SseState::fresh();
    let source = data_source(lines);
    let empty = Seq::<u8>::empty();
    lemma_read_data_source(lines);
    let held = clean.read(source).state;
    law_chunks_may_be_cut_anywhere(clean, source, empty.push(NEWLINE));
    assert(source + empty.push(NEWLINE) =~= source.push(NEWLINE));
    law_line_takes_effect_at_its_end(held, empty);
    lemma_line_text_of_encoding(Seq::empty());
    assert(encode_utf8(Seq::empty()) =~= empty);
    assert(Seq::<Seq<char>>::empty() + seq![joined(lines)] =~= seq![joined(lines)]);
}

proof fn lemma_read_data_source(lines: Seq<Seq<char>>)
    requires
        forall|i: int| 0 <= i < lines.len() ==> fits_one_line(#[trigger] lines[i]),
    ensures
        SseState::fresh().read(data_source(lines)) == (SseReading {
            state: SseState { buffer: Seq::empty(), data: lines },
            events: Seq::empty(),
        }),
    decreases lines.len(),
{
    let clean = SseState::fresh();
    if lines.len() == 0 {
        assert(lines =~= Seq::empty());
    } else {
        let before = lines.drop_last();
        assert forall|i: int| 0 <= i < before.len() implies fits_one_line(#[trigger] before[i]) by {
            assert(before[i] == lines[i]);
        }
        lemma_read_data_source(before);
        let text = "data: "@ + lines.last();
        let line = encode_utf8(text);
        let held = SseState { buffer: Seq::empty(), data: before };
        law_chunks_may_be_cut_anywhere(clean, data_source(before), line.push(NEWLINE));
        reveal_strlit("data: ");
        reveal_strlit("data:");
        assert(fits_one_line(lines.last()));
        assert forall|i: int| 0 <= i < text.len() implies text[i] != '\n' by {
            if i >= 6 {
                assert(lines.last().contains(lines.last()[i - 6]));
            }
        }
        lemma_encoding_without_newline(text);
        law_line_takes_effect_at_its_end(held, line);
        lemma_line_text_of_encoding(text);
        assert("data:"@ =~= text.subrange(0, 5));
        assert(text.skip(5).skip(1) =~= lines.last());
        assert(before.push(lines.last()) =~= lines);
        assert(Seq::<Seq<char>>::empty() + Seq::<Seq<char>>::empty() =~= Seq::empty());
    }
}

/// A line written in UTF-8 is read as its own text.
proof fn lemma_line_text_of_encoding(text: Seq<char>)
    requires
        text.len() > 0 ==> text.last() != '\n' && text.last() != '\r',
    ensures
        line_text(encode_utf8(text).push(NEWLINE)) == text,
{
    encode_utf8_valid_utf8(text);
    encode_utf8_decode_utf8(text);
    crate::text::lemma_decoded_utf8(encode_utf8(text));
    crate::text::lemma_decoded_push_ascii(encode_utf8(text), NEWLINE);
    assert(text.push('\n').drop_last() =~= text);
    reveal_with_fuel(without_line_end, 2);
}

proof fn lemma_scalar_without_newline(c: u32)
    requires
        c != 10,
    ensures
        forall|i: int|
            0 <= i < encode_scalar(c).len() ==> #[trigger] encode_scalar(c)[i] != NEWLINE,
{
    assert(c <= 0x7F ==> (c & 0x7F) as u8 == c) by (bit_vector);
    assert(0xC0u8 | ((c >> 6) & 0x1F) as u8 != 10u8) by (bit_vector);
    assert(0xE0u8 | ((c >> 12) & 0x0F) as u8 != 10u8) by (bit_vector);
    assert(0xF0u8 | ((c >> 18) & 0x7) as u8 != 10u8) by (bit_vector);
    assert(0x80u8 | (c & 0x3F) as u8 != 10u8) by (bit_vector);
    assert(0x80u8 | ((c >> 6) & 0x3F) as u8 != 10u8) by (bit_vector);
    assert(0x80u8 | ((c >> 12) & 0x3F) as u8 != 10u8) by (bit_vector);
}

proof fn lemma_encoding_without_newline(text: Seq<char>)
    requires
        forall|i: int| 0 <= i < text.len() ==> text[i] != '\n',
    ensures
        !encode_utf8(text).contains(NEWLINE),
    decreases text.len(),
{
    if text.len() > 0 {
        char_is_scalar(text[0]);
        char_u32_cast(text[0], text[0] as u32);
        assert(text[0] != '\n');
        lemma_scalar_without_newline(text[0] as u32);
        lemma_encoding_without_newline(text.drop_first());
        let first = encode_scalar(text[0] as u32);
        let rest = encode_utf8(text.drop_first());
        assert forall|i: int| 0 <= i < (first + rest).len() implies (first + rest)[i] != NEWLINE by {
            if i >= first.len() {
                assert(rest.contains(rest[i - first.len()]));
            } else {
                assert((first + rest)[i] == first[i]);
            }
        }
    }
}

/// A line may end with a carriage return and a line feed as well: it is read as
/// the same line, whatever its bytes.
pub proof fn law_carriage_return_belongs_to_the_line_end(line: Seq<u8>)
    ensures
        line_text(line.push(CARRIAGE_RETURN).push(NEWLINE)) == line_text(line.push(NEWLINE)),
{
    let text = crate::text::decoded(line);
    let cr = text.push('\r');
    crate::text::lemma_decoded_push_ascii(line, NEWLINE);
    crate::text::lemma_decoded_push_ascii(line, CARRIAGE_RETURN);
    crate::text::lemma_decoded_push_ascii(line.push(CARRIAGE_RETURN), NEWLINE);
    assert(text.push('\n').drop_last() =~= text);
    assert(cr.push('\n').drop_last() =~= cr);
    assert(cr.drop_last() =~= text);
    reveal_with_fuel(without_line_end, 3);
}

/// `bytes` with a carriage return before every line feed.
pub open spec fn with_carriage_returns(bytes: Seq<u8>) -> Seq<u8>
    decreases bytes.len(),
{
    if bytes.len() == 0 {
        Seq::empty()
    } else if bytes.last() == NEWLINE {
        with_carriage_returns(bytes.drop_last()).push(CARRIAGE_RETURN).push(NEWLINE)
    } else {
        with_carriage_returns(bytes.drop_last()).push(bytes.last())
    }
}

/// A whole stream may end its lines with a carriage return and a line feed as
/// well: whatever its bytes, it gives the same events and leaves the parser in
/// the same state.
pub proof fn law_stream_may_use_carriage_returns(bytes: Seq<u8>)
    ensures
        SseState::fresh().read(with_carriage_returns(bytes)) == SseState::fresh().read(bytes),
    decreases bytes.len(),
{
    if bytes.len() > 0 {
        let source = with_carriage_returns(bytes.drop_last());
        let reading = SseState::fresh().read(bytes.drop_last());
        law_stream_may_use_carriage_returns(bytes.drop_last());
        if bytes.last() == NEWLINE {
            let almost = source.push(CARRIAGE_RETURN);
            law_carriage_return_belongs_to_the_line_end(reading.state.buffer);
            assert(almost.drop_last() =~= source);
            assert(almost.push(NEWLINE).drop_last() =~= almost);
            assert(SseState::fresh().read(almost) == after_byte(reading, CARRIAGE_RETURN));
        } else {
            assert(source.push(bytes.last()).drop_last() =~= source);
        }
    }
}

/// The stream on which a server writes `events`, each given by its lines.
pub open spec fn stream_source(events: Seq<Seq<Seq<char>>>) -> Seq<u8>
    decreases events.len(),
{
    if events.len() == 0 {
        Seq::empty()
    } else {
        stream_source(events.drop_last()) + data_source(events.last()).push(NEWLINE)
    }
}

/// A stream of events is read back as it was written: every event, in order,
/// and nothing else.
pub proof fn law_stream_is_read_back(events: Seq<Seq<Seq<char>>>)
    requires
        forall|i: int|
            0 <= i < events.len() ==> (#[trigger] events[i]).len() > 0 && (forall|j: int|
                0 <= j < events[i].len() ==> fits_one_line(#[trigger] events[i][j])),
    ensures
        ({
            let clean = SseState::fresh();
            clean.read(stream_source(events)) == (SseReading {
                state: clean,
                events: events.map_values(|lines: Seq<Seq<char>>| joined(lines)),
            })
        }),
    decreases events.len(),
{
    let clean = SseState::fresh();
    let payloads = events.map_values(|lines: Seq<Seq<char>>| joined(lines));
    if events.len() == 0 {
        assert(payloads =~= Seq::empty());
    } else {
        let before = events.drop_last();
        assert forall|i: int| 0 <= i < before.len() implies (#[trigger] before[i]).len() > 0 && (
        forall|j: int| 0 <= j < before[i].len() ==> fits_one_line(#[trigger] before[i][j])) by {
            assert(before[i] == events[i]);
        }
        law_stream_is_read_back(before);
        let last = events.last();
        assert(last == events[events.len() - 1]);
        law_event_is_read_back(last);
        law_chunks_may_be_cut_anywhere(
            clean,
            stream_source(before),
            data_source(last).push(NEWLINE),
        );
        assert(before.map_values(|lines: Seq<Seq<char>>| joined(lines)) + seq![joined(last)]
            =~= payloads);
    }
}

/// A new parser holds neither bytes nor payload lines.
pub proof fn law_new_parser_holds_nothing()
    ensures
        SseState::fresh().buffer.len() == 0,
        SseState::fresh().data.len() == 0,
{
}

/// The text of a line is that of its bytes, less the line feeds and carriage
/// returns at its end and nothing else.
pub proof fn law_only_the_line_end_is_removed(raw: Seq<u8>)
    ensures
        ({
            let whole = crate::text::decoded(raw);
            let text = line_text(raw);
            &&& text.len() <= whole.len()
            &&& forall|i: int| 0 <= i < text.len() ==> #[trigger] text[i] == whole[i]
            &&& forall|i: int|
                text.len() <= i < whole.len() ==> #[trigger] whole[i] == '\n' || whole[i] == '\r'
            &&& text.len() > 0 ==> text.last() != '\n' && text.last() != '\r'
        }),
{
    let whole = crate::text::decoded(raw);
    let text = line_text(raw);
    lemma_without_line_end(whole);
    assert forall|i: int| 0 <= i < text.len() implies #[trigger] text[i] == whole[i] by {
        assert(whole.subrange(0, text.len() as int)[i] == whole[i]);
    }
}

/// A line that begins with `data:` adds what follows to the payload lines, less
/// one space where there is one, and completes no event.
pub proof fn law_data_line_adds_its_payload(state: SseState, text: Seq<char>)
    requires
        state.buffer.len() == 0,
        !text.contains('\n'),
        text.len() > 0 ==> text.last() != '\r',
    ensures
        state.read(encode_utf8("data: "@ + text).push(NEWLINE)) == (SseReading {
            state: SseState { buffer: Seq::empty(), data: state.data.push(text) },
            events: Seq::empty(),
        }),
        text.len() == 0 || text[0] != ' ' ==> state.read(
            encode_utf8("data:"@ + text).push(NEWLINE),
        ) == (SseReading {
            state: SseState { buffer: Seq::empty(), data: state.data.push(text) },
            events: Seq::empty(),
        }),
{
    reveal_strlit("data: ");
    reveal_strlit("data:");
    let spaced = "data: "@ + text;
    let tight = "data:"@ + text;
    assert forall|i: int| 0 <= i < spaced.len() implies spaced[i] != '\n' by {
        if i >= 6 {
            assert(text.contains(text[i - 6]));
        }
    }
    assert forall|i: int| 0 <= i < tight.len() implies tight[i] != '\n' by {
        if i >= 5 {
            assert(text.contains(text[i - 5]));
        }
    }
    lemma_read_encoded_line(state, spaced);
    lemma_read_encoded_line(state, tight);
    assert("data:"@ =~= spaced.subrange(0, 5));
    assert("data:"@ =~= tight.subrange(0, 5));
    assert(spaced.skip(5).skip(1) =~= text);
    assert(tight.skip(5) =~= text);
}

/// A line of text that is not empty and does not begin with the five characters
/// `data:` is passed over: it is a comment, or one of the fields `event`, `id`
/// and `retry`, or anything else.
pub proof fn law_text_without_data_is_passed_over(state: SseState, text: Seq<char>)
    requires
        state.buffer.len() == 0,
        !text.contains('\n'),
        text.len() > 0,
        text.last() != '\r',
        !(text.len() >= 5 && text[0] == 'd' && text[1] == 'a' && text[2] == 't' && text[3] == 'a'
            && text[4] == ':'),
    ensures
        state.read(encode_utf8(text).push(NEWLINE)) == (SseReading { state, events: Seq::empty() }),
{
    reveal_strlit("data:");
    assert forall|i: int| 0 <= i < text.len() implies text[i] != '\n' by {
        assert(text.contains(text[i]));
    }
    lemma_read_encoded_line(state, text);
    if "data:"@.is_prefix_of(text) {
        let start = text.subrange(0, 5);
        assert(start[0] == 'd' && start[1] == 'a' && start[2] == 't' && start[3] == 'a' && start[4]
            == ':');
        assert(text[0] == start[0] && text[1] == start[1] && text[2] == start[2] && text[3]
            == start[3] && text[4] == start[4]);
    }
    assert(state.buffer =~= Seq::empty());
}

proof fn lemma_read_encoded_line(state: SseState, text: Seq<char>)
    requires
        state.buffer.len() == 0,
        forall|i: int| 0 <= i < text.len() ==> text[i] != '\n',
        text.len() > 0 ==> text.last() != '\r',
    ensures
        state.read(encode_utf8(text).push(NEWLINE)) == (SseReading {
            state: SseState { buffer: Seq::empty(), data: data_after_line(state.data, text) },
            events: events_of_line(state.data, text),
        }),
{
    lemma_encoding_without_newline(text);
    law_line_takes_effect_at_its_end(state, encode_utf8(text));
    lemma_line_text_of_encoding(text);
}

/// An empty line ends the event: its payload lines become one payload and are
/// held no longer. Without any there is no event.
pub proof fn law_empty_line_ends_the_event(state: SseState)
    requires
        state.buffer.len() == 0,
    ensures
        state.data.len() > 0 ==> state.read(seq![NEWLINE]) == (SseReading {
            state: SseState { buffer: Seq::empty(), data: Seq::empty() },
            events: seq![joined(state.data)],
        }),
        state.data.len() == 0 ==> state.read(seq![NEWLINE]) == (SseReading {
            state,
            events: Seq::empty(),
        }),
{
    lemma_read_encoded_line(state, Seq::empty());
    assert(encode_utf8(Seq::empty()).push(NEWLINE) =~= seq![NEWLINE]);
    assert(state.buffer =~= Seq::empty());
    if state.data.len() == 0 {
        assert(state.data =~= Seq::empty());
    }
}

/// A payload is its lines, in order, with one line feed between each two: a line
/// by itself is the payload, and each further line comes behind a line feed.
pub proof fn law_payload_is_its_lines(lines: Seq<Seq<char>>, line: Seq<char>)
    ensures
        joined(seq![line]) == line,
        lines.len() > 0 ==> joined(lines.push(line)) == joined(lines) + seq!['\n'] + line,
{
    assert(lines.push(line).drop_last() =~= lines);
}

/// Any line, in any state, may end with a carriage return and a line feed.
pub proof fn law_carriage_return_changes_no_line(state: SseState, bytes: Seq<u8>)
    ensures
        state.read(bytes.push(CARRIAGE_RETURN).push(NEWLINE)) == state.read(bytes.push(NEWLINE)),
{
    let almost = bytes.push(CARRIAGE_RETURN);
    let reading = state.read(bytes);
    law_carriage_return_belongs_to_the_line_end(reading.state.buffer);
    assert(bytes.push(NEWLINE).drop_last() =~= bytes);
    assert(almost.drop_last() =~= bytes);
    assert(almost.push(NEWLINE).drop_last() =~= almost);
    assert(state.read(almost) == after_byte(reading, CARRIAGE_RETURN));
}

} // verus!
