use vstd::prelude::*;

use super::http::Provider;
use super::parser::{
    feed_spec, find_newline, first_newline, flush_spec, lemma_feed_split, lemma_first_newline,
    lemma_first_newline_append, tail_from, SseParser, SseState,
};
use super::response::StreamChunk;
use crate::text::{chars_of, string_from_chars, trim, trimmed_range};

verus! {

/// The next non-blank line of newline-delimited text, and the text after
/// it. A line ends with `\n` and is trimmed; blank lines are skipped. With
/// no complete non-blank line left, the result is `None` and the text
/// after the skipped blank lines.
pub open spec fn next_line_spec(buf: Seq<char>) -> (Option<Seq<char>>, Seq<char>)
    decreases buf.len(),
{
    match first_newline(buf) {
        None => (None, buf),
        Some(i) => if 0 <= i < buf.len() {
            let line = trim(buf.take(i + 1));
            if line.len() == 0 {
                next_line_spec(buf.skip(i + 1))
            } else {
                (Some(line), buf.skip(i + 1))
            }
        } else {
            (None, buf)
        },
    }
}

/// What a streaming response's loop learns.
pub enum StreamInput {
    /// Nothing new: look at what is buffered.
    Resume,
    /// This text of the response body arrived.
    Bytes(String),
    /// Reading the response body failed.
    ReadFailed,
    /// The response body ended.
    Ended,
}

/// The view of a [`StreamInput`].
pub enum InputView {
    Resume,
    Bytes(Seq<char>),
    ReadFailed,
    Ended,
}

/// The view of a stream input.
pub open spec fn input_view(i: StreamInput) -> InputView {
    match i {
        StreamInput::Resume => InputView::Resume,
        StreamInput::Bytes(t) => InputView::Bytes(t@),
        StreamInput::ReadFailed => InputView::ReadFailed,
        StreamInput::Ended => InputView::Ended,
    }
}

/// What a streaming response's loop does next.
pub enum StreamAction {
    /// Parse this item (the data of an SSE event, or an NDJSON line) into a
    /// chunk, and report the outcome with `after_parse`.
    Parse(String),
    /// Parse this last item (data left when the body ended), and report
    /// the outcome with `after_parse`.
    ParseLast(String),
    /// Read more of the body.
    Read,
    /// Yield the read error; the stream then ends.
    Fail,
    /// End the stream.
    Stop,
}

/// The view of a [`StreamAction`].
pub enum ActionView {
    Parse(Seq<char>),
    ParseLast(Seq<char>),
    Read,
    Fail,
    Stop,
}

/// The view of a stream action.
pub open spec fn action_view(a: StreamAction) -> ActionView {
    match a {
        StreamAction::Parse(t) => ActionView::Parse(t@),
        StreamAction::ParseLast(t) => ActionView::ParseLast(t@),
        StreamAction::Read => ActionView::Read,
        StreamAction::Fail => ActionView::Fail,
        StreamAction::Stop => ActionView::Stop,
    }
}

/// The outcome of parsing an item.
#[derive(Debug, Clone, Copy, PartialEq, Eq, Structural)]
pub enum Parsed {
    /// A chunk came out; `finished` tells whether one of its choices has a
    /// finish reason.
    Chunk { finished: bool },
    /// The item holds no chunk (such as the `[DONE]` sentinel).
    Nothing,
    /// The item could not be parsed.
    Failed,
}

/// What follows the parse of an item.
#[derive(Debug, Clone, Copy, PartialEq, Eq, Structural)]
pub enum AfterParse {
    /// Yield the chunk.
    Yield,
    /// Go on with `Resume`.
    Continue,
    /// Yield the parse error; the stream then ends.
    YieldError,
    /// End the stream.
    Stop,
}

/// The state of a stream decoder: the provider, the SSE parser's state,
/// the newline-delimited text not yet split into lines, whether the stream
/// has ended, and whether the item being parsed is the last.
pub struct DecoderState {
    pub provider: Provider,
    pub sse: SseState,
    pub pending: Seq<char>,
    pub done: bool,
    pub last: bool,
}

/// The effect of new text on a decoder of newline-delimited JSON (Ollama):
/// the next non-blank line is the item to parse; without one, more is read.
pub open spec fn lines_advance(st: DecoderState, text: Seq<char>) -> (DecoderState, ActionView) {
    let (line, rest) = next_line_spec(st.pending + text);
    match line {
        Some(l) => (DecoderState { pending: rest, ..st }, ActionView::Parse(l)),
        None => (DecoderState { pending: rest, ..st }, ActionView::Read),
    }
}

/// The effect of new text on a decoder of SSE: the data of the next event
/// is the item to parse, looking once more at what stays buffered when the
/// text completes no event; without one, more is read.
pub open spec fn sse_advance(st: DecoderState, text: Seq<char>) -> (DecoderState, ActionView) {
    let (sse1, ev1) = feed_spec(st.sse, text);
    match ev1 {
        Some(e) => (DecoderState { sse: sse1, ..st }, ActionView::Parse(e.1)),
        None => {
            let (sse2, ev2) = feed_spec(sse1, Seq::empty());
            match ev2 {
                Some(e) => (DecoderState { sse: sse2, ..st }, ActionView::Parse(e.1)),
                None => (DecoderState { sse: sse2, ..st }, ActionView::Read),
            }
        },
    }
}

/// The effect of new text (empty to look at what is buffered).
pub open spec fn advance_spec(st: DecoderState, text: Seq<char>) -> (DecoderState, ActionView) {
    if st.provider == Provider::Ollama {
        lines_advance(st, text)
    } else {
        sse_advance(st, text)
    }
}

/// The effect of the end of the body: the stream ends, after the SSE event
/// left unterminated, if any, which is the last item to parse.
pub open spec fn end_spec(st: DecoderState) -> (DecoderState, ActionView) {
    if st.provider == Provider::Ollama {
        (DecoderState { done: true, ..st }, ActionView::Stop)
    } else {
        let (sse, ev) = flush_spec(st.sse);
        match ev {
            Some(e) => (DecoderState { sse, done: true, last: true, ..st }, ActionView::ParseLast(e.1)),
            None => (DecoderState { sse, done: true, ..st }, ActionView::Stop),
        }
    }
}

/// The effect of an input on a decoder that has not ended. Ollama streams
/// newline-delimited JSON, whose lines are the items; the other providers
/// stream SSE, whose events' data are the items. A read error ends the
/// stream with an error.
pub open spec fn step_spec(st: DecoderState, input: InputView) -> (DecoderState, ActionView) {
    match input {
        InputView::Resume => advance_spec(st, Seq::empty()),
        InputView::Bytes(t) => advance_spec(st, t),
        InputView::ReadFailed => (DecoderState { done: true, ..st }, ActionView::Fail),
        InputView::Ended => end_spec(st),
    }
}

/// The effect of a parse outcome. After the last item only a chunk is
/// yielded; otherwise a chunk is yielded (and ends an Ollama stream when it
/// is finished), an item without chunk is skipped, and a parse error is
/// yielded and ends the stream.
pub open spec fn after_parse_spec(st: DecoderState, p: Parsed) -> (DecoderState, AfterParse) {
    if st.last {
        match p {
            Parsed::Chunk { .. } => (st, AfterParse::Yield),
            _ => (st, AfterParse::Stop),
        }
    } else {
        match p {
            Parsed::Chunk { finished } => if st.provider == Provider::Ollama && finished {
                (DecoderState { done: true, ..st }, AfterParse::Yield)
            } else {
                (st, AfterParse::Yield)
            },
            Parsed::Nothing => (st, AfterParse::Continue),
            Parsed::Failed => (DecoderState { done: true, ..st }, AfterParse::YieldError),
        }
    }
}

/// The decisions of a streaming chat response: it splits the body into
/// items to parse and decides, from each outcome, what the stream yields
/// and when it ends.
pub struct StreamDecoder {
    provider: Provider,
    parser: SseParser,
    pending: Vec<char>,
    done: bool,
    last: bool,
}

impl View for StreamDecoder {
    type V = DecoderState;

    closed spec fn view(&self) -> DecoderState {
        DecoderState {
            provider: self.provider,
            sse: self.parser@,
            pending: self.pending@,
            done: self.done,
            last: self.last,
        }
    }
}

/// Appends the characters of `text` to `buf`.
fn append_chars(buf: &mut Vec<char>, text: &str)
    ensures
        final(buf)@ == old(buf)@ + text@,
{
    let cs = chars_of(text);
    let mut i: usize = 0;
    while i < cs.len()
        invariant
            i <= cs@.len(),
            cs@ == text@,
            buf@ == old(buf)@ + cs@.take(i as int),
        decreases cs.len() - i,
    {
        buf.push(cs[i]);
        i = i + 1;
        assert(buf@ =~= old(buf)@ + cs@.take(i as int));
    }
    assert(cs@.take(cs@.len() as int) =~= text@);
}

/// Takes the next non-blank line out of `buf`.
fn take_next_line(buf: &mut Vec<char>) -> (r: Option<Vec<char>>)
    ensures
        (match r {
            Some(l) => Some(l@),
            None => None,
        }, final(buf)@) == next_line_spec(old(buf)@),
{
    loop
        invariant
            next_line_spec(buf@) == next_line_spec(old(buf)@),
        decreases buf@.len(),
    {
        match find_newline(buf) {
            None => {
                return None;
            },
            Some(i) => {
                let n = buf.len();
                assert(i < n);
                let line = trimmed_range(buf, 0, i + 1);
                assert(buf@.subrange(0, i + 1) =~= buf@.take(i + 1));
                let rest = tail_from(buf, i + 1);
                *buf = rest;
                if line.len() > 0 {
                    return Some(line);
                }
            },
        }
    }
}

impl StreamDecoder {
    /// A decoder for a response of `provider` that has not begun.
    pub fn new(provider: Provider) -> (r: Self)
        ensures
            r@ == (DecoderState {
                provider,
                sse: SseState { buffer: Seq::empty(), event_type: None, data: Seq::empty() },
                pending: Seq::empty(),
                done: false,
                last: false,
            }),
    {
        let r = StreamDecoder {
            provider,
            parser: SseParser::new(),
            pending: Vec::new(),
            done: false,
            last: false,
        };
        assert(r@.pending =~= Seq::<char>::empty());
        r
    }

    /// Whether the stream has ended.
    pub fn is_done(&self) -> (r: bool)
        ensures
            r == self@.done,
    {
        self.done
    }

    /// Decides what follows an input: an ended stream only stops; otherwise
    /// as `step_spec` says.
    pub fn step(&mut self, input: StreamInput) -> (r: StreamAction)
        ensures
            old(self)@.done ==> r is Stop && final(self)@ == old(self)@,
            !old(self)@.done ==> (final(self)@, action_view(r)) == step_spec(
                old(self)@,
                input_view(input),
            ),
    {
        if self.done {
            return StreamAction::Stop;
        }
        match input {
            StreamInput::ReadFailed => {
                self.done = true;
                StreamAction::Fail
            },
            StreamInput::Ended => self.end(),
            StreamInput::Resume => {
                let r = self.advance("");
                proof {
                    reveal_strlit("");
                }
                r
            },
            StreamInput::Bytes(t) => self.advance(t.as_str()),
        }
    }

    fn end(&mut self) -> (r: StreamAction)
        ensures
            (final(self)@, action_view(r)) == end_spec(old(self)@),
    {
        self.done = true;
        if self.provider == Provider::Ollama {
            StreamAction::Stop
        } else {
            match self.parser.flush() {
                Some(e) => {
                    self.last = true;
                    StreamAction::ParseLast(e.data)
                },
                None => StreamAction::Stop,
            }
        }
    }

    fn advance(&mut self, text: &str) -> (r: StreamAction)
        ensures
            (final(self)@, action_view(r)) == advance_spec(old(self)@, text@),
    {
        if self.provider == Provider::Ollama {
            self.advance_lines(text)
        } else {
            self.advance_sse(text)
        }
    }

    fn advance_lines(&mut self, text: &str) -> (r: StreamAction)
        ensures
            (final(self)@, action_view(r)) == lines_advance(old(self)@, text@),
    {
        append_chars(&mut self.pending, text);
        match take_next_line(&mut self.pending) {
            Some(l) => StreamAction::Parse(string_from_chars(&l)),
            None => StreamAction::Read,
        }
    }

    fn advance_sse(&mut self, text: &str) -> (r: StreamAction)
        ensures
            (final(self)@, action_view(r)) == sse_advance(old(self)@, text@),
    {
        match self.parser.feed(text) {
            Some(e) => StreamAction::Parse(e.data),
            None => {
                proof {
                    reveal_strlit("");
                }
                match self.parser.feed("") {
                    Some(e) => StreamAction::Parse(e.data),
                    None => StreamAction::Read,
                }
            },
        }
    }

    /// Decides what follows the parse of the item of the last action, as
    /// `after_parse_spec` says.
    pub fn after_parse(&mut self, parsed: Parsed) -> (r: AfterParse)
        ensures
            (final(self)@, r) == after_parse_spec(old(self)@, parsed),
    {
        if self.last {
            return match parsed {
                Parsed::Chunk { .. } => AfterParse::Yield,
                _ => AfterParse::Stop,
            };
        }
        match parsed {
            Parsed::Chunk { finished } => {
                if self.provider == Provider::Ollama && finished {
                    self.done = true;
                }
                AfterParse::Yield
            },
            Parsed::Nothing => AfterParse::Continue,
            Parsed::Failed => {
                self.done = true;
                AfterParse::YieldError
            },
        }
    }
}

impl StreamChunk {
    /// Whether one of the chunk's choices has a finish reason.
    pub fn has_finish_reason(&self) -> (r: bool)
        ensures
            r == exists|i: int| 0 <= i < self.choices@.len() && (#[trigger] self.choices@[i]).finish_reason is Some,
    {
        let mut i: usize = 0;
        while i < self.choices.len()
            invariant
                i <= self.choices@.len(),
                forall|j: int| 0 <= j < i ==> (#[trigger] self.choices@[j]).finish_reason is None,
            decreases self.choices.len() - i,
        {
            if self.choices[i].finish_reason.is_some() {
                return true;
            }
            i = i + 1;
        }
        false
    }
}


/// When `buf` holds no complete non-blank line, the lines of `buf + y` are
/// those of what is left of `buf`, followed by `y`.
proof fn lemma_next_line_append(buf: Seq<char>, y: Seq<char>)
    requires
        next_line_spec(buf).0 is None,
    ensures
        next_line_spec(buf + y) == next_line_spec(next_line_spec(buf).1 + y),
    decreases buf.len(),
{
    lemma_first_newline(buf);
    match first_newline(buf) {
        None => {},
        Some(i) => {
            lemma_first_newline_append(buf, y);
            assert((buf + y).take(i + 1) =~= buf.take(i + 1));
            assert((buf + y).skip(i + 1) =~= buf.skip(i + 1) + y);
            lemma_next_line_append(buf.skip(i + 1), y);
        },
    }
}

/// Law: a streaming body may arrive split anywhere. When a piece `a`
/// completes no item (the decoder asks to read more), feeding the next
/// piece `b` has the same effect and outcome as feeding `a + b` at once.
pub proof fn lemma_decoder_split(st: DecoderState, a: Seq<char>, b: Seq<char>)
    requires
        step_spec(st, InputView::Bytes(a)).1 is Read,
    ensures
        step_spec(step_spec(st, InputView::Bytes(a)).0, InputView::Bytes(b)) == step_spec(
            st,
            InputView::Bytes(a + b),
        ),
{
    if st.provider == Provider::Ollama {
        lemma_next_line_append(st.pending + a, b);
        assert(st.pending + a + b =~= st.pending + (a + b));
    } else {
        let (s1, e1) = feed_spec(st.sse, a);
        let (s2, e2) = feed_spec(s1, Seq::empty());
        lemma_feed_split(st.sse, a, b);
        lemma_feed_split(s1, Seq::empty(), b);
        assert(Seq::<char>::empty() + b =~= b);
    }
}
}
