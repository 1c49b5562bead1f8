use vstd::prelude::*;

use super::event::SseEvent;
use crate::text::{chars_of, has_prefix, starts_with, string_from_chars, trim, trimmed_range};

verus! {

/// The state of an SSE parser: unprocessed input, and the event being
/// assembled (its type, from an `event:` line, and its data, from `data:`
/// lines joined by `\n`).
pub struct SseState {
    pub buffer: Seq<char>,
    pub event_type: Option<Seq<char>>,
    pub data: Seq<char>,
}

/// An event: its type and its data.
pub type EventView = (Option<Seq<char>>, Seq<char>);

/// `s` without its trailing `\r` characters.
pub open spec fn trim_end_cr(s: Seq<char>) -> Seq<char>
    decreases s.len(),
{
    if s.len() > 0 && s.last() == '\r' {
        trim_end_cr(s.drop_last())
    } else {
        s
    }
}

/// The index of the first `\n` in `s`, if any.
pub open spec fn first_newline(s: Seq<char>) -> Option<int> {
    if exists|i: int| 0 <= i < s.len() && s[i] == '\n' {
        Some(choose|i: int| 0 <= i < s.len() && s[i] == '\n' && forall|j: int| 0 <= j < i ==> s[j] != '\n')
    } else {
        None
    }
}

/// The effect of one complete line (without its line end) on the state.
/// A blank line ends the event being assembled: its type and data are
/// cleared, and it is emitted when its data is not empty.
pub open spec fn apply_line(st: SseState, line: Seq<char>) -> (SseState, Option<EventView>) {
    if line.len() == 0 {
        let st2 = SseState { buffer: st.buffer, event_type: None, data: Seq::empty() };
        if st.data.len() > 0 {
            (st2, Some((st.event_type, st.data)))
        } else {
            (st2, None)
        }
    } else if has_prefix(line, seq!['e', 'v', 'e', 'n', 't', ':']) {
        (SseState { event_type: Some(trim(line.skip(6))), ..st }, None)
    } else if has_prefix(line, seq!['d', 'a', 't', 'a', ':']) {
        let sep: Seq<char> = if st.data.len() > 0 {
            seq!['\n']
        } else {
            Seq::empty()
        };
        (SseState { data: st.data + sep + trim(line.skip(5)), ..st }, None)
    } else {
        (st, None)
    }
}

/// Processing the complete lines of the buffer, one at a time, until one of
/// them emits an event or no complete line is left.
pub open spec fn process(st: SseState) -> (SseState, Option<EventView>)
    decreases st.buffer.len(),
{
    match first_newline(st.buffer) {
        None => (st, None),
        Some(i) => {
            if 0 <= i < st.buffer.len() {
                let line = trim_end_cr(st.buffer.take(i));
                let st1 = SseState { buffer: st.buffer.skip(i + 1), ..st };
                let (st2, ev) = apply_line(st1, line);
                if ev is Some {
                    (st2, ev)
                } else {
                    process(st2)
                }
            } else {
                (st, None)
            }
        },
    }
}

proof fn lemma_process_step(st: SseState, line: Seq<char>, st1: SseState)
    requires
        first_newline(st.buffer) is Some,
        0 <= first_newline(st.buffer)->0 < st.buffer.len(),
        line == trim_end_cr(st.buffer.take(first_newline(st.buffer)->0)),
        st1 == (SseState { buffer: st.buffer.skip(first_newline(st.buffer)->0 + 1), ..st }),
    ensures
        process(st) == (if apply_line(st1, line).1 is Some {
            apply_line(st1, line)
        } else {
            process(apply_line(st1, line).0)
        }),
{
}

/// The effect of feeding `chunk` to a parser in state `st`.
pub open spec fn feed_spec(st: SseState, chunk: Seq<char>) -> (SseState, Option<EventView>) {
    process(SseState { buffer: st.buffer + chunk, ..st })
}

/// The effect of flushing a parser in state `st`.
pub open spec fn flush_spec(st: SseState) -> (SseState, Option<EventView>) {
    if st.data.len() == 0 {
        (st, None)
    } else {
        (
            SseState { buffer: st.buffer, event_type: None, data: Seq::empty() },
            Some((st.event_type, st.data)),
        )
    }
}

/// The view of an optional event.
pub open spec fn event_view(e: Option<SseEvent>) -> Option<EventView> {
    match e {
        Some(ev) => Some(
            (
                match ev.event_type {
                    Some(t) => Some(t@),
                    None => None,
                },
                ev.data@,
            ),
        ),
        None => None,
    }
}

/// SSE parser that handles partial/chunked input.
pub struct SseParser {
    buffer: Vec<char>,
    event_type: Option<Vec<char>>,
    data: Vec<char>,
}

impl View for SseParser {
    type V = SseState;

    closed spec fn view(&self) -> SseState {
        SseState {
            buffer: self.buffer@,
            event_type: match self.event_type {
                Some(t) => Some(t@),
                None => None,
            },
            data: self.data@,
        }
    }
}

/// Index of the first `\n` in `s`.
pub(crate) fn find_newline(s: &Vec<char>) -> (r: Option<usize>)
    ensures
        match r {
            Some(i) => first_newline(s@) == Some(i as int) && i < s@.len(),
            None => first_newline(s@) is None,
        },
{
    let mut i: usize = 0;
    while i < s.len()
        invariant
            i <= s@.len(),
            forall|j: int| 0 <= j < i ==> s@[j] != '\n',
        decreases s.len() - i,
    {
        if s[i] == '\n' {
            let ghost w = choose|k: int|
                0 <= k < s@.len() && s@[k] == '\n' && forall|j: int| 0 <= j < k ==> s@[j] != '\n';
            proof {
                assert(0 <= w < s@.len() && s@[w] == '\n');
                if w < i {
                    assert(s@[w] != '\n');
                }
                if w > i {
                    assert(s@[i as int] != '\n');
                }
            }
            return Some(i);
        }
        i = i + 1;
    }
    None
}

/// Characters `s[from..]`.
pub(crate) fn tail_from(s: &Vec<char>, from: usize) -> (r: Vec<char>)
    requires
        from <= s@.len(),
    ensures
        r@ == s@.skip(from as int),
{
    let mut r: Vec<char> = Vec::new();
    let mut i = from;
    while i < s.len()
        invariant
            from <= i <= s@.len(),
            r@ == s@.subrange(from as int, i as int),
        decreases s.len() - i,
    {
        r.push(s[i]);
        i = i + 1;
        assert(r@ =~= s@.subrange(from as int, i as int));
    }
    r
}

impl SseParser {
    /// A parser with no buffered input and no event being assembled.
    pub fn new() -> (r: Self)
        ensures
            r@ == (SseState { buffer: Seq::empty(), event_type: None, data: Seq::empty() }),
    {
        let r = SseParser { buffer: Vec::new(), event_type: None, data: Vec::new() };
        assert(r@.buffer =~= Seq::<char>::empty());
        assert(r@.data =~= Seq::<char>::empty());
        r
    }

    fn take_event(&mut self) -> (r: SseEvent)
        ensures
            final(self)@ == (SseState {
                buffer: old(self)@.buffer,
                event_type: None,
                data: Seq::empty(),
            }),
            event_view(Some(r)) == Some((old(self)@.event_type, old(self)@.data)),
    {
        let et = match self.event_type.take() {
            Some(t) => Some(string_from_chars(&t)),
            None => None,
        };
        let data = string_from_chars(&self.data);
        self.data = Vec::new();
        assert(self@.data =~= Seq::<char>::empty());
        SseEvent { event_type: et, data }
    }

    /// Removes the first complete line from the buffer and returns it
    /// without its `\n` and trailing `\r`s; `None` when no line is complete.
    fn take_line(&mut self) -> (r: Option<Vec<char>>)
        ensures
            match first_newline(old(self)@.buffer) {
                None => r is None && final(self)@ == old(self)@,
                Some(i) => {
                    &&& 0 <= i < old(self)@.buffer.len()
                    &&& r matches Some(l) && l@ == trim_end_cr(old(self)@.buffer.take(i))
                    &&& final(self)@ == (SseState { buffer: old(self)@.buffer.skip(i + 1), ..old(self)@ })
                },
            },
    {
        let idx = match find_newline(&self.buffer) {
            Some(idx) => idx,
            None => {
                return None;
            },
        };
        let mut end = idx;
        while end > 0 && self.buffer[end - 1] == '\r'
            invariant
                end <= idx < self.buffer@.len(),
                trim_end_cr(self.buffer@.take(idx as int)) == trim_end_cr(
                    self.buffer@.take(end as int),
                ),
            decreases end,
        {
            assert(self.buffer@.take(end as int).drop_last() =~= self.buffer@.take(end - 1));
            end = end - 1;
        }
        assert(trim_end_cr(self.buffer@.take(end as int)) == self.buffer@.take(end as int));
        let mut line: Vec<char> = Vec::new();
        let mut i: usize = 0;
        while i < end
            invariant
                i <= end <= idx < self.buffer@.len(),
                line@ == self.buffer@.take(i as int),
            decreases end - i,
        {
            line.push(self.buffer[i]);
            i = i + 1;
            assert(line@ =~= self.buffer@.take(i as int));
        }
        assert(idx < self.buffer.len());
        self.buffer = tail_from(&self.buffer, idx + 1);
        Some(line)
    }

    /// Applies one complete line to the event being assembled.
    fn apply(&mut self, line: &Vec<char>) -> (r: Option<SseEvent>)
        ensures
            (final(self)@, event_view(r)) == apply_line(old(self)@, line@),
            r matches Some(e) ==> e.data@.len() > 0,
    {
        let n = line.len();
        assert(line@.take(n as int) =~= line@);
        if n == 0 {
            if self.data.len() > 0 {
                let ev = self.take_event();
                Some(ev)
            } else {
                self.event_type = None;
                assert(self@.data =~= Seq::<char>::empty());
                None
            }
        } else if starts_with(line, n, "event:") {
            proof {
                reveal_strlit("event:");
                assert("event:"@ =~= seq!['e', 'v', 'e', 'n', 't', ':']);
                assert(line@.skip(6) =~= line@.subrange(6, n as int));
            }
            let t = trimmed_range(line, 6, n);
            self.event_type = Some(t);
            None
        } else if starts_with(line, n, "data:") {
            proof {
                reveal_strlit("event:");
                reveal_strlit("data:");
                assert("event:"@ =~= seq!['e', 'v', 'e', 'n', 't', ':']);
                assert("data:"@ =~= seq!['d', 'a', 't', 'a', ':']);
                assert(line@.skip(5) =~= line@.subrange(5, n as int));
            }
            let t = trimmed_range(line, 5, n);
            let ghost d0 = self.data@;
            if self.data.len() > 0 {
                self.data.push('\n');
            }
            let ghost d1 = self.data@;
            let mut j: usize = 0;
            while j < t.len()
                invariant
                    j <= t@.len(),
                    self.data@ == d1 + t@.take(j as int),
                    self.buffer == old(self).buffer,
                    self.event_type == old(self).event_type,
                decreases t.len() - j,
            {
                self.data.push(t[j]);
                j = j + 1;
                assert(self.data@ =~= d1 + t@.take(j as int));
            }
            assert(t@.take(t@.len() as int) =~= t@);
            proof {
                let sep: Seq<char> = if d0.len() > 0 {
                    seq!['\n']
                } else {
                    Seq::empty()
                };
                assert(d1 =~= d0 + sep);
                assert(self@.data =~= d0 + sep + t@);
            }
            None
        } else {
            proof {
                reveal_strlit("event:");
                reveal_strlit("data:");
                assert("event:"@ =~= seq!['e', 'v', 'e', 'n', 't', ':']);
                assert("data:"@ =~= seq!['d', 'a', 't', 'a', ':']);
            }
            None
        }
    }

    /// Appends `chunk` to the buffered input and processes its complete
    /// lines (a line ends with `\n`; trailing `\r`s are dropped). An
    /// `event:` line sets the event type, a `data:` line adds its trimmed
    /// text to the data (joined with `\n`), a blank line ends the event.
    /// Returns the first event that ends with non-empty data; the lines
    /// after it stay buffered for the next call.
    pub fn feed(&mut self, chunk: &str) -> (r: Option<SseEvent>)
        ensures
            (final(self)@, event_view(r)) == feed_spec(old(self)@, chunk@),
            r matches Some(e) ==> e.data@.len() > 0,
            r is Some ==> final(self)@.event_type is None && final(self)@.data.len() == 0,
    {
        let cs = chars_of(chunk);
        let mut i: usize = 0;
        let ghost b0 = self.buffer@;
        while i < cs.len()
            invariant
                i <= cs@.len(),
                cs@ == chunk@,
                self.buffer@ == b0 + cs@.take(i as int),
                self.event_type == old(self).event_type,
                self.data == old(self).data,
            decreases cs.len() - i,
        {
            self.buffer.push(cs[i]);
            i = i + 1;
            assert(self.buffer@ =~= b0 + cs@.take(i as int));
        }
        assert(cs@.take(cs@.len() as int) =~= chunk@);
        assert(self@ == (SseState { buffer: old(self)@.buffer + chunk@, ..old(self)@ }));
        loop
            invariant
                process(self@) == feed_spec(old(self)@, chunk@),
            decreases self@.buffer.len(),
        {
            let ghost st = self@;
            match self.take_line() {
                None => {
                    return None;
                },
                Some(line) => {
                    let ghost st1 = self@;
                    let r = self.apply(&line);
                    proof {
                        lemma_process_step(st, line@, st1);
                    }
                    if r.is_some() {
                        proof {
                            lemma_event_resets_type(old(self)@, chunk@);
                        }
                        return r;
                    }
                },
            }
        }
    }

    /// Emits the event being assembled when its data is not empty (for
    /// input that ended without a blank line); otherwise changes nothing.
    pub fn flush(&mut self) -> (r: Option<SseEvent>)
        ensures
            (final(self)@, event_view(r)) == flush_spec(old(self)@),
    {
        if self.data.len() == 0 {
            None
        } else {
            Some(self.take_event())
        }
    }
}


proof fn lemma_process_event_resets(st: SseState)
    ensures
        process(st).1 is Some ==> process(st).0.event_type is None && process(st).0.data.len()
            == 0 && (process(st).1->0).1.len() > 0,
    decreases st.buffer.len(),
{
    match first_newline(st.buffer) {
        None => {},
        Some(i) => {
            if 0 <= i < st.buffer.len() {
                let line = trim_end_cr(st.buffer.take(i));
                let st1 = SseState { buffer: st.buffer.skip(i + 1), ..st };
                let (st2, ev) = apply_line(st1, line);
                if ev is None {
                    lemma_process_event_resets(st2);
                }
            }
        },
    }
}

/// Law: an event ends the event it was assembled from. Whenever feeding a
/// chunk or flushing returns an event, that event has data, and the parser
/// is left with no event type and no data: the next event starts afresh,
/// so an event without an `event:` line of its own has no type, whatever
/// events came before it.
pub proof fn lemma_event_resets_type(st: SseState, chunk: Seq<char>)
    ensures
        feed_spec(st, chunk).1 is Some ==> {
            &&& feed_spec(st, chunk).0.event_type is None
            &&& feed_spec(st, chunk).0.data.len() == 0
            &&& (feed_spec(st, chunk).1->0).1.len() > 0
        },
        flush_spec(st).1 is Some ==> {
            &&& flush_spec(st).0.event_type is None
            &&& flush_spec(st).0.data.len() == 0
            &&& (flush_spec(st).1->0).1.len() > 0
        },
{
    lemma_process_event_resets(SseState { buffer: st.buffer + chunk, ..st });
}

/// Law: a blank line always clears the event type, whether or not it ends
/// an event with data; an `event:` line only sets the type and a `data:`
/// line only extends the data, neither ends an event.
pub proof fn lemma_blank_line_clears_type(st: SseState, line: Seq<char>)
    ensures
        line.len() == 0 ==> apply_line(st, line).0.event_type is None && apply_line(st, line).0.data.len()
            == 0,
        apply_line(st, line).1 is Some ==> line.len() == 0 && apply_line(st, line).1 == Some(
            (st.event_type, st.data),
        ),
{
}

/// What `first_newline` finds: the first `\n`, or that there is none.
pub(crate) proof fn lemma_first_newline(s: Seq<char>)
    ensures
        match first_newline(s) {
            Some(i) => 0 <= i < s.len() && s[i] == '\n' && forall|j: int|
                0 <= j < i ==> s[j] != '\n',
            None => forall|j: int| 0 <= j < s.len() ==> s[j] != '\n',
        },
{
    if exists|i: int| 0 <= i < s.len() && s[i] == '\n' {
        let w = choose|i: int| 0 <= i < s.len() && s[i] == '\n';
        // the first newline exists: find it by induction on w
        lemma_first_exists(s, w);
    }
}

proof fn lemma_first_exists(s: Seq<char>, w: int)
    requires
        0 <= w < s.len(),
        s[w] == '\n',
    ensures
        exists|i: int|
            0 <= i < s.len() && s[i] == '\n' && forall|j: int| 0 <= j < i ==> s[j] != '\n',
    decreases w,
{
    if exists|j: int| 0 <= j < w && s[j] == '\n' {
        let j = choose|j: int| 0 <= j < w && s[j] == '\n';
        lemma_first_exists(s, j);
    } else {
        assert(forall|j: int| 0 <= j < w ==> s[j] != '\n');
    }
}

/// Appending text after a complete line does not change where it ends.
pub(crate) proof fn lemma_first_newline_append(s: Seq<char>, y: Seq<char>)
    requires
        first_newline(s) is Some,
    ensures
        first_newline(s + y) == first_newline(s),
{
    lemma_first_newline(s);
    lemma_first_newline(s + y);
    let i = first_newline(s)->0;
    assert((s + y)[i] == '\n');
    let k = first_newline(s + y)->0;
    if k < i {
        assert((s + y)[k] == s[k]);
    }
    if k > i {
        assert((s + y)[i] != '\n');
    }
}

#[verifier::spinoff_prover]
#[verifier::rlimit(40)]
proof fn lemma_process_append(st: SseState, y: Seq<char>)
    requires
        process(st).1 is None,
    ensures
        process(SseState { buffer: st.buffer + y, ..st }) == process(
            SseState { buffer: process(st).0.buffer + y, ..process(st).0 },
        ),
    decreases st.buffer.len(),
{
    lemma_first_newline(st.buffer);
    match first_newline(st.buffer) {
        None => {
            assert(process(st).0 == st);
        },
        Some(i) => {
            let sty = SseState { buffer: st.buffer + y, ..st };
            lemma_first_newline_append(st.buffer, y);
            assert((st.buffer + y).take(i) =~= st.buffer.take(i));
            assert((st.buffer + y).skip(i + 1) =~= st.buffer.skip(i + 1) + y);
            let line = trim_end_cr(st.buffer.take(i));
            let st1 = SseState { buffer: st.buffer.skip(i + 1), ..st };
            let st1y = SseState { buffer: st.buffer.skip(i + 1) + y, ..st };
            let (st2, ev) = apply_line(st1, line);
            let (st2y, evy) = apply_line(st1y, line);
            assert(evy == ev);
            assert(st2y == SseState { buffer: st2.buffer + y, ..st2 });
            assert(ev is None);
            lemma_process_append(st2, y);
        },
    }
}

/// Law: input may be split anywhere. When feeding `a` emits no event,
/// feeding `b` afterwards has the same effect and result as feeding `a + b`
/// at once.
#[verifier::spinoff_prover]
#[verifier::rlimit(30)]
pub proof fn lemma_feed_split(st: SseState, a: Seq<char>, b: Seq<char>)
    requires
        feed_spec(st, a).1 is None,
    ensures
        feed_spec(feed_spec(st, a).0, b) == feed_spec(st, a + b),
{
    let sa = SseState { buffer: st.buffer + a, ..st };
    lemma_process_append(sa, b);
    let s1 = process(sa).0;
    assert(sa.buffer + b =~= st.buffer + (a + b));
    let whole = SseState { buffer: st.buffer + (a + b), ..st };
    assert(SseState { buffer: sa.buffer + b, ..sa } == whole);
    assert(feed_spec(st, a + b) == process(whole));
    assert(feed_spec(s1, b) == process(SseState { buffer: s1.buffer + b, ..s1 }));
}

/// A state with `x` appended to its buffered input.
pub open spec fn with_input(st: SseState, x: Seq<char>) -> SseState {
    SseState { buffer: st.buffer + x, ..st }
}

/// Processing that emits an event consumes at least one line.
proof fn lemma_process_shrinks(st: SseState)
    ensures
        process(st).1 is Some ==> process(st).0.buffer.len() < st.buffer.len(),
    decreases st.buffer.len(),
{
    lemma_first_newline(st.buffer);
    match first_newline(st.buffer) {
        None => {},
        Some(i) => {
            let line = trim_end_cr(st.buffer.take(i));
            let st1 = SseState { buffer: st.buffer.skip(i + 1), ..st };
            let (st2, ev) = apply_line(st1, line);
            if ev is None {
                lemma_process_shrinks(st2);
            }
        },
    }
}

/// Text appended after the line that ends an event does not change that
/// event, and stays buffered after it.
#[verifier::spinoff_prover]
#[verifier::rlimit(40)]
proof fn lemma_process_append_some(st: SseState, y: Seq<char>)
    requires
        process(st).1 is Some,
    ensures
        process(with_input(st, y)) == (with_input(process(st).0, y), process(st).1),
    decreases st.buffer.len(),
{
    lemma_first_newline(st.buffer);
    match first_newline(st.buffer) {
        None => {},
        Some(i) => {
            lemma_first_newline_append(st.buffer, y);
            assert((st.buffer + y).take(i) =~= st.buffer.take(i));
            assert((st.buffer + y).skip(i + 1) =~= st.buffer.skip(i + 1) + y);
            let line = trim_end_cr(st.buffer.take(i));
            let st1 = SseState { buffer: st.buffer.skip(i + 1), ..st };
            let st1y = SseState { buffer: st.buffer.skip(i + 1) + y, ..st };
            let (st2, ev) = apply_line(st1, line);
            let (st2y, evy) = apply_line(st1y, line);
            assert(evy == ev);
            assert(st2y == with_input(st2, y));
            if ev is None {
                lemma_process_append_some(st2, y);
            }
        },
    }
}

/// Processing the buffer again and again until no event is left: the
/// events, in order, and the state left.
#[verifier::opaque]
pub open spec fn drain(st: SseState) -> (SseState, Seq<EventView>)
    decreases st.buffer.len(),
{
    let (st1, e) = process(st);
    match e {
        None => (st1, Seq::empty()),
        Some(ev) => if st1.buffer.len() < st.buffer.len() {
            let (st2, rest) = drain(st1);
            (st2, seq![ev] + rest)
        } else {
            (st1, seq![ev])
        },
    }
}

/// One step of `drain`.
proof fn lemma_drain_unfold(x: SseState)
    ensures
        drain(x) == (match process(x).1 {
            None => (process(x).0, Seq::<EventView>::empty()),
            Some(ev) => (drain(process(x).0).0, seq![ev] + drain(process(x).0).1),
        }),
{
    reveal(drain);
    lemma_process_shrinks(x);
}

/// What `drain` gives depends on what processing gives.
proof fn lemma_drain_same(x: SseState, z: SseState)
    requires
        process(x) == process(z),
    ensures
        drain(x) == drain(z),
{
    lemma_drain_unfold(x);
    lemma_drain_unfold(z);
}

#[verifier::spinoff_prover]
proof fn lemma_drain_append(s: SseState, b: Seq<char>)
    ensures
        drain(s).1 + drain(with_input(drain(s).0, b)).1 == drain(with_input(s, b)).1,
        drain(with_input(drain(s).0, b)).0 == drain(with_input(s, b)).0,
    decreases s.buffer.len(),
{
    lemma_process_shrinks(s);
    lemma_drain_unfold(s);
    lemma_drain_unfold(with_input(s, b));
    let s1 = process(s).0;
    match process(s).1 {
        None => {
            lemma_process_append(s, b);
            assert(with_input(s, b) == SseState { buffer: s.buffer + b, ..s });
            assert(with_input(s1, b) == SseState { buffer: process(s).0.buffer + b, ..process(s).0 });
            lemma_drain_same(with_input(s, b), with_input(s1, b));
            assert(Seq::<EventView>::empty() + drain(with_input(s1, b)).1 =~= drain(with_input(s1, b)).1);
        },
        Some(ev) => {
            lemma_process_append_some(s, b);
            lemma_drain_append(s1, b);
            let d1 = drain(s1);
            assert(seq![ev] + d1.1 + drain(with_input(d1.0, b)).1 =~= seq![ev] + (d1.1 + drain(
                with_input(d1.0, b),
            ).1));
        },
    }
}

/// Law: SSE input may be split anywhere. Feeding `a` and collecting every
/// event it completes, then feeding `b` and collecting every event, gives
/// the same events, in the same order, and the same state, as feeding
/// `a + b` at once.
pub proof fn lemma_events_split(st: SseState, a: Seq<char>, b: Seq<char>)
    ensures
        drain(with_input(st, a)).1 + drain(with_input(drain(with_input(st, a)).0, b)).1 == drain(
            with_input(st, a + b),
        ).1,
        drain(with_input(drain(with_input(st, a)).0, b)).0 == drain(with_input(st, a + b)).0,
{
    lemma_drain_append(with_input(st, a), b);
    assert(st.buffer + a + b =~= st.buffer + (a + b));
    assert(with_input(with_input(st, a), b) == with_input(st, a + b));
}

impl Default for SseParser {
    /// A parser with no buffered input and no event being assembled.
    fn default() -> (r: Self)
        ensures
            r@ == (SseState { buffer: Seq::empty(), event_type: None, data: Seq::empty() }),
    {
        SseParser::new()
    }
}

}
