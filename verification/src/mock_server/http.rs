use vstd::prelude::*;
use vstd::utf8::encode_utf8;

use super::response::{split_words, split_ws, RecordedResponse, SseChunk};
use super::router::{queue, Router};
use super::validation::{messages_field, missing_field_message, model_field, validate_request, MockServerError};
use crate::json::{json_has, json_parses};
use crate::text::{
    chars_of, decimal, decimal_spec, has_prefix, owned, starts_with, trim, trimmed_range,
};

verus! {

/// The target of a request line `METHOD target VERSION`: its second
/// whitespace-separated word, or `/` when it has none.
pub open spec fn request_target(line: Seq<char>) -> Seq<char> {
    if split_ws(line).len() >= 2 {
        split_ws(line)[1]
    } else {
        seq!['/']
    }
}

/// The target of an HTTP request line.
pub fn request_path(request_line: &str) -> (r: String)
    ensures
        r@ == request_target(request_line@),
{
    let words = split_words(request_line);
    assert(words@.len() == split_ws(request_line@).len());
    if words.len() >= 2 {
        assert(words@[1]@ == split_ws(request_line@)[1]);
        owned(words[1].as_str())
    } else {
        proof {
            reveal_strlit("/");
        }
        owned("/")
    }
}

/// `char::to_ascii_lowercase`.
pub open spec fn ascii_lower(c: char) -> char {
    if 'A' <= c && c <= 'Z' {
        ((c as u32) + 32) as char
    } else {
        c
    }
}

/// Whether `c` is a decimal digit.
pub open spec fn is_digit(c: char) -> bool {
    '0' <= c && c <= '9'
}

/// The number written by the decimal digits `s`.
pub open spec fn digits_value(s: Seq<char>) -> nat
    decreases s.len(),
{
    if s.len() == 0 {
        0
    } else {
        digits_value(s.drop_last()) * 10 + ((s.last() as u32) - 48) as nat
    }
}

/// `s` without one leading `+`.
pub open spec fn sign_stripped(s: Seq<char>) -> Seq<char> {
    if s.len() > 0 && s[0] == '+' {
        s.drop_first()
    } else {
        s
    }
}

/// Whether every character of `d` is a decimal digit.
pub open spec fn all_digits(d: Seq<char>) -> bool {
    forall|i: int| 0 <= i < d.len() ==> is_digit(#[trigger] d[i])
}

/// `str::parse::<usize>`: an optional `+` followed by at least one decimal
/// digit, whose value fits in `usize`.
pub open spec fn parse_usize(s: Seq<char>) -> Option<nat> {
    let d = sign_stripped(s);
    if d.len() > 0 && all_digits(d) && digits_value(d) <= usize::MAX {
        Some(digits_value(d))
    } else {
        None
    }
}

proof fn lemma_digits_value_grows(s: Seq<char>, k: int)
    requires
        0 <= k <= s.len(),
        forall|i: int| 0 <= i < s.len() ==> is_digit(#[trigger] s[i]),
    ensures
        digits_value(s.take(k)) <= digits_value(s),
    decreases s.len() - k,
{
    if k < s.len() {
        assert(s.drop_last().take(k) =~= s.take(k));
        lemma_digits_value_grows(s.drop_last(), k);
    } else {
        assert(s.take(k) =~= s);
    }
}

/// Parses `cs[from..to]` as `str::parse::<usize>` does.
fn parse_usize_range(cs: &Vec<char>, from: usize, to: usize) -> (r: Option<usize>)
    requires
        from <= to <= cs@.len(),
    ensures
        match parse_usize(cs@.subrange(from as int, to as int)) {
            Some(v) => r == Some(v as usize),
            None => r is None,
        },
{
    let ghost s = cs@.subrange(from as int, to as int);
    let mut a = from;
    if a < to && cs[a] == '+' {
        a = a + 1;
    }
    let ghost d = cs@.subrange(a as int, to as int);
    assert(d =~= sign_stripped(s));
    if a == to {
        return None;
    }
    let mut i = a;
    let mut acc: usize = 0;
    while i < to
        invariant
            from <= a <= i <= to <= cs@.len(),
            a < to,
            s == cs@.subrange(from as int, to as int),
            d == cs@.subrange(a as int, to as int),
            d == sign_stripped(s),
            forall|k: int| a <= k < i ==> is_digit(#[trigger] cs@[k]),
            acc == digits_value(cs@.subrange(a as int, i as int)),
        decreases to - i,
    {
        let c = cs[i];
        assert(d[i - a] == c);
        if !('0' <= c && c <= '9') {
            assert(!is_digit(d[i - a]));
            return None;
        }
        let dig = (c as u32 - 48) as usize;
        assert(cs@.subrange(a as int, i + 1).drop_last() =~= cs@.subrange(a as int, i as int));
        assert(d.take(i - a + 1) =~= cs@.subrange(a as int, i + 1));
        assert(digits_value(cs@.subrange(a as int, i + 1)) == acc * 10 + dig);
        match acc.checked_mul(10) {
            Some(m) => match m.checked_add(dig) {
                Some(v) => {
                    acc = v;
                },
                None => {
                    proof {
                        lemma_overflow_persists(d, i - a + 1);
                    }
                            return None;
                },
            },
            None => {
                proof {
                    lemma_overflow_persists(d, i - a + 1);
                }
                return None;
            },
        }
        i = i + 1;
    }
    assert(cs@.subrange(a as int, to as int) =~= d);
    Some(acc)
}

/// Once a prefix of a digit string exceeds `usize::MAX`, so does the whole.
proof fn lemma_overflow_persists(d: Seq<char>, k: int)
    requires
        0 < k <= d.len(),
        forall|i: int| 0 <= i < k ==> is_digit(#[trigger] d[i]),
        digits_value(d.take(k)) > usize::MAX,
    ensures
        !all_digits(d) || digits_value(d) > usize::MAX,
{
    if all_digits(d) {
        lemma_digits_value_grows(d, k);
    }
}

/// The value of a `content-length` header line: `None` when the line (in
/// ASCII lowercase) does not begin with `content-length:`, otherwise the
/// trimmed rest parsed as a number, or 0 when it does not parse.
pub open spec fn content_length_spec(line: Seq<char>) -> Option<nat> {
    let lower = line.map_values(|c: char| ascii_lower(c));
    let p = seq!['c', 'o', 'n', 't', 'e', 'n', 't', '-', 'l', 'e', 'n', 'g', 't', 'h', ':'];
    if has_prefix(lower, p) {
        match parse_usize(trim(lower.skip(p.len() as int))) {
            Some(v) => Some(v),
            None => Some(0),
        }
    } else {
        None
    }
}

/// Reads the body length from a header line.
pub fn content_length(line: &str) -> (r: Option<usize>)
    ensures
        match content_length_spec(line@) {
            Some(v) => r == Some(v as usize),
            None => r is None,
        },
{
    let cs = chars_of(line);
    let mut lower: Vec<char> = Vec::new();
    let mut i: usize = 0;
    while i < cs.len()
        invariant
            i <= cs@.len(),
            cs@ == line@,
            lower@ == cs@.take(i as int).map_values(|c: char| ascii_lower(c)),
        decreases cs.len() - i,
    {
        let c = cs[i];
        let l = if 'A' <= c && c <= 'Z' {
            ((c as u32) + 32) as u8 as char
        } else {
            c
        };
        proof {
            if 'A' <= c && c <= 'Z' {
                assert(((c as u32) + 32) as u8 as char == ((c as u32) + 32) as char);
            }
        }
        assert(l == ascii_lower(c));
        lower.push(l);
        assert(cs@.take(i + 1).map_values(|c: char| ascii_lower(c)) =~= cs@.take(i as int).map_values(
            |c: char| ascii_lower(c),
        ).push(l));
        i = i + 1;
    }
    assert(cs@.take(cs@.len() as int) =~= cs@);
    let n = lower.len();
    assert(lower@.take(n as int) =~= lower@);
    proof {
        reveal_strlit("content-length:");
        assert("content-length:"@ =~= seq![
            'c', 'o', 'n', 't', 'e', 'n', 't', '-', 'l', 'e', 'n', 'g', 't', 'h', ':',
        ]);
    }
    if !starts_with(&lower, n, "content-length:") {
        return None;
    }
    let value = trimmed_range(&lower, 15, n);
    assert(lower@.skip(15) =~= lower@.subrange(15, n as int));
    let parsed = parse_usize_range(&value, 0, value.len());
    assert(value@.subrange(0, value@.len() as int) =~= value@);
    match parsed {
        Some(v) => Some(v),
        None => Some(0),
    }
}

/// The reason phrase written after a status code.
pub open spec fn status_reason(status: u16) -> Seq<char> {
    if status == 200 {
        seq!['O', 'K']
    } else if status == 400 {
        seq!['B', 'a', 'd', ' ', 'R', 'e', 'q', 'u', 'e', 's', 't']
    } else if status == 404 {
        seq!['N', 'o', 't', ' ', 'F', 'o', 'u', 'n', 'd']
    } else {
        seq!['E', 'r', 'r', 'o', 'r']
    }
}

/// The reason phrase of a status code.
pub fn status_text(status: u16) -> (r: &'static str)
    ensures
        r@ == status_reason(status),
{
    proof {
        reveal_strlit("OK");
        reveal_strlit("Bad Request");
        reveal_strlit("Not Found");
        reveal_strlit("Error");
    }
    if status == 200 {
        "OK"
    } else if status == 400 {
        "Bad Request"
    } else if status == 404 {
        "Not Found"
    } else {
        "Error"
    }
}

/// A complete HTTP/1.1 response with a body of the given content type.
pub open spec fn http_response_spec(status: u16, content_type: Seq<char>, body: Seq<char>) -> Seq<
    char,
> {
    seq!['H', 'T', 'T', 'P', '/', '1', '.', '1', ' '] + decimal_spec(status as nat) + seq![' ']
        + status_reason(status) + seq!['\r', '\n'] + seq![
        'c', 'o', 'n', 't', 'e', 'n', 't', '-', 't', 'y', 'p', 'e', ':', ' ',
    ] + content_type + seq!['\r', '\n'] + seq![
        'c', 'o', 'n', 't', 'e', 'n', 't', '-', 'l', 'e', 'n', 'g', 't', 'h', ':', ' ',
    ] + decimal_spec(encode_utf8(body).len()) + seq!['\r', '\n'] + seq![
        'c', 'o', 'n', 'n', 'e', 'c', 't', 'i', 'o', 'n', ':', ' ', 'c', 'l', 'o', 's', 'e', '\r', '\n',
        '\r', '\n',
    ] + body
}

/// The text of a complete HTTP/1.1 response; the content length is the
/// byte length of `body`.
pub fn http_response(status: u16, content_type: &str, body: &str) -> (r: String)
    ensures
        r@ == http_response_spec(status, content_type@, body@),
{
    let mut r = owned("HTTP/1.1 ");
    r.append(decimal(status as u64).as_str());
    r.append(" ");
    r.append(status_text(status));
    r.append("\r\ncontent-type: ");
    r.append(content_type);
    r.append("\r\ncontent-length: ");
    let len = body.as_bytes().len();
    r.append(decimal(len as u64).as_str());
    r.append("\r\nconnection: close\r\n\r\n");
    r.append(body);
    proof {
        reveal_strlit("HTTP/1.1 ");
        reveal_strlit(" ");
        reveal_strlit("\r\ncontent-type: ");
        reveal_strlit("\r\ncontent-length: ");
        reveal_strlit("\r\nconnection: close\r\n\r\n");
    }
    assert(r@ =~= http_response_spec(status, content_type@, body@));
    r
}

/// The text that starts an SSE response.
pub open spec fn sse_header_spec() -> Seq<char> {
    seq![
        'H', 'T', 'T', 'P', '/', '1', '.', '1', ' ', '2', '0', '0', ' ', 'O', 'K', '\r', '\n',
        'c', 'o', 'n', 't', 'e', 'n', 't', '-', 't', 'y', 'p', 'e', ':', ' ',
        't', 'e', 'x', 't', '/', 'e', 'v', 'e', 'n', 't', '-', 's', 't', 'r', 'e', 'a', 'm', '\r', '\n',
        'c', 'o', 'n', 'n', 'e', 'c', 't', 'i', 'o', 'n', ':', ' ', 'c', 'l', 'o', 's', 'e', '\r', '\n',
        '\r', '\n',
    ]
}

/// The text of one SSE event: an `event:` line when the chunk has a type,
/// then its `data:` line and a blank line.
pub open spec fn sse_event_spec(c: (Option<Seq<char>>, Seq<char>)) -> Seq<char> {
    let head: Seq<char> = match c.0 {
        Some(t) => seq!['e', 'v', 'e', 'n', 't', ':', ' '] + t + seq!['\n'],
        None => Seq::empty(),
    };
    head + seq!['d', 'a', 't', 'a', ':', ' '] + c.1 + seq!['\n', '\n']
}

/// The text that ends an SSE response.
pub open spec fn sse_done_spec() -> Seq<char> {
    seq!['d', 'a', 't', 'a', ':', ' ', '[', 'D', 'O', 'N', 'E', ']', '\n', '\n']
}

/// The concatenated texts of the events of `chunks`.
pub open spec fn sse_events_spec(chunks: Seq<(Option<Seq<char>>, Seq<char>)>) -> Seq<char>
    decreases chunks.len(),
{
    if chunks.len() == 0 {
        Seq::empty()
    } else {
        sse_events_spec(chunks.drop_last()) + sse_event_spec(chunks.last())
    }
}

/// The text of a complete SSE response streaming `chunks`, ended by
/// `data: [DONE]`.
pub fn sse_response(chunks: &Vec<SseChunk>) -> (r: String)
    ensures
        r@ == sse_header_spec() + sse_events_spec(
            chunks@.map_values(|c: SseChunk| super::response::chunk_view(c)),
        ) + sse_done_spec(),
{
    let ghost cv = chunks@.map_values(|c: SseChunk| super::response::chunk_view(c));
    let mut r = owned("HTTP/1.1 200 OK\r\ncontent-type: text/event-stream\r\nconnection: close\r\n\r\n");
    proof {
        reveal_strlit("HTTP/1.1 200 OK\r\ncontent-type: text/event-stream\r\nconnection: close\r\n\r\n");
        assert(r@ =~= sse_header_spec() + sse_events_spec(cv.take(0)));
    }
    let mut i: usize = 0;
    while i < chunks.len()
        invariant
            i <= chunks@.len(),
            cv == chunks@.map_values(|c: SseChunk| super::response::chunk_view(c)),
            r@ == sse_header_spec() + sse_events_spec(cv.take(i as int)),
        decreases chunks.len() - i,
    {
        let c = &chunks[i];
        let ghost before = r@;
        match &c.event_type {
            Some(t) => {
                r.append("event: ");
                r.append(t.as_str());
                r.append("\n");
            },
            None => {},
        }
        r.append("data: ");
        r.append(c.data.as_str());
        r.append("\n\n");
        proof {
            reveal_strlit("event: ");
            reveal_strlit("\n");
            reveal_strlit("data: ");
            reveal_strlit("\n\n");
            assert(cv.take(i + 1).drop_last() =~= cv.take(i as int));
            assert(cv[i as int] == super::response::chunk_view(*c));
            assert(r@ =~= before + sse_event_spec(cv[i as int]));
        }
        i = i + 1;
    }
    assert(cv.take(chunks@.len() as int) =~= cv);
    r.append("data: [DONE]\n\n");
    proof {
        reveal_strlit("data: [DONE]\n\n");
    }
    r
}

/// How the server answers a request.
pub enum Reply {
    /// A plain response with a JSON body.
    Json { status: u16, body: String },
    /// An SSE stream of these chunks.
    Sse(Vec<SseChunk>),
}

/// `{"error":"<message>"}`.
pub open spec fn error_body(msg: Seq<char>) -> Seq<char> {
    seq!['{', '"', 'e', 'r', 'r', 'o', 'r', '"', ':', '"'] + msg + seq!['"', '}']
}

/// The body of a 404 answer.
pub open spec fn no_route_body() -> Seq<char> {
    error_body(seq!['n', 'o', ' ', 'r', 'o', 'u', 't', 'e'])
}

/// What answering a request for `path` does to routes `before`, leaving
/// `after`, when its body failed validation with message `invalid` or passed
/// it (`None`): a failed validation gets 400 with the message; otherwise
/// the oldest response queued for the path is taken (the other queues stay
/// as they are), and served as a 200 JSON body when it is a single chunk
/// without event type, or as an SSE stream; 404 when the queue is empty.
pub open spec fn reply_spec(
    before: Seq<(Seq<char>, RecordedResponse)>,
    after: Seq<(Seq<char>, RecordedResponse)>,
    path: Seq<char>,
    invalid: Option<Seq<char>>,
    r: Reply,
) -> bool {
    match invalid {
        Some(m) => after == before && (r matches Reply::Json { status, body } && status == 400
            && body@ == error_body(m)),
        None => if queue(before, path).len() == 0 {
            after == before && (r matches Reply::Json { status, body } && status == 404 && body@
                == no_route_body())
        } else {
            let rec = queue(before, path)[0];
            &&& queue(after, path) == queue(before, path).drop_first()
            &&& forall|q: Seq<char>| q != path ==> #[trigger] queue(after, q) == queue(before, q)
            &&& if rec.chunks@.len() == 1 && rec.chunks@[0].event_type is None {
                r matches Reply::Json { status, body } && status == 200 && body
                    == rec.chunks@[0].data
            } else {
                r matches Reply::Sse(cs) && cs == rec.chunks
            }
        },
    }
}

/// The validation message a parsed request body `body` is answered with:
/// the first of the fields `model` and `messages` that it lacks, or `None`.
pub open spec fn validation_message(body: Seq<char>) -> Option<Seq<char>> {
    if !json_has(body, seq![model_field()]) {
        Some("validation error: "@ + missing_field_message(model_field()))
    } else if !json_has(body, seq![messages_field()]) {
        Some("validation error: "@ + missing_field_message(messages_field()))
    } else {
        None
    }
}

/// The text of a JSON error, as `serde_json` displays it (`to_string`).
/// Nothing is claimed of the text.
#[verifier::external_body]
fn json_error_text(e: &serde_json::Error) -> String {
    e.to_string()
}

impl Router {
    /// Answers a request for `path` with body `body`: the body is validated
    /// first; a body that is not JSON is answered 400 with `json error: `
    /// followed by serde_json's text of the error (that text is left open),
    /// one that lacks a required field 400 with the validation message, and
    /// a valid one as `reply_spec` says.
    pub fn answer(&mut self, path: &str, body: &str) -> (r: Reply)
        ensures
            json_parses(body@) ==> reply_spec(
                old(self).routes(),
                final(self).routes(),
                path@,
                validation_message(body@),
                r,
            ),
            !json_parses(body@) ==> final(self).routes() == old(self).routes() && (r matches Reply::Json {
                status,
                body,
            } && status == 400 && exists|t: Seq<char>| body@ == error_body("json error: "@ + t)),
    {
        proof {
            reveal_strlit("validation error: ");
            reveal_strlit("json error: ");
        }
        match validate_request(body) {
            Ok(()) => self.reply(path, None),
            Err(MockServerError::Validation(m)) => {
                let mut msg = owned("validation error: ");
                msg.append(m.as_str());
                self.reply(path, Some(msg.as_str()))
            },
            Err(MockServerError::Json(e)) => {
                let mut msg = owned("json error: ");
                let text = json_error_text(&e);
                msg.append(text.as_str());
                let r = self.reply(path, Some(msg.as_str()));
                assert(msg@ == "json error: "@ + text@);
                r
            },
            Err(_) => {
                proof {
                    assert(false);
                }
                self.reply(path, None)
            },
        }
    }

    /// Answers a request for `path` whose body failed validation with the
    /// message in `invalid`, or passed it (`None`), as `reply_spec` says.
    pub fn reply(&mut self, path: &str, invalid: Option<&str>) -> (r: Reply)
        ensures
            reply_spec(
                old(self).routes(),
                final(self).routes(),
                path@,
                match invalid {
                    Some(m) => Some(m@),
                    None => None,
                },
                r,
            ),
    {
        match invalid {
            Some(m) => {
                let mut body = owned("{\"error\":\"");
                body.append(m);
                body.append("\"}");
                proof {
                    reveal_strlit("{\"error\":\"");
                    reveal_strlit("\"}");
                    assert(body@ =~= error_body(m@));
                }
                Reply::Json { status: 400, body }
            },
            None => match self.take(path) {
                None => {
                    let body = owned("{\"error\":\"no route\"}");
                    proof {
                        reveal_strlit("{\"error\":\"no route\"}");
                        assert(body@ =~= no_route_body());
                    }
                    Reply::Json { status: 404, body }
                },
                Some(rec) => {
                    if rec.chunks.len() == 1 && rec.chunks[0].event_type.is_none() {
                        let RecordedResponse { mut chunks } = rec;
                        let c = chunks.pop().unwrap();
                        Reply::Json { status: 200, body: c.data }
                    } else {
                        Reply::Sse(rec.chunks)
                    }
                },
            },
        }
    }
}

}
