use vstd::prelude::*;

use crate::text::{chars_of, is_whitespace, is_ws, owned, push_char, string_from_range};

verus! {

/// A single SSE chunk.
#[derive(Debug, Clone)]
pub struct SseChunk {
    pub event_type: Option<String>,
    pub data: String,
}

/// A recorded response for the mock server: one chunk holding a plain JSON
/// body, or a sequence of SSE chunks.
pub struct RecordedResponse {
    pub chunks: Vec<SseChunk>,
}

/// The view of a chunk: its event type and its data.
pub open spec fn chunk_view(c: SseChunk) -> (Option<Seq<char>>, Seq<char>) {
    (
        match c.event_type {
            Some(t) => Some(t@),
            None => None,
        },
        c.data@,
    )
}

/// The maximal run of non-whitespace characters at the start of `s`.
pub open spec fn leading_word(s: Seq<char>) -> Seq<char>
    decreases s.len(),
{
    if s.len() > 0 && !is_ws(s[0]) {
        seq![s[0]] + leading_word(s.drop_first())
    } else {
        Seq::empty()
    }
}

/// A leading word is no longer than the text, and not empty when the text
/// starts with a non-whitespace character.
pub proof fn lemma_leading_word_len(s: Seq<char>)
    ensures
        leading_word(s).len() <= s.len(),
        s.len() > 0 && !is_ws(s[0]) ==> leading_word(s).len() >= 1,
    decreases s.len(),
{
    if s.len() > 0 && !is_ws(s[0]) {
        lemma_leading_word_len(s.drop_first());
    }
}

/// `str::split_whitespace`: the maximal runs of non-whitespace characters
/// of `s`, in order.
pub open spec fn split_ws(s: Seq<char>) -> Seq<Seq<char>>
    decreases s.len(),
{
    if s.len() == 0 {
        Seq::empty()
    } else if is_ws(s[0]) {
        split_ws(s.drop_first())
    } else {
        let w = leading_word(s);
        proof {
            lemma_leading_word_len(s);
        }
        seq![w] + split_ws(s.skip(w.len() as int))
    }
}

/// The JSON object `{"text":"<word>"}` (the word is not escaped).
pub open spec fn text_payload(w: Seq<char>) -> Seq<char> {
    seq!['{', '"', 't', 'e', 'x', 't', '"', ':', '"'] + w + seq!['"', '}']
}

proof fn lemma_leading_word_range(s: Seq<char>, i: int, j: int)
    requires
        0 <= i <= j <= s.len(),
        forall|k: int| i <= k < j ==> !is_ws(#[trigger] s[k]),
        j == s.len() || is_ws(s[j]),
    ensures
        leading_word(s.skip(i)) == s.subrange(i, j),
    decreases j - i,
{
    if i == j {
        assert(s.subrange(i, j) =~= Seq::<char>::empty());
    } else {
        lemma_leading_word_range(s, i + 1, j);
        assert(s.skip(i).drop_first() =~= s.skip(i + 1));
        assert(s.subrange(i, j) =~= seq![s[i]] + s.subrange(i + 1, j));
    }
}

/// `str::split_whitespace`, collected.
pub fn split_words(text: &str) -> (r: Vec<String>)
    ensures
        r@.map_values(|w: String| w@) == split_ws(text@),
{
    let s = chars_of(text);
    let n = s.len();
    let mut words: Vec<String> = Vec::new();
    let mut i: usize = 0;
    assert(s@.skip(0) =~= s@);
    while i < n
        invariant
            i <= n == s@.len(),
            s@ == text@,
            words@.map_values(|w: String| w@) + split_ws(s@.skip(i as int)) == split_ws(s@),
        decreases n - i,
    {
        let ghost rest = s@.skip(i as int);
        if is_whitespace(s[i]) {
            assert(rest.drop_first() =~= s@.skip(i + 1));
            i = i + 1;
        } else {
            let mut j = i + 1;
            while j < n && !is_whitespace(s[j])
                invariant
                    i < j <= n == s@.len(),
                    forall|k: int| i <= k < j ==> !is_ws(#[trigger] s@[k]),
                decreases n - j,
            {
                j = j + 1;
            }
            proof {
                lemma_leading_word_range(s@, i as int, j as int);
                assert(rest.skip((j - i) as int) =~= s@.skip(j as int));
            }
            let w = string_from_range(&s, i, j);
            let ghost before = words@.map_values(|w: String| w@);
            words.push(w);
            assert(words@.map_values(|w: String| w@) =~= before.push(w@));
            assert(before.push(w@) + split_ws(s@.skip(j as int)) =~= before + (seq![w@] + split_ws(
                s@.skip(j as int),
            )));
            i = j;
        }
    }
    assert(s@.skip(n as int) =~= Seq::<char>::empty());
    assert(split_ws(Seq::<char>::empty()) =~= Seq::<Seq<char>>::empty());
    assert(words@.map_values(|w: String| w@) + Seq::<Seq<char>>::empty() =~= words@.map_values(
        |w: String| w@,
    ));
    words
}

impl RecordedResponse {
    /// The views of the chunks.
    pub open spec fn view_chunks(&self) -> Seq<(Option<Seq<char>>, Seq<char>)> {
        self.chunks@.map_values(|c: SseChunk| chunk_view(c))
    }

    /// One `message` event per whitespace-separated word of `text`, whose
    /// data is the JSON object `{"text":"<word>"}`.
    pub fn sse_stream(text: &str) -> (r: Self)
        ensures
            r.view_chunks() == split_ws(text@).map_values(
                |w: Seq<char>| (Some(seq!['m', 'e', 's', 's', 'a', 'g', 'e']), text_payload(w)),
            ),
    {
        let words = split_words(text);
        let ghost f = |w: Seq<char>| (Some(seq!['m', 'e', 's', 's', 'a', 'g', 'e']), text_payload(w));
        let ghost wv = words@.map_values(|w: String| w@);
        let mut chunks: Vec<SseChunk> = Vec::new();
        let mut i: usize = 0;
        while i < words.len()
            invariant
                i <= words@.len(),
                wv == words@.map_values(|w: String| w@),
                f == (|w: Seq<char>| (Some(seq!['m', 'e', 's', 's', 'a', 'g', 'e']), text_payload(w))),
                chunks@.map_values(|c: SseChunk| chunk_view(c)) == wv.take(i as int).map_values(f),
            decreases words.len() - i,
        {
            let mut data = owned("{\"text\":\"");
            data.append(words[i].as_str());
            push_char(&mut data, '"');
            push_char(&mut data, '}');
            proof {
                reveal_strlit("{\"text\":\"");
                assert(data@ =~= text_payload(wv[i as int]));
                reveal_strlit("message");
            }
            let chunk = SseChunk { event_type: Some(owned("message")), data };
            assert("message"@ =~= seq!['m', 'e', 's', 's', 'a', 'g', 'e']);
            assert(chunk_view(chunk) == f(wv[i as int]));
            let ghost before = chunks@.map_values(|c: SseChunk| chunk_view(c));
            chunks.push(chunk);
            assert(chunks@.map_values(|c: SseChunk| chunk_view(c)) =~= before.push(f(wv[i as int])));
            assert(wv.take(i + 1).map_values(f) =~= wv.take(i as int).map_values(f).push(f(wv[i as int])));
            i = i + 1;
        }
        assert(wv.take(words@.len() as int) =~= wv);
        RecordedResponse { chunks }
    }

    /// A single chunk with no event type holding `body`.
    pub fn json_response(body: &str) -> (r: Self)
        ensures
            r.view_chunks() == seq![(None::<Seq<char>>, body@)],
    {
        let mut chunks: Vec<SseChunk> = Vec::new();
        chunks.push(SseChunk { event_type: None, data: owned(body) });
        let r = RecordedResponse { chunks };
        assert(r.view_chunks() =~= seq![(None::<Seq<char>>, body@)]);
        r
    }
}

}
