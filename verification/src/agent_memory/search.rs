use vstd::prelude::*;

use crate::text::{contains_seq, decimal, decimal_spec, owned, str_contains, strings_view};

verus! {

/// Whether a memory entry with this content and these tags matches the
/// keyword `text`: `text` occurs in the content or in one of the tags.
pub open spec fn keyword_matches(content: Seq<char>, tags: Seq<Seq<char>>, text: Seq<char>) -> bool {
    contains_seq(content, text) || exists|i: int| 0 <= i < tags.len() && contains_seq(#[trigger] tags[i], text)
}

/// Law: every tag is searched, the last one included: when `text` occurs
/// at position `k` of tag `i`, the entry matches.
pub proof fn lemma_keyword_in_tag(
    content: Seq<char>,
    tags: Seq<Seq<char>>,
    text: Seq<char>,
    i: int,
    k: int,
)
    requires
        0 <= i < tags.len(),
        0 <= k,
        k + text.len() <= tags[i].len(),
        tags[i].subrange(k, k + text.len()) == text,
    ensures
        keyword_matches(content, tags, text),
{
    assert(crate::text::occurs_at(tags[i], k, text));
    assert(contains_seq(tags[i], text));
}

/// Law: when `text` occurs at position `k` of the content, the entry
/// matches.
pub proof fn lemma_keyword_in_content(content: Seq<char>, tags: Seq<Seq<char>>, text: Seq<char>, k: int)
    requires
        0 <= k,
        k + text.len() <= content.len(),
        content.subrange(k, k + text.len()) == text,
    ensures
        keyword_matches(content, tags, text),
{
    assert(crate::text::occurs_at(content, k, text));
}

/// Law: an entry matches only when `text` occurs somewhere in its content
/// or in one of its tags.
pub proof fn lemma_keyword_match_found(content: Seq<char>, tags: Seq<Seq<char>>, text: Seq<char>)
    requires
        keyword_matches(content, tags, text),
    ensures
        (exists|k: int|
            0 <= k && k + text.len() <= content.len() && #[trigger] content.subrange(k, k + text.len())
                == text) || (exists|i: int, k: int|
            0 <= i < tags.len() && 0 <= k && k + text.len() <= tags[i].len() && #[trigger] tags[i].subrange(
                k,
                k + text.len(),
            ) == text),
{
    if contains_seq(content, text) {
        let k = choose|k: int| crate::text::occurs_at(content, k, text);
        assert(content.subrange(k, k + text.len()) == text);
    } else {
        let i = choose|i: int| 0 <= i < tags.len() && contains_seq(#[trigger] tags[i], text);
        let k = choose|k: int| crate::text::occurs_at(tags[i], k, text);
        assert(tags[i].subrange(k, k + text.len()) == text);
    }
}

/// The keyword test of memory search: whether `text` occurs in `content`
/// or in one of `tags`.
pub fn keyword_match(content: &str, tags: &Vec<String>, text: &str) -> (r: bool)
    ensures
        r == keyword_matches(content@, strings_view(tags@), text@),
{
    if str_contains(content, text) {
        return true;
    }
    let ghost tv = strings_view(tags@);
    let mut i: usize = 0;
    while i < tags.len()
        invariant
            i <= tags@.len(),
            tv == strings_view(tags@),
            forall|j: int| 0 <= j < i ==> !contains_seq(#[trigger] tv[j], text@),
        decreases tags.len() - i,
    {
        if str_contains(tags[i].as_str(), text) {
            assert(contains_seq(tv[i as int], text@));
            return true;
        }
        i = i + 1;
    }
    false
}

/// The id given to the `n`-th entry created without an id: `mem_<n>`.
pub open spec fn entry_id_spec(n: nat) -> Seq<char> {
    seq!['m', 'e', 'm', '_'] + decimal_spec(n)
}

/// The id of the `n`-th entry created without an id.
pub fn entry_id(n: u64) -> (r: String)
    ensures
        r@ == entry_id_spec(n as nat),
{
    let mut r = owned("mem_");
    r.append(decimal(n).as_str());
    proof {
        reveal_strlit("mem_");
    }
    r
}

/// Two different counter values give different entry ids.
pub proof fn lemma_entry_ids_differ(a: nat, b: nat)
    requires
        a != b,
    ensures
        entry_id_spec(a) != entry_id_spec(b),
{
    crate::text::lemma_decimal_injective(a, b);
    if entry_id_spec(a) == entry_id_spec(b) {
        assert(entry_id_spec(a).skip(4) =~= decimal_spec(a));
        assert(entry_id_spec(b).skip(4) =~= decimal_spec(b));
    }
}

}
