use vstd::prelude::*;

use crate::text::{
    chars_eq, chars_of, contains_chars, contains_seq, owned, trim, trim_end, trim_start, trimmed_range,
};

verus! {

/// A prediction passes the contains rule when it contains the trimmed
/// expected output.
pub open spec fn contains_pass(predicted: Seq<char>, expected: Seq<char>) -> bool {
    contains_seq(predicted, trim(expected))
}

/// Law: the contains rule passes exactly when the trimmed expected output
/// is a contiguous run of the prediction's characters; so an expected
/// output longer than the prediction never passes, and the prediction
/// being a part of the expected output does not make it pass.
pub proof fn lemma_contains_pass_substring(predicted: Seq<char>, expected: Seq<char>)
    ensures
        contains_pass(predicted, expected) <==> exists|i: int|
            0 <= i && i + trim(expected).len() <= predicted.len() && #[trigger] predicted.subrange(
                i,
                i + trim(expected).len(),
            ) == trim(expected),
        trim(expected).len() > predicted.len() ==> !contains_pass(predicted, expected),
{
    let t = trim(expected);
    if contains_pass(predicted, expected) {
        let i = choose|i: int| crate::text::occurs_at(predicted, i, t);
        assert(predicted.subrange(i, i + t.len()) == t);
    }
    if exists|i: int|
        0 <= i && i + t.len() <= predicted.len() && #[trigger] predicted.subrange(i, i + t.len())
            == t {
        let i = choose|i: int|
            0 <= i && i + t.len() <= predicted.len() && #[trigger] predicted.subrange(i, i + t.len())
                == t;
        assert(crate::text::occurs_at(predicted, i, t));
    }
}

/// Law: the contains rule passes at a position where the trimmed expected
/// output occurs in the prediction.
pub proof fn lemma_contains_pass_at(predicted: Seq<char>, expected: Seq<char>, i: int)
    requires
        0 <= i,
        i + trim(expected).len() <= predicted.len(),
        predicted.subrange(i, i + trim(expected).len()) == trim(expected),
    ensures
        contains_pass(predicted, expected),
{
    assert(crate::text::occurs_at(predicted, i, trim(expected)));
}

proof fn lemma_trim_start_is_suffix(s: Seq<char>) -> (a: int)
    ensures
        0 <= a <= s.len(),
        trim_start(s) == s.skip(a),
    decreases s.len(),
{
    if s.len() > 0 && crate::text::is_ws(s[0]) {
        let a1 = lemma_trim_start_is_suffix(s.drop_first());
        assert(s.drop_first().skip(a1) =~= s.skip(a1 + 1));
        a1 + 1
    } else {
        assert(s.skip(0) =~= s);
        0
    }
}

proof fn lemma_trim_end_is_prefix(s: Seq<char>) -> (b: int)
    ensures
        0 <= b <= s.len(),
        trim_end(s) == s.take(b),
    decreases s.len(),
{
    if s.len() > 0 && crate::text::is_ws(s.last()) {
        let b1 = lemma_trim_end_is_prefix(s.drop_last());
        assert(s.drop_last().take(b1) =~= s.take(b1));
        b1
    } else {
        assert(s.take(s.len() as int) =~= s);
        s.len() as int
    }
}

/// Law: a prediction that passes the exact rule also passes the contains
/// rule: the trimmed prediction is a part of the prediction.
pub proof fn lemma_exact_implies_contains(predicted: Seq<char>, expected: Seq<char>)
    requires
        trim(predicted) == trim(expected),
    ensures
        contains_pass(predicted, expected),
{
    let a = lemma_trim_start_is_suffix(predicted);
    let b = lemma_trim_end_is_prefix(predicted.skip(a));
    assert(trim(predicted) == predicted.skip(a).take(b));
    assert(predicted.skip(a).take(b) =~= predicted.subrange(a, a + b));
    lemma_contains_pass_at(predicted, expected, a);
}

/// Exact match scorer: passes when the trimmed prediction equals the
/// trimmed expected output.
pub struct ExactMatchScorer;

/// Contains match scorer: passes when the prediction contains the trimmed
/// expected output.
pub struct ContainsScorer;

fn trimmed(s: &str) -> (r: Vec<char>)
    ensures
        r@ == trim(s@),
{
    let cs = chars_of(s);
    let r = trimmed_range(&cs, 0, cs.len());
    assert(cs@.subrange(0, cs@.len() as int) =~= s@);
    r
}

impl ExactMatchScorer {
    /// Whether `predicted` and `expected` are equal once trimmed, with the
    /// score's details: `exact match`, or the mismatch.
    pub fn judge(&self, predicted: &str, expected: &str) -> (r: (bool, String))
        ensures
            r.0 == (trim(predicted@) == trim(expected@)),
            r.0 ==> r.1@ == seq!['e', 'x', 'a', 'c', 't', ' ', 'm', 'a', 't', 'c', 'h'],
            !r.0 ==> r.1@ == seq!['m', 'i', 's', 'm', 'a', 't', 'c', 'h', ':', ' ', 'p', 'r', 'e', 'd', 'i', 'c', 't', 'e', 'd', '=', '\'']
                + predicted@ + seq!['\'', ',', ' ', 'e', 'x', 'p', 'e', 'c', 't', 'e', 'd', '=', '\''] + expected@ + seq!['\''],
    {
        let a = trimmed(predicted);
        let b = trimmed(expected);
        let same = chars_eq(&a, &b);
        proof {
            reveal_strlit("exact match");
            reveal_strlit("mismatch: predicted='");
            reveal_strlit("', expected='");
            reveal_strlit("'");
        }
        if same {
            (true, owned("exact match"))
        } else {
            let mut d = owned("mismatch: predicted='");
            d.append(predicted);
            d.append("', expected='");
            d.append(expected);
            d.append("'");
            (false, d)
        }
    }
}

impl ContainsScorer {
    /// Whether `predicted` contains the trimmed `expected`, with the score's
    /// details: `contains match`, or what was not found.
    pub fn judge(&self, predicted: &str, expected: &str) -> (r: (bool, String))
        ensures
            r.0 == contains_pass(predicted@, expected@),
            r.0 ==> r.1@ == seq!['c', 'o', 'n', 't', 'a', 'i', 'n', 's', ' ', 'm', 'a', 't', 'c', 'h'],
            !r.0 ==> r.1@ == seq!['n', 'o', 't', ' ', 'c', 'o', 'n', 't', 'a', 'i', 'n', 'e', 'd', ':', ' ', '\'']
                + expected@ + seq!['\'', ' ', 'n', 'o', 't', ' ', 'i', 'n', ' ', '\''] + predicted@ + seq!['\''],
    {
        let p = chars_of(predicted);
        let e = trimmed(expected);
        let found = contains_chars(&p, &e);
        proof {
            reveal_strlit("contains match");
            reveal_strlit("not contained: '");
            reveal_strlit("' not in '");
            reveal_strlit("'");
        }
        if found {
            (true, owned("contains match"))
        } else {
            let mut d = owned("not contained: '");
            d.append(expected);
            d.append("' not in '");
            d.append(predicted);
            d.append("'");
            (false, d)
        }
    }
}

}
