use vstd::prelude::*;

use crate::llm_client::first_newline;
use crate::text::{chars_of, string_from_chars, trim, trimmed_range};

verus! {

/// The item of line number `no` of a dataset: the trimmed line, or none for
/// a blank line.
pub open spec fn line_item(line: Seq<char>, no: nat) -> Seq<(nat, Seq<char>)> {
    if trim(line).len() == 0 {
        Seq::empty()
    } else {
        seq![(no, trim(line))]
    }
}

/// The items of the lines of `s` from index `from` on, the first of them
/// numbered `no`: lines end with `\n`, and blank lines give no item.
#[verifier::opaque]
pub open spec fn dataset_items(s: Seq<char>, from: int, no: nat) -> Seq<(nat, Seq<char>)>
    decreases s.len() - from,
{
    if from < 0 || from > s.len() {
        Seq::empty()
    } else {
        match first_newline(s.skip(from)) {
            None => line_item(s.skip(from), no),
            Some(i) => if 0 <= i < s.len() - from {
                line_item(s.subrange(from, from + i), no) + dataset_items(s, from + i + 1, (no + 1) as nat)
            } else {
                Seq::empty()
            },
        }
    }
}

proof fn lemma_items_step(s: Seq<char>, from: int, no: nat, i: int)
    requires
        0 <= from,
        0 <= i,
        from + i < s.len(),
        first_newline(s.skip(from)) == Some(i),
    ensures
        dataset_items(s, from, no) == line_item(s.subrange(from, from + i), no) + dataset_items(
            s,
            from + i + 1,
            no + 1,
        ),
{
    reveal(dataset_items);
}

proof fn lemma_items_last(s: Seq<char>, from: int, no: nat)
    requires
        0 <= from <= s.len(),
        first_newline(s.skip(from)) is None,
    ensures
        dataset_items(s, from, no) == line_item(s.skip(from), no),
{
    reveal(dataset_items);
}

/// Appending the view of one pushed item.
proof fn lemma_view_push(v: Seq<(usize, String)>, p: (usize, String))
    ensures
        numbered_view(v.push(p)) == numbered_view(v) + seq![(p.0 as nat, p.1@)],
{
    assert(numbered_view(v.push(p)) =~= numbered_view(v) + seq![(p.0 as nat, p.1@)]);
}

/// The view of numbered lines.
pub open spec fn numbered_view(v: Seq<(usize, String)>) -> Seq<(nat, Seq<char>)> {
    v.map_values(|p: (usize, String)| (p.0 as nat, p.1@))
}

/// The first `\n` in `cs` at or after `from`, as an offset from `from`.
fn newline_after(cs: &Vec<char>, from: usize) -> (r: Option<usize>)
    requires
        from <= cs@.len(),
    ensures
        match r {
            Some(i) => first_newline(cs@.skip(from as int)) == Some(i as int) && from + i < cs@.len(),
            None => first_newline(cs@.skip(from as int)) is None,
        },
{
    let ghost t = cs@.skip(from as int);
    let mut j = from;
    while j < cs.len()
        invariant
            from <= j <= cs@.len(),
            t == cs@.skip(from as int),
            forall|k: int| from <= k < j ==> cs@[k] != '\n',
        decreases cs.len() - j,
    {
        if cs[j] == '\n' {
            let i = j - from;
            proof {
                assert(t[i as int] == '\n');
                assert forall|k: int| 0 <= k < i implies t[k] != '\n' by {
                    assert(t[k] == cs@[from + k]);
                }
                let w = choose|w: int| 0 <= w < t.len() && t[w] == '\n' && forall|k: int| 0 <= k < w ==> t[k] != '\n';
                if w < i {
                    assert(cs@[from + w] == t[w]);
                }
                if w > i {
                    assert(t[i as int] != '\n');
                }
            }
            return Some(i);
        }
        j = j + 1;
    }
    assert forall|k: int| 0 <= k < t.len() implies t[k] != '\n' by {
        assert(t[k] == cs@[from + k]);
    }
    None
}

/// The non-blank lines of a dataset text, trimmed, each with its line
/// number counted from 1 (blank lines count too).
#[verifier::spinoff_prover]
pub fn dataset_lines(text: &str) -> (r: Vec<(usize, String)>)
    requires
        text@.len() < usize::MAX,
    ensures
        numbered_view(r@) == dataset_items(text@, 0, 1),
{
    let cs = chars_of(text);
    let mut r: Vec<(usize, String)> = Vec::new();
    let mut from: usize = 0;
    let mut no: usize = 1;
    loop
        invariant
            cs@ == text@,
            cs@.len() < usize::MAX,
            from <= cs@.len(),
            1 <= no <= from + 1,
            numbered_view(r@) + dataset_items(cs@, from as int, no as nat) == dataset_items(cs@, 0, 1),
        decreases cs@.len() - from,
    {
        let ghost before = r@;
        match newline_after(&cs, from) {
            None => {
                let line = trimmed_range(&cs, from, cs.len());
                proof {
                    assert(cs@.subrange(from as int, cs@.len() as int) =~= cs@.skip(from as int));
                    lemma_items_last(cs@, from as int, no as nat);
                }
                if line.len() > 0 {
                    let item = (no, string_from_chars(&line));
                    proof {
                        lemma_view_push(r@, item);
                    }
                    r.push(item);
                }
                proof {
                    assert(numbered_view(r@) =~= numbered_view(before) + line_item(cs@.skip(from as int), no as nat));
                }
                return r;
            },
            Some(i) => {
                let line = trimmed_range(&cs, from, from + i);
                proof {
                    lemma_items_step(cs@, from as int, no as nat, i as int);
                }
                if line.len() > 0 {
                    let item = (no, string_from_chars(&line));
                    proof {
                        lemma_view_push(r@, item);
                    }
                    r.push(item);
                }
                let ghost seg = line_item(cs@.subrange(from as int, from + i), no as nat);
                let ghost rest = dataset_items(cs@, from + i + 1, (no + 1) as nat);
                proof {
                    assert(numbered_view(r@) =~= numbered_view(before) + seg);
                    assert(numbered_view(before) + (seg + rest) =~= (numbered_view(before) + seg) + rest);
                }
                from = from + i + 1;
                no = no + 1;
            },
        }
    }
}

}
