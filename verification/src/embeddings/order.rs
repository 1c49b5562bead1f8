use vstd::prelude::*;

verus! {

/// Position `a` comes before position `b` when its key is smaller, or when
/// the keys are equal and `a` is the earlier position.
pub open spec fn by_key_then_index(keys: Seq<usize>, a: int, b: int) -> bool {
    keys[a] < keys[b] || (keys[a] == keys[b] && a < b)
}

/// `p` lists every position of `keys` once, ordered by key and, among equal
/// keys, by position: the order of a stable sort by key.
pub open spec fn is_stable_order(keys: Seq<usize>, p: Seq<usize>) -> bool {
    &&& p.len() == keys.len()
    &&& forall|i: int| 0 <= i < p.len() ==> #[trigger] p[i] < keys.len()
    &&& forall|i: int, j: int| 0 <= i < j < p.len() ==> by_key_then_index(keys, p[i] as int, p[j] as int)
}

/// The positions of `keys` in the order of a stable sort by key.
pub fn sorted_positions(keys: &Vec<usize>) -> (r: Vec<usize>)
    ensures
        is_stable_order(keys@, r@),
{
    let mut p: Vec<usize> = Vec::new();
    let mut i: usize = 0;
    while i < keys.len()
        invariant
            i <= keys@.len(),
            p@.len() == i,
            forall|k: int| 0 <= k < p@.len() ==> #[trigger] p@[k] < i,
            forall|a: int, b: int| 0 <= a < b < p@.len() ==> by_key_then_index(keys@, p@[a] as int, p@[b] as int),
        decreases keys.len() - i,
    {
        // the new position goes after every entry whose key is not greater
        let mut pos: usize = 0;
        while pos < p.len() && keys[p[pos]] <= keys[i]
            invariant
                pos <= p@.len(),
                forall|k: int| 0 <= k < p@.len() ==> #[trigger] p@[k] < i,
                i < keys@.len(),
                forall|k: int| 0 <= k < pos ==> keys@[#[trigger] p@[k] as int] <= keys@[i as int],
            decreases p.len() - pos,
        {
            pos = pos + 1;
        }
        let ghost old_p = p@;
        p.insert(pos, i);
        assert forall|a: int, b: int| 0 <= a < b < p@.len() implies by_key_then_index(keys@, p@[a] as int, p@[b] as int) by {
            if b < pos {
                assert(p@[a] == old_p[a] && p@[b] == old_p[b]);
            } else if b == pos {
                assert(p@[a] == old_p[a]);
                assert(keys@[old_p[a] as int] <= keys@[i as int]);
            } else if a == pos {
                assert(p@[b] == old_p[b - 1]);
                if pos < old_p.len() {
                    assert(keys@[old_p[pos as int] as int] > keys@[i as int]);
                    if b - 1 > pos {
                        assert(by_key_then_index(keys@, old_p[pos as int] as int, old_p[b - 1] as int));
                    }
                }
            } else if a < pos {
                assert(p@[a] == old_p[a] && p@[b] == old_p[b - 1]);
            } else {
                assert(p@[a] == old_p[a - 1] && p@[b] == old_p[b - 1]);
            }
        }
        i = i + 1;
    }
    p
}

}
