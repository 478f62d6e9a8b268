//! Ranked lists of `(video_id, score)` pairs: selection of the best distinct
//! entries, highest score first.
use vstd::prelude::*;

verus! {

/// A scored list seen as mathematical pairs of id and score.
pub open spec fn scored_view(v: Seq<(String, i128)>) -> Seq<(Seq<char>, int)> {
    v.map_values(|p: (String, i128)| (p.0@, p.1 as int))
}

/// Some entry of `list` carries the id `id`.
pub open spec fn has_id(list: Seq<(Seq<char>, int)>, id: Seq<char>) -> bool {
    exists|k: int| 0 <= k < list.len() && #[trigger] list[k].0 == id
}

/// `out` is a ranking of the best entries of `input`, at most `count` long:
/// scores never increase along it, its ids are distinct, each entry comes from
/// `input` with the highest score that `input` gives its id, and every id left
/// out scores no more than the last entry, which only happens when the list is
/// full. Ties between equal scores may be resolved either way.
pub open spec fn is_top_ranking(input: Seq<(Seq<char>, int)>, out: Seq<(Seq<char>, int)>, count: int) -> bool {
    &&& out.len() <= count
    &&& forall|i: int, j: int| 0 <= i < j < out.len() ==> #[trigger] out[i].1 >= #[trigger] out[j].1
    &&& forall|i: int, j: int| 0 <= i < j < out.len() ==> #[trigger] out[i].0 != #[trigger] out[j].0
    &&& forall|i: int| 0 <= i < out.len() ==> input.contains(#[trigger] out[i])
    &&& forall|i: int, k: int|
        0 <= i < out.len() && 0 <= k < input.len() && #[trigger] input[k].0 == #[trigger] out[i].0
            ==> input[k].1 <= out[i].1
    &&& forall|k: int|
        0 <= k < input.len() && !has_id(out, #[trigger] input[k].0) ==> out.len() == count && (count == 0
            || input[k].1 <= out[count - 1].1)
}

/// A ranking of a non-empty input with room for one entry is not empty.
pub proof fn lemma_top_ranking_not_empty(input: Seq<(Seq<char>, int)>, out: Seq<(Seq<char>, int)>, count: int)
    requires
        is_top_ranking(input, out, count),
        input.len() >= 1,
        count >= 1,
    ensures
        out.len() >= 1,
{
    if out.len() == 0 {
        assert(!has_id(out, input[0].0));
    }
}

/// Whether some entry of `list` has the id `id`.
pub fn contains_id(list: &Vec<(String, i128)>, id: &String) -> (r: bool)
    ensures
        r == has_id(scored_view(list@), id@),
{
    let ghost v = scored_view(list@);
    let mut i: usize = 0;
    while i < list.len()
        invariant
            i <= list.len(),
            v == scored_view(list@),
            forall|k: int| 0 <= k < i ==> v[k].0 != id@,
        decreases list.len() - i,
    {
        if list[i].0 == *id {
            assert(v[i as int].0 == id@);
            return true;
        }
        i += 1;
    }
    false
}

/// The best `count` distinct entries of `items`, highest score first.
pub fn top_by_score(items: &Vec<(String, i128)>, count: usize) -> (out: Vec<(String, i128)>)
    ensures
        is_top_ranking(scored_view(items@), scored_view(out@), count as int),
{
    let ghost input = scored_view(items@);
    let mut out: Vec<(String, i128)> = Vec::new();
    let mut done = false;
    while out.len() < count && !done
        invariant
            input == scored_view(items@),
            out.len() <= count,
            ({
                let o = scored_view(out@);
                &&& forall|i: int, j: int| 0 <= i < j < o.len() ==> #[trigger] o[i].1 >= #[trigger] o[j].1
                &&& forall|i: int, j: int| 0 <= i < j < o.len() ==> #[trigger] o[i].0 != #[trigger] o[j].0
                &&& forall|i: int| 0 <= i < o.len() ==> input.contains(#[trigger] o[i])
                &&& forall|i: int, k: int|
                    0 <= i < o.len() && 0 <= k < input.len() && #[trigger] input[k].0 == #[trigger] o[i].0
                        ==> input[k].1 <= o[i].1
                &&& forall|k: int|
                    0 <= k < input.len() && !has_id(o, #[trigger] input[k].0) ==> (o.len() == 0
                        || input[k].1 <= o[o.len() - 1].1)
                &&& done ==> forall|k: int| 0 <= k < input.len() ==> has_id(o, #[trigger] input[k].0)
            }),
        decreases count - out.len(), (if done { 0int } else { 1int }),
    {
        let ghost o = scored_view(out@);
        let mut best: Option<usize> = None;
        let mut k: usize = 0;
        while k < items.len()
            invariant
                input == scored_view(items@),
                o == scored_view(out@),
                k <= items.len(),
                match best {
                    Some(b) => {
                        &&& b < k
                        &&& !has_id(o, input[b as int].0)
                        &&& forall|j: int| 0 <= j < k && !has_id(o, #[trigger] input[j].0) ==> input[j].1 <= input[b as int].1
                    },
                    None => forall|j: int| 0 <= j < k ==> has_id(o, #[trigger] input[j].0),
                },
            decreases items.len() - k,
        {
            let present = contains_id(&out, &items[k].0);
            if !present {
                match best {
                    None => {
                        best = Some(k);
                    },
                    Some(b) => {
                        if items[k].1 > items[b].1 {
                            best = Some(k);
                        }
                    },
                }
            }
            k += 1;
        }
        match best {
            None => {
                done = true;
            },
            Some(b) => {
                let id = items[b].0.clone();
                let ghost e = input[b as int];
                out.push((id, items[b].1));
                let ghost o2 = scored_view(out@);
                assert(o2 == o.push(e));
                assert(input.contains(e)) by {
                    assert(input[b as int] == e);
                }
                assert forall|j: int| 0 <= j < input.len() && !has_id(o2, #[trigger] input[j].0) implies input[j].1 <= e.1 by {
                    if has_id(o, input[j].0) {
                        let kk = choose|kk: int| 0 <= kk < o.len() && #[trigger] o[kk].0 == input[j].0;
                        assert(o2[kk].0 == input[j].0);
                    }
                }
                assert forall|i: int, kk: int|
                    0 <= i < o2.len() && 0 <= kk < input.len() && #[trigger] input[kk].0 == #[trigger] o2[i].0
                        implies input[kk].1 <= o2[i].1 by {
                    if i == o.len() {
                        if has_id(o, input[kk].0) {
                            let m = choose|m: int| 0 <= m < o.len() && #[trigger] o[m].0 == input[kk].0;
                            assert(o[m].0 == e.0);
                            assert(has_id(o, e.0));
                        }
                    }
                }
                assert forall|i: int, j: int| 0 <= i < j < o2.len() implies #[trigger] o2[i].0 != #[trigger] o2[j].0 by {
                    if j == o.len() && o2[i].0 == o2[j].0 {
                        assert(o[i].0 == e.0);
                        assert(has_id(o, e.0));
                    }
                }
                assert forall|i: int, j: int| 0 <= i < j < o2.len() implies #[trigger] o2[i].1 >= #[trigger] o2[j].1 by {
                    if j == o.len() && o.len() > 0 {
                        assert(o[o.len() - 1].1 >= o[i].1 || o[i].1 >= o[o.len() - 1].1);
                    }
                }
            },
        }
    }
    out
}

/// The first `count` entries of `list` (all of them when it is shorter).
pub fn take_prefix(list: &Vec<(String, i128)>, count: usize) -> (out: Vec<(String, i128)>)
    ensures
        scored_view(out@) == scored_view(list@).take(if count < list@.len() { count as int } else { list@.len() as int }),
{
    let n = if count < list.len() {
        count
    } else {
        list.len()
    };
    let mut out: Vec<(String, i128)> = Vec::new();
    let mut i: usize = 0;
    while i < n
        invariant
            n <= list@.len(),
            i <= n,
            out@.len() == i,
            scored_view(out@) == scored_view(list@).take(i as int),
        decreases n - i,
    {
        let ghost before = out@;
        out.push((list[i].0.clone(), list[i].1));
        assert(scored_view(out@) =~= scored_view(list@).take(i + 1)) by {
            assert forall|k: int| 0 <= k < i implies #[trigger] scored_view(out@)[k] == scored_view(list@).take(i + 1)[k] by {
                assert(out@[k] == before[k]);
                assert(scored_view(before)[k] == scored_view(list@).take(i as int)[k]);
            }
        }
        i += 1;
    }
    out
}

} // verus!
