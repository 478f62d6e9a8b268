//! Trending words in comment text.
use vstd::prelude::*;
use crate::model::Comment;
use crate::analytics::AnalyticsEngine;
use crate::ranking::{is_top_ranking, scored_view, top_by_score};
use crate::sentiment::{lowercase, lowercase_of, chars_of};

verus! {

/// Unicode white space, as `char::is_whitespace` defines it.
pub open spec fn is_space_spec(c: char) -> bool {
    let u = c as u32;
    (0x09 <= u <= 0x0D) || u == 0x20 || u == 0x85 || u == 0xA0 || u == 0x1680 || (0x2000 <= u <= 0x200A) || u == 0x2028
        || u == 0x2029 || u == 0x202F || u == 0x205F || u == 0x3000
}

/// `is_space_spec` on a character.
pub fn is_space(c: char) -> (r: bool)
    ensures
        r == is_space_spec(c),
{
    let u = c as u32;
    (0x09 <= u && u <= 0x0D) || u == 0x20 || u == 0x85 || u == 0xA0 || u == 0x1680 || (0x2000 <= u && u <= 0x200A) || u
        == 0x2028 || u == 0x2029 || u == 0x202F || u == 0x205F || u == 0x3000
}

/// The maximal runs of non-space characters of `s`, in order.
pub open spec fn tokens(s: Seq<char>) -> Seq<Seq<char>>
    decreases s.len(),
{
    if s.len() == 0 {
        Seq::empty()
    } else {
        let t = tokens(s.drop_last());
        let c = s.last();
        if is_space_spec(c) {
            t
        } else if s.len() >= 2 && !is_space_spec(s[s.len() - 2]) {
            t.drop_last().push(t.last().push(c))
        } else {
            t.push(seq![c])
        }
    }
}

/// Words that never trend.
pub open spec fn stopwords() -> Seq<Seq<char>> {
    seq![
        "the"@, "a"@, "an"@, "and"@, "or"@, "but"@, "is"@, "are"@, "was"@, "were"@, "i"@, "you"@, "he"@, "she"@,
    ]
}

/// The lowercase words of each comment, comment by comment.
pub open spec fn comment_words(comments: Seq<Comment>) -> Seq<Seq<char>>
    decreases comments.len(),
{
    if comments.len() == 0 {
        Seq::empty()
    } else {
        comment_words(comments.drop_last()) + tokens(comments.last().text@).map_values(|w: Seq<char>| lowercase_of(w))
    }
}

/// How often `w` occurs in `words`.
pub open spec fn occurrences(words: Seq<Seq<char>>, w: Seq<char>) -> int
    decreases words.len(),
{
    if words.len() == 0 {
        0
    } else {
        occurrences(words.drop_last(), w) + if words.last() == w {
            1int
        } else {
            0
        }
    }
}

/// Each word of `words` that is no stopword, with its count in `all`.
pub open spec fn topic_candidates(all: Seq<Seq<char>>, words: Seq<Seq<char>>) -> Seq<(Seq<char>, int)>
    decreases words.len(),
{
    if words.len() == 0 {
        Seq::empty()
    } else {
        let rest = topic_candidates(all, words.drop_last());
        let w = words.last();
        if stopwords().contains(w) {
            rest
        } else {
            rest.push((w, occurrences(all, w)))
        }
    }
}

/// The ids of a ranking, in order.
pub open spec fn ranked_ids(ranked: Seq<(Seq<char>, int)>) -> Seq<Seq<char>> {
    ranked.map_values(|p: (Seq<char>, int)| p.0)
}

/// Views of a list of strings.
pub open spec fn views_of(s: Seq<String>) -> Seq<Seq<char>> {
    s.map_values(|x: String| x@)
}

/// Start and end positions of the tokens of `s`.
fn token_ranges(s: &Vec<char>) -> (r: Vec<(usize, usize)>)
    ensures
        r@.len() == tokens(s@).len(),
        forall|k: int|
            0 <= k < r@.len() ==> (#[trigger] r@[k]).0 <= r@[k].1 <= s@.len() && s@.subrange(r@[k].0 as int, r@[k].1 as int)
                == tokens(s@)[k],
{
    let mut r: Vec<(usize, usize)> = Vec::new();
    let mut i: usize = 0;
    while i < s.len()
        invariant
            i <= s@.len(),
            r@.len() == tokens(s@.subrange(0, i as int)).len(),
            forall|k: int|
                0 <= k < r@.len() ==> (#[trigger] r@[k]).0 <= r@[k].1 <= i && s@.subrange(r@[k].0 as int, r@[k].1 as int)
                    == tokens(s@.subrange(0, i as int))[k],
            i > 0 && !is_space_spec(s@[i - 1]) ==> r@.len() > 0 && r@.last().1 == i,
        decreases s@.len() - i,
    {
        let ghost p = s@.subrange(0, i + 1);
        let ghost t = tokens(s@.subrange(0, i as int));
        proof {
            assert(p.drop_last() == s@.subrange(0, i as int));
            assert(p.last() == s@[i as int]);
            if i >= 1 {
                assert(p[p.len() - 2] == s@[i - 1]);
            }
        }
        let c = s[i];
        if is_space(c) {
            assert(tokens(p) == t);
            assert forall|k: int| 0 <= k < r@.len() implies (#[trigger] r@[k]).0 <= r@[k].1 <= i + 1 && s@.subrange(
                r@[k].0 as int,
                r@[k].1 as int,
            ) == tokens(p)[k] by {
                assert(r@[k].0 <= r@[k].1 <= i);
            }
        } else {
            let ghost before = r@;
            if i > 0 && !is_space(s[i - 1]) {
                let last = r.len() - 1;
                let start = r[last].0;
                r.set(last, (start, i + 1));
                proof {
                    assert(before[last as int].1 == i);
                    assert(t.last() == s@.subrange(start as int, i as int));
                    assert(tokens(p) == t.drop_last().push(t.last().push(c)));
                    assert(s@.subrange(start as int, i + 1) =~= s@.subrange(start as int, i as int).push(c));
                    assert forall|k: int| 0 <= k < r@.len() implies (#[trigger] r@[k]).0 <= r@[k].1 <= i + 1 && s@.subrange(
                        r@[k].0 as int,
                        r@[k].1 as int,
                    ) == tokens(p)[k] by {
                        if k < last {
                            assert(r@[k] == before[k]);
                            assert(tokens(p)[k] == t[k]);
                        } else {
                            assert(r@[k] == (start, (i + 1) as usize));
                            assert(tokens(p)[k] == t.last().push(c));
                        }
                    }
                }
            } else {
                r.push((i, i + 1));
                proof {
                    assert(tokens(p) == t.push(seq![c]));
                    assert(s@.subrange(i as int, i + 1) =~= seq![c]);
                    assert forall|k: int| 0 <= k < r@.len() implies (#[trigger] r@[k]).0 <= r@[k].1 <= i + 1 && s@.subrange(
                        r@[k].0 as int,
                        r@[k].1 as int,
                    ) == tokens(p)[k] by {
                        if k < before.len() {
                            assert(r@[k] == before[k]);
                        }
                    }
                }
            }
        }
        i += 1;
        assert(s@.subrange(0, i as int) == p);
    }
    assert(s@.subrange(0, s@.len() as int) == s@);
    r
}

/// Whether `w` is a stopword.
fn is_stopword(w: &String) -> (r: bool)
    ensures
        r == stopwords().contains(w@),
{
    let list: Vec<&str> = vec!["the", "a", "an", "and", "or", "but", "is", "are", "was", "were", "i", "you", "he", "she"];
    assert(list@.map_values(|x: &str| x@) =~= stopwords());
    let mut i: usize = 0;
    while i < list.len()
        invariant
            i <= list@.len(),
            list@.map_values(|x: &str| x@) == stopwords(),
            forall|k: int| 0 <= k < i ==> stopwords()[k] != w@,
        decreases list@.len() - i,
    {
        let sw = String::from_str(list[i]);
        if sw == *w {
            assert(stopwords()[i as int] == w@);
            return true;
        }
        i += 1;
    }
    false
}

/// How often `w` occurs in `words`.
fn count_word(words: &Vec<String>, w: &String) -> (r: i128)
    ensures
        r == occurrences(views_of(words@), w@),
{
    let ghost v = views_of(words@);
    let mut n: i128 = 0;
    let mut i: usize = 0;
    while i < words.len()
        invariant
            i <= words@.len(),
            v == views_of(words@),
            n == occurrences(v.subrange(0, i as int), w@),
            0 <= n <= i,
        decreases words@.len() - i,
    {
        proof {
            assert(v.subrange(0, i + 1).drop_last() == v.subrange(0, i as int));
        }
        if words[i] == *w {
            n = n + 1;
        }
        i += 1;
    }
    assert(v.subrange(0, words@.len() as int) == v);
    n
}

/// The lowercase words of all comments.
fn all_words(comments: &Vec<Comment>) -> (r: Vec<String>)
    ensures
        views_of(r@) == comment_words(comments@),
{
    let mut out: Vec<String> = Vec::new();
    let mut i: usize = 0;
    while i < comments.len()
        invariant
            i <= comments@.len(),
            views_of(out@) == comment_words(comments@.subrange(0, i as int)),
        decreases comments@.len() - i,
    {
        proof {
            assert(comments@.subrange(0, i + 1).drop_last() == comments@.subrange(0, i as int));
        }
        let text = comments[i].text.as_str();
        let chars = chars_of(text);
        let ranges = token_ranges(&chars);
        let ghost w0 = views_of(out@);
        let ghost toks = tokens(text@).map_values(|w: Seq<char>| lowercase_of(w));
        let mut k: usize = 0;
        while k < ranges.len()
            invariant
                k <= ranges@.len(),
                chars@ == text@,
                ranges@.len() == tokens(chars@).len(),
                forall|j: int|
                    0 <= j < ranges@.len() ==> (#[trigger] ranges@[j]).0 <= ranges@[j].1 <= chars@.len() && chars@.subrange(
                        ranges@[j].0 as int,
                        ranges@[j].1 as int,
                    ) == tokens(chars@)[j],
                toks == tokens(text@).map_values(|w: Seq<char>| lowercase_of(w)),
                out@.len() == w0.len() + k,
                views_of(out@) == w0 + toks.subrange(0, k as int),
            decreases ranges@.len() - k,
        {
            let (a, b) = ranges[k];
            let piece = text.substring_char(a, b);
            let word = lowercase(piece);
            let ghost before = out@;
            out.push(word);
            proof {
                assert(piece@ == tokens(text@)[k as int]);
                assert(views_of(out@) =~= w0 + toks.subrange(0, k + 1)) by {
                    assert forall|j: int| 0 <= j < out@.len() implies #[trigger] views_of(out@)[j] == (w0 + toks.subrange(0, k + 1))[j] by {
                        if j < before.len() {
                            assert(out@[j] == before[j]);
                            assert(views_of(before)[j] == (w0 + toks.subrange(0, k as int))[j]);
                        }
                    }
                }
            }
            k += 1;
        }
        assert(toks.subrange(0, ranges@.len() as int) == toks);
        i += 1;
    }
    assert(comments@.subrange(0, comments@.len() as int) == comments@);
    out
}

impl AnalyticsEngine {
/// The (at most ten) most frequent lowercase words of the comments, most
/// frequent first, stopwords left out.
pub fn extract_trending_topics(&self, comments: &Vec<Comment>) -> (r: Vec<String>)
    ensures
        exists|ranked: Seq<(Seq<char>, int)>|
            is_top_ranking(topic_candidates(comment_words(comments@), comment_words(comments@)), ranked, 10)
                && #[trigger] ranked_ids(ranked) == views_of(r@),
{
    let words = all_words(comments);
    let ghost all = comment_words(comments@);
    let mut cands: Vec<(String, i128)> = Vec::new();
    let mut i: usize = 0;
    while i < words.len()
        invariant
            i <= words@.len(),
            views_of(words@) == all,
            scored_view(cands@) == topic_candidates(all, all.subrange(0, i as int)),
        decreases words@.len() - i,
    {
        proof {
            assert(all.subrange(0, i + 1).drop_last() == all.subrange(0, i as int));
            assert(all.subrange(0, i + 1).last() == words@[i as int]@);
        }
        if !is_stopword(&words[i]) {
            let n = count_word(&words, &words[i]);
            cands.push((words[i].clone(), n));
        }
        i += 1;
    }
    assert(all.subrange(0, words@.len() as int) == all);
    let top = top_by_score(&cands, 10);
    let mut out: Vec<String> = Vec::new();
    let mut k: usize = 0;
    while k < top.len()
        invariant
            k <= top@.len(),
            out@.len() == k,
            forall|j: int| 0 <= j < k ==> #[trigger] out@[j]@ == top@[j].0@,
        decreases top@.len() - k,
    {
        out.push(top[k].0.clone());
        k += 1;
    }
    assert(ranked_ids(scored_view(top@)) =~= views_of(out@));
    out
}
}

} // verus!
