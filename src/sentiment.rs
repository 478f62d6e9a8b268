//! Keyword sentiment of comment text.
use vstd::prelude::*;
use crate::fixed::{UNIT, div_floor};

verus! {

/// What `str::to_lowercase` makes of a text.
pub uninterp spec fn lowercase_of(s: Seq<char>) -> Seq<char>;

/// Relies on `str::to_lowercase`: the lowercase form of `s`, which depends on
/// the characters of `s` alone.
#[verifier::external_body]
pub(crate) fn lowercase(s: &str) -> (r: String)
    ensures
        r@ == lowercase_of(s@),
{
    s.to_lowercase()
}

/// Whether `word` occurs in `text` as a run of consecutive characters.
pub open spec fn contains_word(text: Seq<char>, word: Seq<char>) -> bool {
    exists|i: int| 0 <= i && i + word.len() <= text.len() && #[trigger] text.subrange(i, i + word.len()) == word
}

/// Words that count toward a positive sentiment.
pub open spec fn positive_words() -> Seq<Seq<char>> {
    seq!["good"@, "great"@, "awesome"@, "excellent"@, "like"@, "love"@]
}

/// Words that count toward a negative sentiment.
pub open spec fn negative_words() -> Seq<Seq<char>> {
    seq!["bad"@, "poor"@, "terrible"@, "hate"@, "dislike"@, "boring"@]
}

/// How many of `words` occur in `text`.
pub open spec fn hits(text: Seq<char>, words: Seq<Seq<char>>) -> int
    decreases words.len(),
{
    if words.len() == 0 {
        0
    } else {
        hits(text, words.drop_last()) + if contains_word(text, words.last()) {
            1int
        } else {
            0
        }
    }
}

/// Sentiment of lowercase text: `(positive - negative) / (positive + negative)`
/// over keyword hits, zero without hits.
pub open spec fn sentiment_spec(lower: Seq<char>) -> int {
    let p = hits(lower, positive_words());
    let n = hits(lower, negative_words());
    if p + n == 0 {
        0
    } else {
        ((p - n) * UNIT) / (p + n)
    }
}

proof fn lemma_hits_bounds(text: Seq<char>, words: Seq<Seq<char>>)
    ensures
        0 <= hits(text, words) <= words.len(),
    decreases words.len(),
{
    if words.len() > 0 {
        lemma_hits_bounds(text, words.drop_last());
    }
}

/// The characters of `s`, one by one.
pub fn chars_of(s: &str) -> (r: Vec<char>)
    ensures
        r@ == s@,
{
    let n = s.unicode_len();
    let mut r: Vec<char> = Vec::new();
    let mut i: usize = 0;
    while i < n
        invariant
            n == s@.len(),
            i <= n,
            r@ == s@.subrange(0, i as int),
        decreases n - i,
    {
        r.push(s.get_char(i));
        i += 1;
        assert(r@ =~= s@.subrange(0, i as int));
    }
    assert(s@.subrange(0, n as int) == s@);
    r
}

/// Whether `w` occurs in `t`.
fn occurs_in(t: &Vec<char>, w: &Vec<char>) -> (r: bool)
    ensures
        r == contains_word(t@, w@),
{
    if w.len() > t.len() {
        return false;
    }
    if w.len() == 0 {
        assert(t@.subrange(0, 0 + w@.len() as int) =~= w@);
        return true;
    }
    let tl = t.len();
    let last = tl - w.len();
    let mut i: usize = 0;
    while i <= last
        invariant
            tl == t@.len(),
            last == t@.len() - w@.len(),
            last < t@.len(),
            i <= last + 1,
            forall|k: int| 0 <= k < i ==> #[trigger] t@.subrange(k, k + w@.len()) != w@,
        decreases last + 1 - i,
    {
        let mut j: usize = 0;
        let mut same = true;
        while j < w.len() && same
            invariant
                i <= last,
                tl == t@.len(),
                last == t@.len() - w@.len(),
                i + w@.len() <= t@.len(),
                j <= w@.len(),
                same ==> forall|m: int| 0 <= m < j ==> t@[i + m] == w@[m],
                !same ==> j > 0 && t@[i + j - 1] != w@[j - 1],
            decreases w@.len() - j, (if same { 1int } else { 0 }),
        {
            if t[i + j] != w[j] {
                same = false;
            }
            j += 1;
        }
        if same {
            assert(t@.subrange(i as int, i + w@.len()) =~= w@);
            return true;
        }
        assert(t@.subrange(i as int, i + w@.len())[j - 1] != w@[j - 1]);
        i += 1;
    }
    false
}

/// How many of `words` occur in `t`.
fn count_hits(t: &Vec<char>, words: &Vec<Vec<char>>) -> (r: i128)
    ensures
        r == hits(t@, words@.map_values(|w: Vec<char>| w@)),
{
    let ghost ws = words@.map_values(|w: Vec<char>| w@);
    let mut c: i128 = 0;
    let mut k: usize = 0;
    while k < words.len()
        invariant
            k <= words.len(),
            ws == words@.map_values(|w: Vec<char>| w@),
            c == hits(t@, ws.subrange(0, k as int)),
            c <= k,
        decreases words.len() - k,
    {
        proof {
            assert(ws.subrange(0, k + 1).drop_last() == ws.subrange(0, k as int));
            lemma_hits_bounds(t@, ws.subrange(0, k as int));
        }
        if occurs_in(t, &words[k]) {
            c = c + 1;
        }
        k += 1;
    }
    assert(ws.subrange(0, words.len() as int) == ws);
    c
}

/// Sentiment of text that is already lowercase, as a fixed-point value in
/// `[-1, 1]`.
pub fn sentiment_of_lowercase(lower: &String) -> (r: i64)
    ensures
        r == sentiment_spec(lower@),
{
    let t = chars_of(lower.as_str());
    let pos: Vec<Vec<char>> = vec![
        chars_of("good"), chars_of("great"), chars_of("awesome"),
        chars_of("excellent"), chars_of("like"), chars_of("love"),
    ];
    let neg: Vec<Vec<char>> = vec![
        chars_of("bad"), chars_of("poor"), chars_of("terrible"),
        chars_of("hate"), chars_of("dislike"), chars_of("boring"),
    ];
    assert(pos@.map_values(|w: Vec<char>| w@) =~= positive_words());
    assert(neg@.map_values(|w: Vec<char>| w@) =~= negative_words());
    let p = count_hits(&t, &pos);
    let n = count_hits(&t, &neg);
    proof {
        lemma_hits_bounds(lower@, positive_words());
        lemma_hits_bounds(lower@, negative_words());
    }
    if p + n == 0 {
        0
    } else {
        let r = div_floor((p - n) * UNIT as i128, p + n);
        proof {
            vstd::arithmetic::div_mod::lemma_div_is_ordered((p - n) * UNIT, (p + n) * UNIT, p + n);
            vstd::arithmetic::div_mod::lemma_div_is_ordered(-(p + n) * UNIT, (p - n) * UNIT, p + n);
            assert((p + n) * UNIT == (p + n) * (UNIT as int)) by (nonlinear_arith);
            vstd::arithmetic::div_mod::lemma_div_multiples_vanish(UNIT as int, p + n);
            assert(-(p + n) * UNIT == (p + n) * (-UNIT)) by (nonlinear_arith);
            vstd::arithmetic::div_mod::lemma_div_multiples_vanish(-UNIT as int, p + n);
        }
        r as i64
    }
}

/// Sentiment of comment text: keyword hits counted in its lowercase form.
pub fn analyze_sentiment(text: &String) -> (r: i64)
    ensures
        r == sentiment_spec(lowercase_of(text@)),
{
    let lower = lowercase(text.as_str());
    sentiment_of_lowercase(&lower)
}

} // verus!
