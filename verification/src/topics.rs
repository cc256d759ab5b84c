//! Keyword extraction over message text: splitting into words, cleaning,
//! stop-word filtering, frequency ranking, and pulling a likely username
//! out of a free-form query.

use vstd::prelude::*;
use vstd::string::*;
use crate::text::str_eq;

verus! {

/// What Unicode lower-casing yields for a string: a function of the
/// characters alone.
pub uninterp spec fn unicode_lower(s: Seq<char>) -> Seq<char>;

/// Whether a character counts as alphabetic: a function of the character
/// alone.
pub uninterp spec fn char_alphabetic(c: char) -> bool;

/// Whether a character counts as whitespace: a function of the character
/// alone.
pub uninterp spec fn char_whitespace(c: char) -> bool;

/// Relies on str::to_lowercase: the result depends on the characters
/// alone; an empty string stays empty.
#[verifier::external_body]
fn to_lowercase_string(s: &str) -> (r: String)
    ensures
        r@ == unicode_lower(s@),
        s@.len() == 0 ==> r@.len() == 0,
{
    s.to_lowercase()
}

/// Relies on char::is_alphabetic: the result depends on the character
/// alone.
#[verifier::external_body]
fn is_alphabetic_char(c: char) -> (r: bool)
    ensures
        r == char_alphabetic(c),
{
    c.is_alphabetic()
}

/// Relies on char::is_whitespace: the result depends on the character
/// alone.
#[verifier::external_body]
fn is_whitespace_char(c: char) -> (r: bool)
    ensures
        r == char_whitespace(c),
{
    c.is_whitespace()
}

/// Length of the maximal non-whitespace prefix.
pub open spec fn spec_word_len(s: Seq<char>) -> nat
    decreases s.len(),
{
    if s.len() == 0 {
        0
    } else if char_whitespace(s[0]) {
        0
    } else {
        1 + spec_word_len(s.skip(1))
    }
}

pub proof fn lemma_word_len_le(s: Seq<char>)
    ensures
        spec_word_len(s) <= s.len(),
    decreases s.len(),
{
    if s.len() != 0 && !char_whitespace(s[0]) {
        lemma_word_len_le(s.skip(1));
    }
}

/// The words of a string: the maximal runs of non-whitespace characters,
/// in order.
pub open spec fn spec_words(s: Seq<char>) -> Seq<Seq<char>>
    decreases s.len(),
    via spec_words_decreases
{
    if s.len() == 0 {
        Seq::empty()
    } else if char_whitespace(s[0]) {
        spec_words(s.skip(1))
    } else {
        seq![s.take(spec_word_len(s) as int)] + spec_words(s.skip(spec_word_len(s) as int))
    }
}

#[via_fn]
proof fn spec_words_decreases(s: Seq<char>) {
    lemma_word_len_le(s);
}

/// A run `[i, j)` of non-whitespace characters ended by the string's end
/// or a whitespace character is exactly the maximal prefix the word
/// length names.
proof fn lemma_word_len_of_run(s: Seq<char>, m: int)
    requires
        0 <= m <= s.len(),
        forall|k: int| 0 <= k < m ==> !char_whitespace(s[k]),
        m == s.len() || char_whitespace(s[m]),
    ensures
        spec_word_len(s) == m,
    decreases m,
{
    if m == 0 {
    } else {
        lemma_word_len_of_run(s.skip(1), m - 1);
    }
}

/// Split a string into its whitespace-separated words.
pub fn split_words(s: &str) -> (r: Vec<String>)
    ensures
        r@.map_values(|w: String| w@) == spec_words(s@),
{
    let n = s.unicode_len();
    let mut out: Vec<String> = Vec::new();
    let mut i: usize = 0;
    proof {
        assert(s@.skip(0) =~= s@);
        assert(out@.map_values(|w: String| w@) + spec_words(s@.skip(0)) =~= spec_words(s@));
    }
    while i < n
        invariant
            n == s@.len(),
            i <= n,
            out@.map_values(|w: String| w@) + spec_words(s@.skip(i as int)) == spec_words(s@),
        decreases n - i,
    {
        let c = s.get_char(i);
        if is_whitespace_char(c) {
            proof {
                assert(s@.skip(i as int)[0] == s@[i as int]);
                assert(s@.skip(i as int).skip(1) =~= s@.skip(i + 1));
                assert(spec_words(s@.skip(i as int)) == spec_words(s@.skip(i + 1)));
            }
            i += 1;
        } else {
            let start = i;
            let mut j = i + 1;
            while j < n && !is_whitespace_char(s.get_char(j))
                invariant
                    n == s@.len(),
                    start < j <= n,
                    forall|k: int| start <= k < j ==> !char_whitespace(s@[k]),
                decreases n - j,
            {
                j += 1;
            }
            proof {
                assert(forall|k: int|
                    0 <= k < j - start ==> !char_whitespace(#[trigger] s@.skip(start as int)[k]));
                assert(j == n || char_whitespace(s@[j as int]));
                if (j as int) < n {
                    assert(char_whitespace(s@.skip(start as int)[j - start]));
                }
                lemma_word_len_of_run(s@.skip(start as int), j - start);
            }
            let word = s.substring_char(start, j).to_owned();
            let ghost prev = out@;
            out.push(word);
            proof {
                let tail = s@.skip(start as int);
                assert(tail.take(spec_word_len(tail) as int) =~= s@.subrange(
                    start as int,
                    j as int,
                ));
                assert(tail.skip(spec_word_len(tail) as int) =~= s@.skip(j as int));
                assert(spec_words(tail) == seq![s@.subrange(start as int, j as int)] + spec_words(
                    s@.skip(j as int),
                ));
                assert(out@.map_values(|w: String| w@) =~= prev.map_values(|w: String| w@).push(
                    s@.subrange(start as int, j as int),
                ));
                assert(out@.map_values(|w: String| w@) + spec_words(s@.skip(j as int))
                    =~= spec_words(s@));
            }
            i = j;
        }
    }
    proof {
        assert(s@.skip(n as int) =~= Seq::<char>::empty());
        assert(out@.map_values(|w: String| w@) + spec_words(s@.skip(n as int)) =~= out@.map_values(
            |w: String| w@,
        ));
    }
    out
}

/// Keep only the alphabetic characters of a word and lower-case what
/// remains.
pub fn clean_word(word: &str) -> (r: String)
    ensures
        r@ == unicode_lower(word@.filter(|c: char| char_alphabetic(c))),
{
    let n = word.unicode_len();
    let mut kept = String::new();
    let mut i: usize = 0;
    proof {
        assert(word@.subrange(0, 0).filter(|c: char| char_alphabetic(c)) =~= Seq::<char>::empty());
    }
    while i < n
        invariant
            n == word@.len(),
            i <= n,
            kept@ == word@.subrange(0, i as int).filter(|c: char| char_alphabetic(c)),
        decreases n - i,
    {
        proof {
            assert(word@.subrange(0, i + 1) =~= word@.subrange(0, i as int).push(word@[i as int]));
            word@.subrange(0, i as int).lemma_filter_push(
                word@[i as int],
                |c: char| char_alphabetic(c),
            );
        }
        let c = word.get_char(i);
        if is_alphabetic_char(c) {
            let piece = word.substring_char(i, i + 1);
            kept.append(piece);
            proof {
                assert(piece@ =~= seq![word@[i as int]]);
                assert(kept@ =~= word@.subrange(0, i as int).filter(
                    |c: char| char_alphabetic(c),
                ).push(word@[i as int]));
            }
        }
        i += 1;
    }
    proof {
        assert(word@.subrange(0, n as int) =~= word@);
    }
    to_lowercase_string(kept.as_str())
}

/// The closed list of words too common to count as topics.
pub open spec fn spec_is_stop_word(w: Seq<char>) -> bool {
    ||| w == "the"@
    ||| w == "and"@
    ||| w == "or"@
    ||| w == "but"@
    ||| w == "in"@
    ||| w == "on"@
    ||| w == "at"@
    ||| w == "to"@
    ||| w == "for"@
    ||| w == "of"@
    ||| w == "with"@
    ||| w == "by"@
    ||| w == "from"@
    ||| w == "this"@
    ||| w == "that"@
    ||| w == "you"@
    ||| w == "he"@
    ||| w == "she"@
    ||| w == "it"@
    ||| w == "we"@
    ||| w == "they"@
    ||| w == "me"@
    ||| w == "him"@
    ||| w == "her"@
    ||| w == "us"@
    ||| w == "them"@
    ||| w == "my"@
    ||| w == "your"@
    ||| w == "his"@
    ||| w == "its"@
    ||| w == "our"@
    ||| w == "their"@
    ||| w == "am"@
    ||| w == "is"@
    ||| w == "are"@
    ||| w == "was"@
    ||| w == "were"@
    ||| w == "be"@
    ||| w == "been"@
    ||| w == "being"@
    ||| w == "have"@
    ||| w == "has"@
    ||| w == "had"@
    ||| w == "do"@
    ||| w == "does"@
    ||| w == "did"@
    ||| w == "will"@
    ||| w == "would"@
    ||| w == "could"@
    ||| w == "should"@
    ||| w == "may"@
    ||| w == "might"@
    ||| w == "must"@
    ||| w == "can"@
    ||| w == "shall"@
}

/// Whether a cleaned word is on the stop list.
pub fn is_stop_word(word: &str) -> (r: bool)
    ensures
        r == spec_is_stop_word(word@),
{
    str_eq(word, "the") || str_eq(word, "and") || str_eq(word, "or") || str_eq(word, "but")
        || str_eq(word, "in") || str_eq(word, "on") || str_eq(word, "at") || str_eq(word, "to")
        || str_eq(word, "for") || str_eq(word, "of") || str_eq(word, "with") || str_eq(word, "by")
        || str_eq(word, "from") || str_eq(word, "this") || str_eq(word, "that") || str_eq(
        word,
        "you",
    ) || str_eq(word, "he") || str_eq(word, "she") || str_eq(word, "it") || str_eq(word, "we")
        || str_eq(word, "they") || str_eq(word, "me") || str_eq(word, "him") || str_eq(word, "her")
        || str_eq(word, "us") || str_eq(word, "them") || str_eq(word, "my") || str_eq(word, "your")
        || str_eq(word, "his") || str_eq(word, "its") || str_eq(word, "our") || str_eq(
        word,
        "their",
    ) || str_eq(word, "am") || str_eq(word, "is") || str_eq(word, "are") || str_eq(word, "was")
        || str_eq(word, "were") || str_eq(word, "be") || str_eq(word, "been") || str_eq(
        word,
        "being",
    ) || str_eq(word, "have") || str_eq(word, "has") || str_eq(word, "had") || str_eq(word, "do")
        || str_eq(word, "does") || str_eq(word, "did") || str_eq(word, "will") || str_eq(
        word,
        "would",
    ) || str_eq(word, "could") || str_eq(word, "should") || str_eq(word, "may") || str_eq(
        word,
        "might",
    ) || str_eq(word, "must") || str_eq(word, "can") || str_eq(word, "shall")
}

/// Occurrences of a word in the kept list.
pub open spec fn spec_count(kept: Seq<Seq<char>>, w: Seq<char>) -> int {
    kept.filter(|x: Seq<char>| x == w).len() as int
}

/// Distinct words, in order of first occurrence.
pub open spec fn spec_uniq(ws: Seq<Seq<char>>) -> Seq<Seq<char>>
    decreases ws.len(),
{
    if ws.len() == 0 {
        Seq::empty()
    } else {
        let pre = spec_uniq(ws.drop_last());
        if pre.contains(ws.last()) {
            pre
        } else {
            pre.push(ws.last())
        }
    }
}

/// Insert a pair into a count-descending list, after every entry of equal
/// or greater count.
pub open spec fn spec_insert_desc(p: (Seq<char>, int), rest: Seq<(Seq<char>, int)>) -> Seq<
    (Seq<char>, int),
>
    decreases rest.len(),
{
    if rest.len() == 0 {
        seq![p]
    } else if p.1 > rest[0].1 {
        seq![p] + rest
    } else {
        seq![rest[0]] + spec_insert_desc(p, rest.skip(1))
    }
}

/// Sort pairs by count, descending, keeping the input order among equal
/// counts: each element is inserted after the already-placed elements of
/// its count.
pub open spec fn spec_sort_desc(ps: Seq<(Seq<char>, int)>) -> Seq<(Seq<char>, int)>
    decreases ps.len(),
{
    if ps.len() == 0 {
        Seq::empty()
    } else {
        spec_insert_desc(ps.last(), spec_sort_desc(ps.drop_last()))
    }
}

/// The topics of a text: its words cleaned and lower-cased, short and
/// stop words dropped, ranked by frequency, the five most frequent kept,
/// and of those only the ones occurring at least twice.
pub open spec fn spec_topics(text: Seq<char>) -> Seq<Seq<char>> {
    let kept = spec_words(text).map_values(
        |w: Seq<char>| unicode_lower(w.filter(|c: char| char_alphabetic(c))),
    ).filter(|w: Seq<char>| w.len() > 2 && !spec_is_stop_word(w));
    let pairs = spec_uniq(kept).map_values(|w: Seq<char>| (w, spec_count(kept, w)));
    let sorted = spec_sort_desc(pairs);
    let top = if sorted.len() <= 5 {
        sorted
    } else {
        sorted.take(5)
    };
    top.filter(|p: (Seq<char>, int)| p.1 >= 2).map_values(|p: (Seq<char>, int)| p.0)
}

fn contains_word(v: &Vec<String>, w: &str) -> (r: bool)
    ensures
        r == v@.map_values(|x: String| x@).contains(w@),
{
    let mut i: usize = 0;
    let n = v.len();
    while i < n
        invariant
            n == v@.len(),
            i <= n,
            forall|k: int| 0 <= k < i ==> (#[trigger] v@[k])@ != w@,
        decreases n - i,
    {
        if str_eq(v[i].as_str(), w) {
            proof {
                assert(v@.map_values(|x: String| x@)[i as int] == w@);
            }
            return true;
        }
        i += 1;
    }
    proof {
        let mv = v@.map_values(|x: String| x@);
        if mv.contains(w@) {
            let k = choose|k: int| 0 <= k < mv.len() && mv[k] == w@;
            assert(v@[k]@ == w@);
            assert(false);
        }
    }
    false
}

fn count_occurrences(v: &Vec<String>, w: &str) -> (r: usize)
    ensures
        r == spec_count(v@.map_values(|x: String| x@), w@),
{
    let ghost kv = v@.map_values(|x: String| x@);
    let mut c: usize = 0;
    let mut i: usize = 0;
    let n = v.len();
    proof {
        assert(kv.subrange(0, 0).filter(|x: Seq<char>| x == w@) =~= Seq::<Seq<char>>::empty());
    }
    while i < n
        invariant
            n == v@.len(),
            kv == v@.map_values(|x: String| x@),
            kv.len() == n,
            i <= n,
            c <= i,
            c == kv.subrange(0, i as int).filter(|x: Seq<char>| x == w@).len(),
        decreases n - i,
    {
        proof {
            assert(kv.subrange(0, i + 1) =~= kv.subrange(0, i as int).push(kv[i as int]));
            kv.subrange(0, i as int).lemma_filter_push(kv[i as int], |x: Seq<char>| x == w@);
        }
        if str_eq(v[i].as_str(), w) {
            c += 1;
        }
        i += 1;
    }
    proof {
        assert(kv.subrange(0, n as int) =~= kv);
    }
    c
}

fn insert_desc(p: (String, usize), rest: Vec<(String, usize)>) -> (r: Vec<(String, usize)>)
    ensures
        r@.map_values(|q: (String, usize)| (q.0@, q.1 as int)) == spec_insert_desc(
            (p.0@, p.1 as int),
            rest@.map_values(|q: (String, usize)| (q.0@, q.1 as int)),
        ),
    decreases rest@.len(),
{
    let ghost restv = rest@.map_values(|q: (String, usize)| (q.0@, q.1 as int));
    if rest.len() == 0 {
        let mut out: Vec<(String, usize)> = Vec::new();
        out.push(p);
        proof {
            assert(out@.map_values(|q: (String, usize)| (q.0@, q.1 as int)) =~= seq![
                (p.0@, p.1 as int),
            ]);
        }
        out
    } else if p.1 > rest[0].1 {
        let mut out: Vec<(String, usize)> = Vec::new();
        out.push(p);
        let mut rest = rest;
        out.append(&mut rest);
        proof {
            assert(out@.map_values(|q: (String, usize)| (q.0@, q.1 as int)) =~= seq![
                (p.0@, p.1 as int),
            ] + restv);
        }
        out
    } else {
        let mut rest = rest;
        let first = rest.remove(0);
        proof {
            assert(rest@.map_values(|q: (String, usize)| (q.0@, q.1 as int)) =~= restv.skip(1));
            assert((first.0@, first.1 as int) == restv[0]);
        }
        let mut out = insert_desc(p, rest);
        let ghost sub = out@.map_values(|q: (String, usize)| (q.0@, q.1 as int));
        out.insert(0, first);
        proof {
            assert(sub == spec_insert_desc((p.0@, p.1 as int), restv.skip(1)));
            assert(out@.map_values(|q: (String, usize)| (q.0@, q.1 as int)) =~= seq![restv[0]]
                + sub);
        }
        out
    }
}

fn sort_desc(ps: Vec<(String, usize)>) -> (r: Vec<(String, usize)>)
    ensures
        r@.map_values(|q: (String, usize)| (q.0@, q.1 as int)) == spec_sort_desc(
            ps@.map_values(|q: (String, usize)| (q.0@, q.1 as int)),
        ),
    decreases ps@.len(),
{
    let ghost psv = ps@.map_values(|q: (String, usize)| (q.0@, q.1 as int));
    if ps.len() == 0 {
        proof {
            assert(ps@.map_values(|q: (String, usize)| (q.0@, q.1 as int)) =~= Seq::<
                (Seq<char>, int),
            >::empty());
        }
        ps
    } else {
        let mut ps = ps;
        let last = match ps.pop() {
            Some(p) => p,
            None => {
                return ps;
            },
        };
        proof {
            assert(ps@.map_values(|q: (String, usize)| (q.0@, q.1 as int)) =~= psv.drop_last());
            assert(psv.last() == (last.0@, last.1 as int));
        }
        let sorted = sort_desc(ps);
        let out = insert_desc(last, sorted);
        out
    }
}

/// The most frequent meaningful words of a text: cleaned, lower-cased,
/// stop words and short words dropped, ranked by frequency with first
/// occurrence breaking ties, at most five, each occurring at least twice.
pub fn extract_enhanced_topics(text: &str) -> (r: Vec<String>)
    ensures
        r@.map_values(|w: String| w@) == spec_topics(text@),
{
    let words = split_words(text);
    let ghost wordsv = spec_words(text@);
    let ghost keptv = wordsv.map_values(
        |w: Seq<char>| unicode_lower(w.filter(|c: char| char_alphabetic(c))),
    ).filter(|w: Seq<char>| w.len() > 2 && !spec_is_stop_word(w));

    let mut kept: Vec<String> = Vec::new();
    let n = words.len();
    let mut i: usize = 0;
    proof {
        assert(wordsv.subrange(0, 0).map_values(
            |w: Seq<char>| unicode_lower(w.filter(|c: char| char_alphabetic(c))),
        ).filter(|w: Seq<char>| w.len() > 2 && !spec_is_stop_word(w)) =~= Seq::<Seq<char>>::empty());
        assert(kept@.map_values(|x: String| x@) =~= Seq::<Seq<char>>::empty());
    }
    while i < n
        invariant
            n == words@.len(),
            wordsv == spec_words(text@),
            words@.map_values(|w: String| w@) == wordsv,
            i <= n,
            kept@.map_values(|x: String| x@) == wordsv.subrange(0, i as int).map_values(
                |w: Seq<char>| unicode_lower(w.filter(|c: char| char_alphabetic(c))),
            ).filter(|w: Seq<char>| w.len() > 2 && !spec_is_stop_word(w)),
        decreases n - i,
    {
        let cleaned = clean_word(words[i].as_str());
        proof {
            assert(words@[i as int]@ == wordsv[i as int]);
            assert(wordsv.subrange(0, i + 1) =~= wordsv.subrange(0, i as int).push(
                wordsv[i as int],
            ));
            assert(wordsv.subrange(0, i + 1).map_values(
                |w: Seq<char>| unicode_lower(w.filter(|c: char| char_alphabetic(c))),
            ) =~= wordsv.subrange(0, i as int).map_values(
                |w: Seq<char>| unicode_lower(w.filter(|c: char| char_alphabetic(c))),
            ).push(cleaned@));
            wordsv.subrange(0, i as int).map_values(
                |w: Seq<char>| unicode_lower(w.filter(|c: char| char_alphabetic(c))),
            ).lemma_filter_push(cleaned@, |w: Seq<char>| w.len() > 2 && !spec_is_stop_word(w));
        }
        if cleaned.as_str().unicode_len() > 2 && !is_stop_word(cleaned.as_str()) {
            kept.push(cleaned);
            proof {
                assert(kept@.map_values(|x: String| x@) =~= wordsv.subrange(0, i + 1).map_values(
                    |w: Seq<char>| unicode_lower(w.filter(|c: char| char_alphabetic(c))),
                ).filter(|w: Seq<char>| w.len() > 2 && !spec_is_stop_word(w)));
            }
        }
        i += 1;
    }
    proof {
        assert(wordsv.subrange(0, n as int) =~= wordsv);
        assert(kept@.map_values(|x: String| x@) == keptv);
    }

    let mut uniq: Vec<String> = Vec::new();
    let kn = kept.len();
    let mut i: usize = 0;
    proof {
        assert(keptv.subrange(0, 0) =~= Seq::<Seq<char>>::empty());
        assert(uniq@.map_values(|x: String| x@) =~= spec_uniq(keptv.subrange(0, 0)));
    }
    while i < kn
        invariant
            kn == kept@.len(),
            keptv == kept@.map_values(|x: String| x@),
            keptv.len() == kn,
            i <= kn,
            uniq@.map_values(|x: String| x@) == spec_uniq(keptv.subrange(0, i as int)),
        decreases kn - i,
    {
        proof {
            assert(keptv.subrange(0, i + 1).drop_last() =~= keptv.subrange(0, i as int));
            assert(keptv.subrange(0, i + 1).last() == keptv[i as int]);
            assert(kept@[i as int]@ == keptv[i as int]);
        }
        if !contains_word(&uniq, kept[i].as_str()) {
            uniq.push(kept[i].clone());
            proof {
                assert(uniq@.map_values(|x: String| x@) =~= spec_uniq(
                    keptv.subrange(0, i as int),
                ).push(keptv[i as int]));
            }
        }
        i += 1;
    }
    proof {
        assert(keptv.subrange(0, kn as int) =~= keptv);
    }

    let mut pairs: Vec<(String, usize)> = Vec::new();
    let un = uniq.len();
    let mut i: usize = 0;
    proof {
        assert(pairs@.map_values(|q: (String, usize)| (q.0@, q.1 as int)) =~= spec_uniq(
            keptv,
        ).map_values(|w: Seq<char>| (w, spec_count(keptv, w))).subrange(0, 0));
    }
    while i < un
        invariant
            un == uniq@.len(),
            keptv == kept@.map_values(|x: String| x@),
            uniq@.map_values(|x: String| x@) == spec_uniq(keptv),
            spec_uniq(keptv).len() == un,
            i <= un,
            pairs@.map_values(|q: (String, usize)| (q.0@, q.1 as int)) == spec_uniq(
                keptv,
            ).map_values(|w: Seq<char>| (w, spec_count(keptv, w))).subrange(0, i as int),
        decreases un - i,
    {
        let c = count_occurrences(&kept, uniq[i].as_str());
        let ghost prev = pairs@;
        let ghost specpairs = spec_uniq(keptv).map_values(
            |w: Seq<char>| (w, spec_count(keptv, w)),
        );
        pairs.push((uniq[i].clone(), c));
        proof {
            assert(uniq@[i as int]@ == spec_uniq(keptv)[i as int]);
            assert(specpairs[i as int] == (uniq@[i as int]@, spec_count(keptv, uniq@[i as int]@)));
            assert(specpairs.subrange(0, i + 1) =~= specpairs.subrange(0, i as int).push(
                specpairs[i as int],
            ));
            assert(pairs@.map_values(|q: (String, usize)| (q.0@, q.1 as int)) =~= prev.map_values(
                |q: (String, usize)| (q.0@, q.1 as int),
            ).push(specpairs[i as int]));
        }
        i += 1;
    }
    proof {
        assert(spec_uniq(keptv).map_values(|w: Seq<char>| (w, spec_count(keptv, w))).subrange(
            0,
            un as int,
        ) =~= spec_uniq(keptv).map_values(|w: Seq<char>| (w, spec_count(keptv, w))));
    }

    let mut sorted = sort_desc(pairs);
    if sorted.len() > 5 {
        sorted.truncate(5);
    }
    let ghost sortedv = spec_sort_desc(spec_uniq(keptv).map_values(|w: Seq<char>| (w, spec_count(keptv, w))));
    let ghost topv = if sortedv.len() <= 5 { sortedv } else { sortedv.take(5) };
    proof {
        assert(sorted@.map_values(|q: (String, usize)| (q.0@, q.1 as int)) =~= topv);
    }

    let mut out: Vec<String> = Vec::new();
    let sn = sorted.len();
    let mut i: usize = 0;
    proof {
        assert(topv.subrange(0, 0).filter(|p: (Seq<char>, int)| p.1 >= 2) =~= Seq::<
            (Seq<char>, int),
        >::empty());
        assert(out@.map_values(|w: String| w@) =~= topv.subrange(0, 0).filter(
            |p: (Seq<char>, int)| p.1 >= 2,
        ).map_values(|p: (Seq<char>, int)| p.0));
    }
    while i < sn
        invariant
            sn == sorted@.len(),
            sorted@.map_values(|q: (String, usize)| (q.0@, q.1 as int)) == topv,
            topv.len() == sn,
            i <= sn,
            out@.map_values(|w: String| w@) == topv.subrange(0, i as int).filter(
                |p: (Seq<char>, int)| p.1 >= 2,
            ).map_values(|p: (Seq<char>, int)| p.0),
        decreases sn - i,
    {
        proof {
            assert(topv.subrange(0, i + 1) =~= topv.subrange(0, i as int).push(topv[i as int]));
            topv.subrange(0, i as int).lemma_filter_push(
                topv[i as int],
                |p: (Seq<char>, int)| p.1 >= 2,
            );
            assert((sorted@[i as int].0@, sorted@[i as int].1 as int) == topv[i as int]);
        }
        if sorted[i].1 >= 2 {
            let ghost prev = out@;
            out.push(sorted[i].0.clone());
            proof {
                assert(out@.map_values(|w: String| w@) =~= prev.map_values(|w: String| w@).push(
                    topv[i as int].0,
                ));
                assert(topv.subrange(0, i + 1).filter(|p: (Seq<char>, int)| p.1 >= 2).map_values(
                    |p: (Seq<char>, int)| p.0,
                ) =~= topv.subrange(0, i as int).filter(|p: (Seq<char>, int)| p.1 >= 2).map_values(
                    |p: (Seq<char>, int)| p.0,
                ).push(topv[i as int].0));
            }
        } else {
            proof {
                assert(out@.map_values(|w: String| w@) =~= topv.subrange(0, i + 1).filter(
                    |p: (Seq<char>, int)| p.1 >= 2,
                ).map_values(|p: (Seq<char>, int)| p.0));
            }
        }
        i += 1;
    }
    proof {
        assert(topv.subrange(0, sn as int) =~= topv);
        assert(out@.map_values(|w: String| w@) =~= spec_topics(text@));
    }
    out
}

/// Scan for a preposition followed by a name: the first word whose
/// lower-case form is "with" or "of" and that has a successor names the
/// target.
pub open spec fn spec_prep_target(ws: Seq<Seq<char>>, i: int) -> Option<Seq<char>>
    decreases ws.len() - i when 0 <= i <= ws.len()
{
    if i >= ws.len() {
        None
    } else if (unicode_lower(ws[i]) == "with"@ || unicode_lower(ws[i]) == "of"@) && i + 1
        < ws.len() {
        Some(ws[i + 1])
    } else {
        spec_prep_target(ws, i + 1)
    }
}

/// Who a free-form query is about: the word after "with" or "of", else
/// the last word when it is long enough and not a generic noun.
pub open spec fn spec_extract_target(q: Seq<char>) -> Option<Seq<char>> {
    let ws = spec_words(q);
    match spec_prep_target(ws, 0) {
        Some(t) => Some(t),
        None => {
            if ws.len() > 0 && ws.last().len() > 2 && unicode_lower(ws.last()) != "chat"@
                && unicode_lower(ws.last()) != "conversation"@ && unicode_lower(ws.last())
                != "messages"@ {
                Some(ws.last())
            } else {
                None
            }
        },
    }
}

/// Pull the probable username out of a query such as a request to
/// summarize a conversation with someone.
pub fn extract_target_from_query(query: &str) -> (r: Option<String>)
    ensures
        r is Some <==> spec_extract_target(query@) is Some,
        r matches Some(t) ==> spec_extract_target(query@) == Some(t@),
{
    let words = split_words(query);
    let ghost ws = spec_words(query@);
    let n = words.len();
    let mut i: usize = 0;
    while i < n
        invariant
            n == words@.len(),
            ws == spec_words(query@),
            words@.map_values(|w: String| w@) == ws,
            i <= n,
            spec_prep_target(ws, 0) == spec_prep_target(ws, i as int),
        decreases n - i,
    {
        let lowered = to_lowercase_string(words[i].as_str());
        let hit = str_eq(lowered.as_str(), "with") || str_eq(lowered.as_str(), "of");
        if hit && i + 1 < n {
            proof {
                assert(ws[i as int] == words@[i as int]@);
                assert(spec_prep_target(ws, i as int) == Some(ws[i + 1]));
            }
            return Some(words[i + 1].clone());
        }
        proof {
            assert(ws[i as int] == words@[i as int]@);
            assert(spec_prep_target(ws, i as int) == spec_prep_target(ws, i + 1));
        }
        i += 1;
    }
    if n > 0 {
        let last = &words[n - 1];
        let lowered = to_lowercase_string(last.as_str());
        if last.as_str().unicode_len() > 2 && !str_eq(lowered.as_str(), "chat") && !str_eq(
            lowered.as_str(),
            "conversation",
        ) && !str_eq(lowered.as_str(), "messages") {
            proof {
                assert(ws.last() == words@[n - 1]@);
            }
            return Some(last.clone());
        }
        proof {
            assert(ws.last() == words@[n - 1]@);
        }
        None
    } else {
        None
    }
}

} // verus!
