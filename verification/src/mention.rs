//! `@name` mentions in the text of a post: each one becomes a link to the
//! user's page, and the names are collected so that the users can be told.
use vstd::prelude::*;
use crate::text::{chars_of, is_word_char, lemma_word_run_end, regex_word, word_end_from, word_run_end};
use crate::topic::strings_view;
use vstd::string::StrSliceExecFns;

verus! {

broadcast use vstd::string::group_string_axioms;

/// A mention begins at `i`: an `@` that follows no word character (the
/// `\B` before it) and is followed by one (the start of `\w+`).
pub open spec fn mention_starts_at(t: Seq<char>, i: int) -> bool {
    &&& 0 <= i
    &&& i + 1 < t.len()
    &&& t[i] == '@'
    &&& (i == 0 || !regex_word(t[i - 1]))
    &&& regex_word(t[i + 1])
}

/// Where the first mention at or after `i` begins, or the length of `t`
/// where there is none.
pub open spec fn next_mention(t: Seq<char>, i: int) -> int
    decreases t.len() - i,
{
    if i < 0 || i >= t.len() {
        t.len() as int
    } else if mention_starts_at(t, i) {
        i
    } else {
        next_mention(t, i + 1)
    }
}

pub proof fn lemma_next_mention(t: Seq<char>, i: int)
    requires
        0 <= i <= t.len(),
    ensures
        i <= next_mention(t, i) <= t.len(),
        next_mention(t, i) < t.len() ==> mention_starts_at(t, next_mention(t, i)),
        forall|k: int| i <= k < next_mention(t, i) ==> !mention_starts_at(t, k),
    decreases t.len() - i,
{
    if i < t.len() && !mention_starts_at(t, i) {
        lemma_next_mention(t, i + 1);
    }
}

/// The matches of `\B@(\w+)` in `t` from position `i` on, found from left to
/// right: the pieces of text around them (what `Regex::split` gives) and the
/// names they hold (group 1 of each match, as `Regex::captures_iter` gives
/// them).
pub open spec fn mention_split(t: Seq<char>, i: int) -> (Seq<Seq<char>>, Seq<Seq<char>>)
    decreases t.len() - i,
{
    if i < 0 || i > t.len() {
        (Seq::empty(), Seq::empty())
    } else {
        let k = next_mention(t, i);
        if k >= t.len() {
            (seq![t.subrange(i, t.len() as int)], Seq::empty())
        } else {
            let e = word_run_end(t, k + 1);
            proof {
                lemma_next_mention(t, i);
                lemma_word_run_end(t, k + 1);
            }
            let rest = mention_split(t, e);
            (seq![t.subrange(i, k)] + rest.0, seq![t.subrange(k + 1, e)] + rest.1)
        }
    }
}

/// The pieces of `text` around its mentions.
pub open spec fn mention_gaps_of(text: Seq<char>) -> Seq<Seq<char>> {
    mention_split(text, 0).0
}

/// The names that `text` mentions, in order.
pub open spec fn mention_names_of(text: Seq<char>) -> Seq<Seq<char>> {
    mention_split(text, 0).1
}

/// There is one more piece of text than there are mentions.
pub proof fn lemma_gaps_outnumber_names(t: Seq<char>, i: int)
    requires
        0 <= i <= t.len(),
    ensures
        mention_split(t, i).0.len() == mention_split(t, i).1.len() + 1,
    decreases t.len() - i,
{
    lemma_next_mention(t, i);
    let k = next_mention(t, i);
    if k < t.len() {
        lemma_word_run_end(t, k + 1);
        lemma_gaps_outnumber_names(t, word_run_end(t, k + 1));
    }
}

/// The pieces of text with each name put back after an `@` between them.
pub open spec fn reassemble(gaps: Seq<Seq<char>>, names: Seq<Seq<char>>) -> Seq<char>
    decreases names.len(),
{
    if names.len() == 0 || gaps.len() == 0 {
        if gaps.len() == 0 {
            Seq::empty()
        } else {
            gaps[0]
        }
    } else {
        gaps[0] + seq!['@'] + names[0] + reassemble(gaps.drop_first(), names.drop_first())
    }
}

/// What finding mentions does to a text, for every text: the pieces and
/// the names, put back together with an `@` before each name, give the text
/// again; and every name is a non-empty run of word characters.
pub proof fn mention_split_law(t: Seq<char>, i: int)
    requires
        0 <= i <= t.len(),
    ensures
        reassemble(mention_split(t, i).0, mention_split(t, i).1) == t.subrange(i, t.len() as int),
        forall|k: int|
            0 <= k < mention_split(t, i).1.len() ==> (#[trigger] mention_split(t, i).1[k]).len() > 0
                && forall|j: int|
                0 <= j < mention_split(t, i).1[k].len() ==> regex_word(mention_split(t, i).1[k][j]),
    decreases t.len() - i,
{
    lemma_next_mention(t, i);
    let k = next_mention(t, i);
    let r = mention_split(t, i);
    if k >= t.len() {
        assert(r.1.len() == 0);
    } else {
        let e = word_run_end(t, k + 1);
        lemma_word_run_end(t, k + 1);
        mention_split_law(t, e);
        let rest = mention_split(t, e);
        lemma_gaps_outnumber_names(t, e);
        assert(r.0 == seq![t.subrange(i, k)] + rest.0);
        assert(r.1 == seq![t.subrange(k + 1, e)] + rest.1);
        assert(r.0.drop_first() =~= rest.0);
        assert(r.1.drop_first() =~= rest.1);
        assert(r.0[0] == t.subrange(i, k));
        assert(r.1[0] == t.subrange(k + 1, e));
        assert(t.subrange(i, k) + seq!['@'] + t.subrange(k + 1, e) + t.subrange(e, t.len() as int)
            =~= t.subrange(i, t.len() as int));
        assert forall|m: int| 0 <= m < r.1.len() implies (#[trigger] r.1[m]).len() > 0 && forall|j: int|
            0 <= j < r.1[m].len() ==> regex_word(r.1[m][j]) by {
            if m == 0 {
                assert forall|j: int| 0 <= j < r.1[m].len() implies regex_word(r.1[m][j]) by {
                    assert(r.1[m][j] == t[k + 1 + j]);
                }
            } else {
                assert(r.1[m] == rest.1[m - 1]);
            }
        }
    }
}

/// Whether a mention begins at `i`.
fn is_mention_start(v: &Vec<char>, i: usize) -> (b: bool)
    requires
        i < v@.len(),
    ensures
        b == mention_starts_at(v@, i as int),
{
    let n = v.len();
    if v[i] != '@' || i + 1 >= n {
        return false;
    }
    if i > 0 && is_word_char(v[i - 1]) {
        return false;
    }
    is_word_char(v[i + 1])
}

/// Where the first mention at or after `i` begins (the length of `v` where
/// there is none).
fn next_mention_from(v: &Vec<char>, i: usize) -> (k: usize)
    requires
        i <= v@.len(),
    ensures
        k == next_mention(v@, i as int),
{
    let mut k = i;
    while k < v.len() && !is_mention_start(v, k)
        invariant
            i <= k <= v@.len(),
            next_mention(v@, i as int) == next_mention(v@, k as int),
        decreases v@.len() - k,
    {
        k = k + 1;
    }
    k
}

/// Finds the mentions of `text`: the pieces of text around them and the
/// names they hold, as the pattern `\B@(\w+)` finds them.
pub fn mention_scan(text: &str) -> (r: (Vec<String>, Vec<String>))
    ensures
        strings_view(r.0@) == mention_gaps_of(text@),
        strings_view(r.1@) == mention_names_of(text@),
        r.0@.len() == r.1@.len() + 1,
{
    let v = chars_of(text);
    let ghost t = text@;
    let n = v.len();
    let mut gaps: Vec<String> = Vec::new();
    let mut names: Vec<String> = Vec::new();
    let mut i: usize = 0;
    loop
        invariant_except_break
            i <= n,
            mention_split(t, 0).0 == strings_view(gaps@) + mention_split(t, i as int).0,
            mention_split(t, 0).1 == strings_view(names@) + mention_split(t, i as int).1,
        invariant
            n == v@.len(),
            v@ == t,
            t == text@,
        ensures
            mention_split(t, 0).0 == strings_view(gaps@),
            mention_split(t, 0).1 == strings_view(names@),
        decreases n - i,
    {
        let k = next_mention_from(&v, i);
        proof {
            lemma_next_mention(t, i as int);
        }
        if k >= n {
            let ghost before = gaps@;
            gaps.push(String::from_str(text.substring_char(i, n)));
            proof {
                assert(strings_view(gaps@) =~= strings_view(before).push(t.subrange(i as int, n as int)));
                assert(strings_view(gaps@) =~= strings_view(before) + mention_split(t, i as int).0);
                assert(mention_split(t, i as int).1 =~= Seq::<Seq<char>>::empty());
                assert(strings_view(names@) + mention_split(t, i as int).1 =~= strings_view(names@));
            }
            break;
        }
        let e = word_end_from(&v, k + 1);
        proof {
            lemma_word_run_end(t, k + 1);
        }
        let ghost g0 = gaps@;
        let ghost n0 = names@;
        gaps.push(String::from_str(text.substring_char(i, k)));
        names.push(String::from_str(text.substring_char(k + 1, e)));
        proof {
            let rest = mention_split(t, e as int);
            assert(strings_view(gaps@) =~= strings_view(g0).push(t.subrange(i as int, k as int)));
            assert(strings_view(names@) =~= strings_view(n0).push(t.subrange(k + 1, e as int)));
            assert(strings_view(g0) + mention_split(t, i as int).0 =~= strings_view(gaps@) + rest.0);
            assert(strings_view(n0) + mention_split(t, i as int).1 =~= strings_view(names@) + rest.1);
        }
        i = e;
    }
    proof {
        lemma_gaps_outnumber_names(t, 0);
    }
    (gaps, names)
}

/// A piece of a text event once its mentions are found.
pub enum MentionPiece {
    /// Text as written.
    Text(String),
    /// A mention of the user with this name: shown as `@name`, linked to
    /// `/u/name`.
    Mention(String),
}

/// The view of a piece: `(false, text)` or `(true, name)`.
pub open spec fn piece_view(p: MentionPiece) -> (bool, Seq<char>) {
    match p {
        MentionPiece::Text(s) => (false, s@),
        MentionPiece::Mention(n) => (true, n@),
    }
}

/// The pieces as views.
pub open spec fn pieces_view(v: Seq<MentionPiece>) -> Seq<(bool, Seq<char>)> {
    v.map_values(|p: MentionPiece| piece_view(p))
}

/// `gap` as a text piece, or nothing when it is empty.
pub open spec fn text_piece(gap: Seq<char>) -> Seq<(bool, Seq<char>)> {
    if gap.len() > 0 {
        seq![(false, gap)]
    } else {
        Seq::empty()
    }
}

/// The first `k` gaps, each (when not empty) followed by the mention of the
/// name that ends it.
pub open spec fn interleave(gaps: Seq<Seq<char>>, names: Seq<Seq<char>>, k: int) -> Seq<
    (bool, Seq<char>),
>
    decreases k,
{
    if k <= 0 {
        Seq::empty()
    } else {
        interleave(gaps, names, k - 1) + text_piece(gaps[k - 1]) + seq![(true, names[k - 1])]
    }
}

/// What a text event becomes: unchanged where it mentions nobody; else the
/// non-empty gaps between the mentions, with a mention for each name.
pub open spec fn pieces_spec(text: Seq<char>, gaps: Seq<Seq<char>>, names: Seq<Seq<char>>) -> Seq<
    (bool, Seq<char>),
> {
    if names.len() == 0 {
        seq![(false, text)]
    } else {
        interleave(gaps, names, names.len() as int) + text_piece(gaps[names.len() as int])
    }
}

/// Splits a text event at its mentions, given the gaps between the matches
/// and the names that the matches hold.
pub fn mention_pieces(text: &str, gaps: &Vec<String>, names: &Vec<String>) -> (r: Vec<MentionPiece>)
    requires
        gaps@.len() == names@.len() + 1,
    ensures
        pieces_view(r@) == pieces_spec(text@, strings_view(gaps@), strings_view(names@)),
{
    let ghost gv = strings_view(gaps@);
    let ghost nv = strings_view(names@);
    let mut out: Vec<MentionPiece> = Vec::new();
    if names.len() == 0 {
        out.push(MentionPiece::Text(String::from_str(text)));
        proof {
            assert(pieces_view(out@) =~= seq![(false, text@)]);
        }
        return out;
    }
    let mut i: usize = 0;
    while i < names.len()
        invariant
            i <= names@.len(),
            gaps@.len() == names@.len() + 1,
            gv == strings_view(gaps@),
            nv == strings_view(names@),
            pieces_view(out@) == interleave(gv, nv, i as int),
        decreases names.len() - i,
    {
        if !gaps[i].as_str().is_empty() {
            out.push(MentionPiece::Text(gaps[i].clone()));
        }
        out.push(MentionPiece::Mention(names[i].clone()));
        proof {
            assert(gv[i as int] == gaps@[i as int]@);
            assert(nv[i as int] == names@[i as int]@);
            assert(pieces_view(out@) =~= interleave(gv, nv, i as int) + text_piece(gv[i as int])
                + seq![(true, nv[i as int])]);
        }
        i = i + 1;
    }
    let last = names.len();
    if !gaps[last].as_str().is_empty() {
        out.push(MentionPiece::Text(gaps[last].clone()));
    }
    proof {
        assert(gv[last as int] == gaps@[last as int]@);
        assert(pieces_view(out@) =~= interleave(gv, nv, last as int) + text_piece(gv[last as int]));
    }
    out
}

/// The mentions of one text event: its pieces and the names in order.
pub fn split_mentions(text: &str) -> (r: (Vec<MentionPiece>, Vec<String>))
    ensures
        pieces_view(r.0@) == pieces_spec(text@, mention_gaps_of(text@), mention_names_of(text@)),
        strings_view(r.1@) == mention_names_of(text@),
{
    let (gaps, names) = mention_scan(text);
    let pieces = mention_pieces(text, &gaps, &names);
    (pieces, names)
}

} // verus!
