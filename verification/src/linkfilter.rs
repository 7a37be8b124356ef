//! Blocking links and images in posts: the rule list, and what happens to an
//! element whose address a rule blocks or rewrites.
use vstd::prelude::*;
use crate::text::{chars_of, join_spec, trim, trim_spec};

verus! {

broadcast use vstd::string::group_string_axioms;

/// The pieces of `s` between the copies of `c` (`str::split`).
pub open spec fn split_on(s: Seq<char>, c: char) -> Seq<Seq<char>>
    decreases s.len(),
{
    if s.len() == 0 {
        seq![s]
    } else if s.last() == c {
        split_on(s.drop_last(), c).push(Seq::empty())
    } else {
        let p = split_on(s.drop_last(), c);
        p.update(p.len() - 1, p.last().push(s.last()))
    }
}

/// The lines of `s` (`str::lines`, up to the carriage returns that trimming
/// removes anyway): the pieces between line feeds, without the empty piece
/// after a final line feed, and none at all for an empty text.
pub open spec fn lines_spec(s: Seq<char>) -> Seq<Seq<char>> {
    if s.len() == 0 {
        Seq::empty()
    } else if s.last() == '\n' {
        split_on(s.drop_last(), '\n')
    } else {
        split_on(s, '\n')
    }
}

proof fn lemma_split_nonempty(s: Seq<char>, c: char)
    ensures
        split_on(s, c).len() >= 1,
    decreases s.len(),
{
    if s.len() > 0 {
        lemma_split_nonempty(s.drop_last(), c);
    }
}

/// Splitting at `c` and joining the pieces back with `c` gives the text
/// again, and no piece holds `c`.
pub proof fn split_on_law(s: Seq<char>, c: char)
    ensures
        join_spec(split_on(s, c), seq![c]) == s,
        forall|i: int, j: int|
            0 <= i < split_on(s, c).len() && 0 <= j < split_on(s, c)[i].len() ==> #[trigger] split_on(
                s,
                c,
            )[i][j] != c,
    decreases s.len(),
{
    if s.len() > 0 {
        let t = s.drop_last();
        let p = split_on(t, c);
        split_on_law(t, c);
        lemma_split_nonempty(t, c);
        let q = split_on(s, c);
        if s.last() == c {
            assert(q.drop_last() =~= p);
            assert(join_spec(q, seq![c]) =~= t + seq![c] + Seq::<char>::empty());
            assert(t + seq![c] + Seq::<char>::empty() =~= s);
            assert forall|i: int, j: int| 0 <= i < q.len() && 0 <= j < q[i].len() implies #[trigger] q[i][j]
                != c by {
                assert(q[i] == p[i]);
            }
        } else {
            let x = s.last();
            if p.len() == 1 {
                assert(q =~= seq![p[0].push(x)]);
                assert(p[0] == t);
                assert(join_spec(q, seq![c]) == q[0]);
                assert(q[0] =~= s);
            } else {
                assert(q.drop_last() =~= p.drop_last());
                assert(join_spec(p, seq![c]) == join_spec(p.drop_last(), seq![c]) + seq![c] + p.last());
                assert(join_spec(q, seq![c]) == join_spec(p.drop_last(), seq![c]) + seq![c] + p.last().push(x));
                assert(join_spec(p.drop_last(), seq![c]) + seq![c] + p.last().push(x) =~= t.push(x));
                assert(t.push(x) =~= s);
            }
            assert forall|i: int, j: int| 0 <= i < q.len() && 0 <= j < q[i].len() implies #[trigger] q[i][j]
                != c by {
                if i < p.len() - 1 {
                    assert(q[i] == p[i]);
                } else {
                    assert(q[i] == p.last().push(x));
                    if j < p.last().len() {
                        assert(q[i][j] == p[p.len() - 1][j]);
                    }
                }
            }
        }
    }
}

/// The lines of a rule list joined back with line feeds give the list again
/// (but for a last line feed), and no line holds a line feed.
pub proof fn lines_law(s: Seq<char>)
    ensures
        s.len() > 0 && s.last() == '\n' ==> join_spec(lines_spec(s), seq!['\n']) + seq!['\n'] == s,
        s.len() > 0 && s.last() != '\n' ==> join_spec(lines_spec(s), seq!['\n']) == s,
        s.len() == 0 ==> lines_spec(s).len() == 0,
        forall|i: int, j: int|
            0 <= i < lines_spec(s).len() && 0 <= j < lines_spec(s)[i].len() ==> #[trigger] lines_spec(
                s,
            )[i][j] != '\n',
{
    if s.len() > 0 {
        if s.last() == '\n' {
            split_on_law(s.drop_last(), '\n');
            assert(s.drop_last() + seq!['\n'] =~= s);
        } else {
            split_on_law(s, '\n');
        }
    }
}

/// The bounds in `v` of the pieces of `v[..k]` between line feeds.
fn split_lines(v: &Vec<char>, k: usize) -> (r: Vec<(usize, usize)>)
    requires
        k <= v@.len(),
    ensures
        r@.len() == split_on(v@.take(k as int), '\n').len(),
        forall|i: int|
            0 <= i < r@.len() ==> (#[trigger] r@[i]).0 <= r@[i].1 <= k && v@.subrange(
                r@[i].0 as int,
                r@[i].1 as int,
            ) == split_on(v@.take(k as int), '\n')[i],
{
    let mut out: Vec<(usize, usize)> = Vec::new();
    let mut start: usize = 0;
    let mut i: usize = 0;
    proof {
        assert(v@.take(0) =~= Seq::<char>::empty());
        assert(v@.subrange(0, 0) =~= Seq::<char>::empty());
    }
    while i < k
        invariant
            start <= i <= k <= v@.len(),
            out@.len() + 1 == split_on(v@.take(i as int), '\n').len(),
            forall|j: int|
                0 <= j < out@.len() ==> (#[trigger] out@[j]).0 <= out@[j].1 <= i && v@.subrange(
                    out@[j].0 as int,
                    out@[j].1 as int,
                ) == split_on(v@.take(i as int), '\n')[j],
            v@.subrange(start as int, i as int) == split_on(v@.take(i as int), '\n').last(),
        decreases k - i,
    {
        proof {
            lemma_split_nonempty(v@.take(i as int), '\n');
            let t = v@.take(i + 1);
            assert(t.drop_last() =~= v@.take(i as int));
            assert(t.last() == v@[i as int]);
        }
        if v[i] == '\n' {
            out.push((start, i));
            start = i + 1;
            proof {
                assert(v@.subrange(start as int, i + 1) =~= Seq::<char>::empty());
            }
        } else {
            proof {
                assert(v@.subrange(start as int, i + 1) =~= v@.subrange(start as int, i as int).push(
                    v@[i as int],
                ));
            }
        }
        i = i + 1;
    }
    out.push((start, k));
    proof {
        lemma_split_nonempty(v@.take(k as int), '\n');
    }
    out
}

/// The filter rules of a rule list: its lines, trimmed.
pub fn filter_rules(rules: &str) -> (r: Vec<String>)
    ensures
        r@.len() == lines_spec(rules@).len(),
        forall|i: int| 0 <= i < r@.len() ==> (#[trigger] r@[i])@ == trim_spec(lines_spec(rules@)[i]),
{
    let v = chars_of(rules);
    let n = v.len();
    if n == 0 {
        return Vec::new();
    }
    let k = if v[n - 1] == '\n' {
        n - 1
    } else {
        n
    };
    proof {
        if v@.last() != '\n' {
            assert(v@.take(n as int) =~= v@);
        } else {
            assert(v@.take(n - 1) =~= v@.drop_last());
        }
    }
    let pieces = split_lines(&v, k);
    let mut out: Vec<String> = Vec::new();
    let mut i: usize = 0;
    while i < pieces.len()
        invariant
            i <= pieces@.len(),
            v@ == rules@,
            k <= v@.len(),
            pieces@.len() == lines_spec(rules@).len(),
            forall|j: int|
                0 <= j < pieces@.len() ==> (#[trigger] pieces@[j]).0 <= pieces@[j].1 <= k
                    && v@.subrange(pieces@[j].0 as int, pieces@[j].1 as int) == lines_spec(rules@)[j],
            out@.len() == i,
            forall|j: int| 0 <= j < i ==> (#[trigger] out@[j])@ == trim_spec(lines_spec(rules@)[j]),
        decreases pieces.len() - i,
    {
        let (a, b) = pieces[i];
        assert(v@.subrange(a as int, b as int) == lines_spec(rules@)[i as int]);
        let t = trim(rules.substring_char(a, b));
        out.push(String::from_str(t));
        i = i + 1;
    }
    out
}

/// The kind of element whose address is checked.
#[derive(PartialEq, Eq, Structural, Debug, Clone, Copy)]
pub enum ElementKind {
    /// A link, by its `href`.
    Link,
    /// An image, by its `src`.
    Image,
}

/// The attribute changes made to an element whose address is `url`: where a
/// rule blocks it, the address becomes `#blocked`, the class marks it, and a
/// title (for links) or alternative text (for images) names the original
/// address; where a rule rewrites it, the address becomes the new one;
/// otherwise nothing changes.
pub open spec fn element_changes_spec(kind: ElementKind, url: Seq<char>, matched: bool, rewritten: Option<Seq<char>>) -> Seq<(Seq<char>, Seq<char>)> {
    let attr = if kind == ElementKind::Link {
        "href"@
    } else {
        "src"@
    };
    if matched {
        if kind == ElementKind::Link {
            seq![
                (attr, "#blocked"@),
                ("class"@, "link-blocked"@),
                ("title"@, "Original link "@ + url + " blocked"@),
            ]
        } else {
            seq![
                (attr, "#blocked"@),
                ("class"@, "image-blocked"@),
                ("alt"@, "Original src "@ + url + " blocked"@),
            ]
        }
    } else {
        match rewritten {
            Some(u) => seq![(attr, u)],
            None => Seq::empty(),
        }
    }
}

/// The attribute changes for an element (see `element_changes_spec`).
pub fn element_changes(kind: ElementKind, url: &str, matched: bool, rewritten: Option<String>) -> (r: Vec<
    (&'static str, String),
>)
    ensures
        r@.map_values(|p: (&'static str, String)| (p.0@, p.1@)) == element_changes_spec(
            kind,
            url@,
            matched,
            match rewritten {
                Some(u) => Some(u@),
                None => None,
            },
        ),
{
    let attr: &'static str = match kind {
        ElementKind::Link => "href",
        ElementKind::Image => "src",
    };
    let mut out: Vec<(&'static str, String)> = Vec::new();
    if matched {
        out.push((attr, String::from_str("#blocked")));
        match kind {
            ElementKind::Link => {
                out.push(("class", String::from_str("link-blocked")));
                let mut t = String::from_str("Original link ");
                t.append(url);
                t.append(" blocked");
                out.push(("title", t));
            },
            ElementKind::Image => {
                out.push(("class", String::from_str("image-blocked")));
                let mut t = String::from_str("Original src ");
                t.append(url);
                t.append(" blocked");
                out.push(("alt", t));
            },
        }
    } else {
        match rewritten {
            Some(u) => out.push((attr, u)),
            None => {},
        }
    }
    proof {
        assert(out@.map_values(|p: (&'static str, String)| (p.0@, p.1@)) =~= element_changes_spec(
            kind,
            url@,
            matched,
            match rewritten {
                Some(u) => Some(u@),
                None => None,
            },
        ));
    }
    out
}

/// How a filtered element changes, for every address and filter answer: a
/// blocked link gets `href="#blocked"`, the class `link-blocked` and a title
/// naming its address; a blocked image gets `src="#blocked"`, the class
/// `image-blocked` and an alternative text naming its address; a rewritten
/// link has its `href` (an image its `src`) set to the new address and
/// nothing else; an element neither blocked nor rewritten is left alone.  A
/// link's changes never touch `src`, an image's never `href`.
pub proof fn element_changes_law(kind: ElementKind, url: Seq<char>, matched: bool, rewritten: Option<Seq<char>>)
    ensures
        ({
            let r = element_changes_spec(kind, url, matched, rewritten);
            &&& (matched && kind == ElementKind::Link) ==> r == seq![
                ("href"@, "#blocked"@),
                ("class"@, "link-blocked"@),
                ("title"@, "Original link "@ + url + " blocked"@),
            ]
            &&& (matched && kind == ElementKind::Image) ==> r == seq![
                ("src"@, "#blocked"@),
                ("class"@, "image-blocked"@),
                ("alt"@, "Original src "@ + url + " blocked"@),
            ]
            &&& (!matched && kind == ElementKind::Link && rewritten is Some) ==> r == seq![
                ("href"@, rewritten->0),
            ]
            &&& (!matched && kind == ElementKind::Image && rewritten is Some) ==> r == seq![
                ("src"@, rewritten->0),
            ]
            &&& (!matched && rewritten is None) ==> r.len() == 0
            &&& kind == ElementKind::Link ==> forall|i: int|
                0 <= i < r.len() ==> (#[trigger] r[i]).0 != "src"@
            &&& kind == ElementKind::Image ==> forall|i: int|
                0 <= i < r.len() ==> (#[trigger] r[i]).0 != "href"@
        }),
{
    reveal_strlit("src");
    reveal_strlit("href");
    reveal_strlit("class");
    reveal_strlit("title");
    reveal_strlit("alt");
    let r = element_changes_spec(kind, url, matched, rewritten);
    let h: Seq<char> = "href"@;
    let s: Seq<char> = "src"@;
    assert(h != s) by {
        assert(h.len() != s.len());
    }
    assert("class"@ != s && "class"@ != h) by {
        assert("class"@.len() != s.len() && "class"@.len() != h.len());
    }
    assert("title"@ != s && "alt"@ != h) by {
        assert("title"@.len() != s.len() && "alt"@.len() != h.len());
    }
}

} // verus!
