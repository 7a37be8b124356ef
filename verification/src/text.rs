//! Character-level string helpers used throughout the forum.
use vstd::prelude::*;
use vstd::string::StringSliceAdditionalSpecFns;

verus! {

broadcast use {vstd::string::group_string_axioms, vstd::slice::group_slice_axioms};

// ---------------------------------------------------------------------------
// Specifications over character sequences
// ---------------------------------------------------------------------------
/// Unicode `White_Space` characters, the set that `char::is_whitespace` tests.
pub open spec fn is_ws(c: char) -> bool {
    let u = c as u32;
    ||| 0x9 <= u && u <= 0xd
    ||| u == 0x20
    ||| u == 0x85
    ||| u == 0xa0
    ||| u == 0x1680
    ||| 0x2000 <= u && u <= 0x200a
    ||| u == 0x2028
    ||| u == 0x2029
    ||| u == 0x202f
    ||| u == 0x205f
    ||| u == 0x3000
}

/// `s` without its leading white space.
pub open spec fn trim_start_spec(s: Seq<char>) -> Seq<char>
    decreases s.len(),
{
    if s.len() > 0 && is_ws(s[0]) {
        trim_start_spec(s.drop_first())
    } else {
        s
    }
}

/// `s` without its trailing white space.
pub open spec fn trim_end_spec(s: Seq<char>) -> Seq<char>
    decreases s.len(),
{
    if s.len() > 0 && is_ws(s.last()) {
        trim_end_spec(s.drop_last())
    } else {
        s
    }
}

/// `s` without leading and trailing white space (`str::trim`).
pub open spec fn trim_spec(s: Seq<char>) -> Seq<char> {
    trim_end_spec(trim_start_spec(s))
}

/// `n` occurs in `h` starting at position `i`.
pub open spec fn occurs_at<T>(h: Seq<T>, n: Seq<T>, i: int) -> bool {
    0 <= i && i + n.len() <= h.len() && h.subrange(i, i + n.len()) == n
}

/// `n` occurs somewhere in `h` (an empty `n` occurs everywhere).
pub open spec fn seq_contains<T>(h: Seq<T>, n: Seq<T>) -> bool {
    exists|i: int| occurs_at(h, n, i)
}

/// `h` begins with `p`.
pub open spec fn starts_with<T>(h: Seq<T>, p: Seq<T>) -> bool {
    p.len() <= h.len() && h.take(p.len() as int) == p
}

/// `h` ends with `p`.
pub open spec fn ends_with<T>(h: Seq<T>, p: Seq<T>) -> bool {
    p.len() <= h.len() && h.skip(h.len() - p.len()) == p
}

/// `s` with every leading copy of `p` removed (`str::trim_start_matches`).
pub open spec fn strip_prefixes(s: Seq<char>, p: Seq<char>) -> Seq<char>
    decreases s.len(),
{
    if p.len() > 0 && starts_with(s, p) {
        strip_prefixes(s.skip(p.len() as int), p)
    } else {
        s
    }
}

/// `s` with every trailing copy of `p` removed (`str::trim_end_matches`).
pub open spec fn strip_suffixes(s: Seq<char>, p: Seq<char>) -> Seq<char>
    decreases s.len(),
{
    if p.len() > 0 && ends_with(s, p) {
        strip_suffixes(s.take(s.len() - p.len()), p)
    } else {
        s
    }
}

/// The first `max` characters of `s`, or all of `s` when `max` is 0.
pub open spec fn cut_spec(s: Seq<char>, max: nat) -> Seq<char> {
    if max == 0 || s.len() <= max {
        s
    } else {
        s.take(max as int)
    }
}

/// An ASCII letter or digit.
pub open spec fn is_ascii_alnum(c: char) -> bool {
    let u = c as u32;
    (0x30 <= u && u <= 0x39) || (0x41 <= u && u <= 0x5a) || (0x61 <= u && u <= 0x7a)
}

/// What `char::is_alphanumeric` answers for `c` (Unicode `Alphabetic` or `Numeric`).
pub uninterp spec fn alphanumeric(c: char) -> bool;

/// What `str::to_lowercase` returns for `s`.
pub uninterp spec fn lowercase(s: Seq<char>) -> Seq<char>;

/// `s` is non-empty, does not start or end with `sep`, and never holds `sep`
/// twice in a row: every piece between copies of `sep` is non-empty.
pub open spec fn sep_layout(s: Seq<char>, sep: char) -> bool {
    &&& s.len() > 0
    &&& s[0] != sep
    &&& s.last() != sep
    &&& forall|i: int| #![trigger s[i]] 0 <= i < s.len() - 1 ==> !(s[i] == sep && s[i + 1] == sep)
}

/// A user name: words of Unicode letters and digits joined by single `_`.
pub open spec fn valid_username_spec(s: Seq<char>) -> bool {
    &&& sep_layout(s, '_')
    &&& forall|i: int| 0 <= i < s.len() ==> (s[i] == '_' || alphanumeric(s[i]))
}

/// A node slug: words of ASCII letters and digits joined by single `-`.
pub open spec fn valid_slug_spec(s: Seq<char>) -> bool {
    &&& sep_layout(s, '-')
    &&& forall|i: int| 0 <= i < s.len() ==> (s[i] == '-' || is_ascii_alnum(s[i]))
}


/// `parts` joined with `sep` between neighbours (`[T]::join`).
pub open spec fn join_spec(parts: Seq<Seq<char>>, sep: Seq<char>) -> Seq<char>
    decreases parts.len(),
{
    if parts.len() == 0 {
        Seq::empty()
    } else if parts.len() == 1 {
        parts[0]
    } else {
        join_spec(parts.drop_last(), sep) + sep + parts.last()
    }
}


/// `s` with every occurrence of the non-empty `pat` replaced by `rep`, the
/// occurrences taken left to right without overlap (`str::replace`).
pub open spec fn replace_spec(s: Seq<char>, pat: Seq<char>, rep: Seq<char>) -> Seq<char>
    decreases s.len(),
{
    if pat.len() == 0 || s.len() == 0 {
        s
    } else if starts_with(s, pat) {
        rep + replace_spec(s.skip(pat.len() as int), pat, rep)
    } else {
        seq![s[0]] + replace_spec(s.drop_first(), pat, rep)
    }
}


/// `a` comes strictly before `b` in lexicographic order of code points, the
/// order of `str`'s `Ord` (UTF-8 keeps it byte for byte).
pub open spec fn lex_lt(a: Seq<char>, b: Seq<char>) -> bool
    decreases a.len(),
{
    if b.len() == 0 {
        false
    } else if a.len() == 0 {
        true
    } else if (a[0] as u32) < (b[0] as u32) {
        true
    } else if a[0] == b[0] {
        lex_lt(a.drop_first(), b.drop_first())
    } else {
        false
    }
}

/// No string comes before itself; of two different strings one comes first.
pub proof fn lemma_lex_total(a: Seq<char>, b: Seq<char>)
    ensures
        !lex_lt(a, a),
        a != b ==> (lex_lt(a, b) || lex_lt(b, a)),
        !(lex_lt(a, b) && lex_lt(b, a)),
    decreases a.len(),
{
    if a.len() > 0 {
        lemma_lex_total(a.drop_first(), a.drop_first());
        if b.len() > 0 {
            lemma_lex_total(a.drop_first(), b.drop_first());
            if a != b && a[0] == b[0] {
                assert(a.drop_first() != b.drop_first()) by {
                    if a.drop_first() == b.drop_first() {
                        assert(a =~= seq![a[0]] + a.drop_first());
                        assert(b =~= seq![b[0]] + b.drop_first());
                    }
                }
            }
            if a[0] != b[0] {
                vstd::utf8::char_u32_cast(a[0], a[0] as u32);
                vstd::utf8::char_u32_cast(b[0], b[0] as u32);
                assert((a[0] as u32) != (b[0] as u32));
            }
        }
    } else if b.len() == 0 {
        assert(a =~= b);
    }
}

/// The order is transitive.
pub proof fn lemma_lex_trans(a: Seq<char>, b: Seq<char>, c: Seq<char>)
    requires
        lex_lt(a, b),
        lex_lt(b, c),
    ensures
        lex_lt(a, c),
    decreases a.len(),
{
    if a.len() > 0 && b.len() > 0 && c.len() > 0 && a[0] == b[0] && b[0] == c[0] {
        lemma_lex_trans(a.drop_first(), b.drop_first(), c.drop_first());
    }
}


/// The decimal digits of the natural number `n`, without leading zeros.
pub open spec fn digits_spec(n: nat) -> Seq<char>
    decreases n,
{
    if n < 10 {
        seq![(n + 48) as char]
    } else {
        digits_spec(n / 10) + seq![((n % 10) + 48) as char]
    }
}

/// `n` written in decimal, with a `-` in front when it is negative
/// (`i64::to_string`).
pub open spec fn decimal_spec(n: int) -> Seq<char> {
    if n < 0 {
        seq!['-'] + digits_spec((-n) as nat)
    } else {
        digits_spec(n as nat)
    }
}

// ---------------------------------------------------------------------------
// Lemmas
// ---------------------------------------------------------------------------
proof fn lemma_trim_start_skip(s: Seq<char>, i: int)
    requires
        0 <= i <= s.len(),
        forall|k: int| 0 <= k < i ==> is_ws(s[k]),
        i == s.len() || !is_ws(s[i]),
    ensures
        trim_start_spec(s) == s.skip(i),
    decreases i,
{
    if i == 0 {
        assert(s.skip(0) =~= s);
    } else {
        let t = s.drop_first();
        assert forall|k: int| 0 <= k < i - 1 implies is_ws(t[k]) by {
            assert(t[k] == s[k + 1]);
        }
        lemma_trim_start_skip(t, i - 1);
        assert(t.skip(i - 1) =~= s.skip(i));
    }
}

proof fn lemma_trim_end_take(s: Seq<char>, j: int)
    requires
        0 <= j <= s.len(),
        forall|k: int| j <= k < s.len() ==> is_ws(s[k]),
        j == 0 || !is_ws(s[j - 1]),
    ensures
        trim_end_spec(s) == s.take(j),
    decreases s.len() - j,
{
    if j == s.len() {
        assert(s.take(j) =~= s);
    } else {
        let t = s.drop_last();
        lemma_trim_end_take(t, j);
        assert(t.take(j) =~= s.take(j));
    }
}

proof fn lemma_strip_prefix_step(s: Seq<char>, p: Seq<char>)
    requires
        p.len() > 0,
        starts_with(s, p),
    ensures
        strip_prefixes(s, p) == strip_prefixes(s.skip(p.len() as int), p),
{
}

proof fn lemma_strip_suffix_step(s: Seq<char>, p: Seq<char>)
    requires
        p.len() > 0,
        ends_with(s, p),
    ensures
        strip_suffixes(s, p) == strip_suffixes(s.take(s.len() - p.len()), p),
{
}

// ---------------------------------------------------------------------------
// Executable helpers
// ---------------------------------------------------------------------------
/// The characters of `s`, in order.
pub fn chars_of(s: &str) -> (v: Vec<char>)
    ensures
        v@ == s@,
{
    let mut v: Vec<char> = Vec::new();
    for c in it: s.chars()
        invariant
            v@ == it.seq().take(it.index()),
    {
        v.push(c);
    }
    v
}

/// `char::is_whitespace`.
pub fn is_whitespace(c: char) -> (b: bool)
    ensures
        b == is_ws(c),
{
    let u = c as u32;
    (0x9 <= u && u <= 0xd) || u == 0x20 || u == 0x85 || u == 0xa0 || u == 0x1680 || (0x2000
        <= u && u <= 0x200a) || u == 0x2028 || u == 0x2029 || u == 0x202f || u == 0x205f || u
        == 0x3000
}

/// Bounds `(a, b)` such that `v[a..b]` is `v[lo..hi]` trimmed.
pub fn trim_range(v: &Vec<char>, lo: usize, hi: usize) -> (r: (usize, usize))
    requires
        lo <= hi <= v.len(),
    ensures
        lo <= r.0 <= r.1 <= hi,
        v@.subrange(r.0 as int, r.1 as int) == trim_spec(v@.subrange(lo as int, hi as int)),
{
    let mut i = lo;
    while i < hi && is_whitespace(v[i])
        invariant
            lo <= i <= hi <= v.len(),
            forall|k: int| lo <= k < i ==> is_ws(v@[k]),
        decreases hi - i,
    {
        i = i + 1;
    }
    let mut j = hi;
    while j > i && is_whitespace(v[j - 1])
        invariant
            lo <= i <= j <= hi <= v.len(),
            forall|k: int| j <= k < hi ==> is_ws(v@[k]),
        decreases j,
    {
        j = j - 1;
    }
    proof {
        let s = v@.subrange(lo as int, hi as int);
        lemma_trim_start_skip(s, i - lo);
        let t = s.skip(i - lo);
        assert(t =~= v@.subrange(i as int, hi as int));
        lemma_trim_end_take(t, j - i);
        assert(t.take(j - i) =~= v@.subrange(i as int, j as int));
    }
    (i, j)
}

/// `str::trim`: `s` without leading and trailing white space.
pub fn trim(s: &str) -> (r: &str)
    ensures
        r@ == trim_spec(s@),
{
    let v = chars_of(s);
    let (a, b) = trim_range(&v, 0, v.len());
    proof {
        assert(v@.subrange(0, v@.len() as int) =~= v@);
    }
    s.substring_char(a, b)
}

/// `n` occurs in `h` at position `i`.
pub fn matches_at(h: &Vec<char>, n: &Vec<char>, i: usize) -> (b: bool)
    requires
        i <= h.len(),
    ensures
        b == occurs_at(h@, n@, i as int),
{
    if n.len() > h.len() - i {
        return false;
    }
    let mut k: usize = 0;
    while k < n.len()
        invariant
            i + n.len() <= h.len(),
            k <= n.len(),
            forall|m: int| 0 <= m < k ==> h@[i + m] == n@[m],
        decreases n.len() - k,
    {
        if h[i + k] != n[k] {
            assert(h@.subrange(i as int, i + n.len())[k as int] != n@[k as int]);
            return false;
        }
        k = k + 1;
    }
    assert(h@.subrange(i as int, i + n.len()) =~= n@);
    true
}

/// The first position at or after `from` where `n` occurs in `h`.
pub fn find_from(h: &Vec<char>, n: &Vec<char>, from: usize) -> (r: Option<usize>)
    requires
        from <= h.len(),
    ensures
        match r {
            Some(i) => from <= i && occurs_at(h@, n@, i as int) && forall|k: int|
                from <= k < i ==> !occurs_at(h@, n@, k),
            None => forall|k: int| from <= k ==> !occurs_at(h@, n@, k),
        },
{
    let mut i = from;
    loop
        invariant
            from <= i <= h.len(),
            forall|k: int| from <= k < i ==> !occurs_at(h@, n@, k),
        decreases h.len() - i,
    {
        if matches_at(h, n, i) {
            return Some(i);
        }
        if i == h.len() {
            return None;
        }
        i = i + 1;
    }
}

/// `str::contains` on character vectors.
pub fn contains_chars(h: &Vec<char>, n: &Vec<char>) -> (b: bool)
    ensures
        b == seq_contains(h@, n@),
{
    match find_from(h, n, 0) {
        Some(i) => true,
        None => false,
    }
}

/// `str::contains`: whether `needle` occurs in `hay`.
pub fn contains(hay: &str, needle: &str) -> (b: bool)
    ensures
        b == seq_contains(hay@, needle@),
{
    let h = chars_of(hay);
    let n = chars_of(needle);
    contains_chars(&h, &n)
}

/// `str::starts_with`.
pub fn has_prefix(s: &str, p: &str) -> (b: bool)
    ensures
        b == starts_with(s@, p@),
{
    let h = chars_of(s);
    let n = chars_of(p);
    let b = matches_at(&h, &n, 0);
    proof {
        if n@.len() <= h@.len() {
            assert(h@.subrange(0, n@.len() as int) =~= h@.take(n@.len() as int));
        }
    }
    b
}

/// `str::ends_with`.
pub fn has_suffix(s: &str, p: &str) -> (b: bool)
    ensures
        b == ends_with(s@, p@),
{
    let h = chars_of(s);
    let n = chars_of(p);
    if n.len() > h.len() {
        return false;
    }
    let start = h.len() - n.len();
    let b = matches_at(&h, &n, start);
    proof {
        assert(h@.subrange(start as int, start + n@.len()) =~= h@.skip(start as int));
    }
    b
}

/// Whether two strings hold the same characters.
pub fn same_text(a: &str, b: &str) -> (r: bool)
    ensures
        r == (a@ == b@),
{
    let x = chars_of(a);
    let y = chars_of(b);
    if x.len() != y.len() {
        return false;
    }
    let r = matches_at(&x, &y, 0);
    proof {
        if r {
            assert(x@.subrange(0, y@.len() as int) =~= x@);
        } else if x@ == y@ {
            assert(x@.subrange(0, y@.len() as int) =~= x@);
        }
    }
    r
}

/// New lower bound after removing every copy of `p` at the front of `v[lo..hi]`.
fn strip_prefix_range(v: &Vec<char>, p: &Vec<char>, lo: usize, hi: usize) -> (r: usize)
    requires
        lo <= hi <= v.len(),
    ensures
        lo <= r <= hi,
        v@.subrange(r as int, hi as int) == strip_prefixes(v@.subrange(lo as int, hi as int), p@),
{
    let mut i = lo;
    if p.len() == 0 {
        return lo;
    }
    while i < hi && p.len() <= hi - i && matches_at(v, p, i)
        invariant
            lo <= i <= hi <= v.len(),
            p@.len() > 0,
            strip_prefixes(v@.subrange(lo as int, hi as int), p@) == strip_prefixes(
                v@.subrange(i as int, hi as int),
                p@,
            ),
        decreases hi - i,
    {
        proof {
            let t = v@.subrange(i as int, hi as int);
            assert(t.take(p@.len() as int) =~= v@.subrange(i as int, i + p@.len()));
            lemma_strip_prefix_step(t, p@);
            assert(t.skip(p@.len() as int) =~= v@.subrange(i + p@.len(), hi as int));
        }
        i = i + p.len();
    }
    proof {
        let t = v@.subrange(i as int, hi as int);
        if starts_with(t, p@) {
            assert(t.take(p@.len() as int) =~= v@.subrange(i as int, i + p@.len()));
        }
    }
    i
}

/// New upper bound after removing every copy of `p` at the end of `v[lo..hi]`.
fn strip_suffix_range(v: &Vec<char>, p: &Vec<char>, lo: usize, hi: usize) -> (r: usize)
    requires
        lo <= hi <= v.len(),
    ensures
        lo <= r <= hi,
        v@.subrange(lo as int, r as int) == strip_suffixes(v@.subrange(lo as int, hi as int), p@),
{
    let mut j = hi;
    if p.len() == 0 {
        return hi;
    }
    while j > lo && p.len() <= j - lo && matches_at(v, p, j - p.len())
        invariant
            lo <= j <= hi <= v.len(),
            p@.len() > 0,
            strip_suffixes(v@.subrange(lo as int, hi as int), p@) == strip_suffixes(
                v@.subrange(lo as int, j as int),
                p@,
            ),
        decreases j,
    {
        proof {
            let t = v@.subrange(lo as int, j as int);
            assert(t.skip(t.len() - p@.len()) =~= v@.subrange(j - p@.len(), j as int));
            lemma_strip_suffix_step(t, p@);
            assert(t.take(t.len() - p@.len()) =~= v@.subrange(lo as int, j - p@.len()));
        }
        j = j - p.len();
    }
    proof {
        let t = v@.subrange(lo as int, j as int);
        if ends_with(t, p@) {
            assert(t.skip(t.len() - p@.len()) =~= v@.subrange(j - p@.len(), j as int));
        }
    }
    j
}

/// A character vector holding the characters of `s`, built from a literal.
fn literal_chars(s: &str) -> (v: Vec<char>)
    ensures
        v@ == s@,
{
    chars_of(s)
}

/// What is left of a language model's answer once a surrounding markdown code
/// fence is taken off.
pub open spec fn clean_markdown_json_spec(s: Seq<char>) -> Seq<char> {
    let t = trim_spec(s);
    let fence = seq!['`', '`', '`'];
    let json_fence = seq!['`', '`', '`', 'j', 's', 'o', 'n'];
    if starts_with(t, json_fence) {
        trim_spec(strip_suffixes(strip_prefixes(t, json_fence), fence))
    } else if starts_with(t, fence) {
        trim_spec(strip_suffixes(strip_prefixes(t, fence), fence))
    } else {
        t
    }
}

/// `w` is white space only.
pub open spec fn all_ws(w: Seq<char>) -> bool {
    forall|i: int| 0 <= i < w.len() ==> is_ws(w[i])
}

/// `b` is not empty and neither begins nor ends with white space.
pub open spec fn trimmed_text(b: Seq<char>) -> bool {
    b.len() > 0 && !is_ws(b[0]) && !is_ws(b.last())
}

/// Trimming `w1 + b + w2` with white space `w1`, `w2` gives `b` back.
proof fn lemma_trim_around(w1: Seq<char>, b: Seq<char>, w2: Seq<char>)
    requires
        all_ws(w1),
        all_ws(w2),
        trimmed_text(b),
    ensures
        trim_spec(w1 + b + w2) == b,
{
    let s = w1 + b + w2;
    assert(s[w1.len() as int] == b[0]);
    lemma_trim_start_skip(s, w1.len() as int);
    let x = s.skip(w1.len() as int);
    assert(x =~= b + w2);
    assert(x[b.len() - 1] == b.last());
    lemma_trim_end_take(x, b.len() as int);
    assert(x.take(b.len() as int) =~= b);
}

/// How the answer of a model is cleaned, for every answer: white space
/// around it goes; a JSON text `b` wrapped in a fence opened with
/// `` ```json `` or with `` ``` `` and a line break, and closed with
/// `` ``` ``, comes out as `b`, whatever white space stands inside the fence;
/// and an answer that is not fenced comes out trimmed only.
pub proof fn clean_markdown_json_law(w1: Seq<char>, u1: Seq<char>, b: Seq<char>, u2: Seq<char>, w2: Seq<char>)
    requires
        all_ws(w1),
        all_ws(u1),
        all_ws(u2),
        all_ws(w2),
        trimmed_text(b),
        b[0] != '`',
        b.last() != '`',
    ensures
        clean_markdown_json_spec(w1 + b + w2) == b,
        clean_markdown_json_spec(w1 + seq!['`', '`', '`', 'j', 's', 'o', 'n'] + u1 + b + u2 + seq![
            '`',
            '`',
            '`',
        ] + w2) == b,
        u1.len() > 0 ==> clean_markdown_json_spec(w1 + seq!['`', '`', '`'] + u1 + b + u2 + seq![
            '`',
            '`',
            '`',
        ] + w2) == b,
{
    let fence = seq!['`', '`', '`'];
    let jf = seq!['`', '`', '`', 'j', 's', 'o', 'n'];
    assert(!is_ws('`'));
    assert(!is_ws('j'));
    // Not fenced.
    lemma_trim_around(w1, b, w2);
    if starts_with(b, fence) {
        assert(b.take(3)[0] == b[0]);
    }
    if starts_with(b, jf) {
        assert(b.take(7)[0] == b[0]);
    }
    // Fenced, with or without `json`.
    assert forall|open: Seq<char>|
        (open == jf || (open == fence && u1.len() > 0)) implies clean_markdown_json_spec(
        w1 + open + u1 + b + u2 + fence + w2,
    ) == b by {
        let f = open + u1 + b + u2 + fence;
        assert(w1 + open + u1 + b + u2 + fence + w2 =~= w1 + f + w2);
        assert(f[0] == '`');
        assert(f.last() == '`');
        lemma_trim_around(w1, f, w2);
        let g = u1 + b + u2 + fence;
        assert(f.take(open.len() as int) =~= open);
        assert(f.skip(open.len() as int) =~= g);
        assert(g[0] != '`') by {
            if u1.len() > 0 {
                assert(g[0] == u1[0]);
            } else {
                assert(g[0] == b[0]);
            }
        }
        if open == fence && u1.len() > 0 {
            if starts_with(f, jf) {
                assert(f.take(7)[3] == f[3]);
                assert(f[3] == u1[0]);
            }
        }
        if open.len() > 0 && starts_with(g, open) {
            assert(g.take(open.len() as int)[0] == g[0]);
        }
        assert(strip_prefixes(g, open) == g);
        assert(strip_prefixes(f, open) == g);
        let h = u1 + b + u2;
        assert(g.take(g.len() - 3) =~= h);
        assert(g.skip(g.len() - 3) =~= fence);
        assert(h.last() != '`') by {
            if u2.len() > 0 {
                assert(h.last() == u2.last());
            } else {
                assert(h.last() == b.last());
            }
        }
        if ends_with(h, fence) {
            assert(h.skip(h.len() - 3)[2] == h.last());
        }
        assert(strip_suffixes(h, fence) == h);
        assert(strip_suffixes(g, fence) == h);
        lemma_trim_around(u1, b, u2);
    }
}

/// Takes the markdown code fence (```` ```json ```` or ```` ``` ````) off a
/// language model's answer, trimming white space.
pub fn clean_markdown_json(input: &str) -> (r: String)
    ensures
        r@ == clean_markdown_json_spec(input@),
{
    let v = chars_of(input);
    let (a, b) = trim_range(&v, 0, v.len());
    proof {
        assert(v@.subrange(0, v@.len() as int) =~= v@);
    }
    let fence: Vec<char> = vec!['`', '`', '`'];
    let json_fence: Vec<char> = vec!['`', '`', '`', 'j', 's', 'o', 'n'];
    let ghost t = v@.subrange(a as int, b as int);
    assert(fence@ =~= seq!['`', '`', '`']);
    assert(json_fence@ =~= seq!['`', '`', '`', 'j', 's', 'o', 'n']);
    let json_start = b - a >= 7 && matches_at(&v, &json_fence, a);
    let plain_start = b - a >= 3 && matches_at(&v, &fence, a);
    proof {
        if json_fence@.len() <= t.len() {
            assert(t.take(7) =~= v@.subrange(a as int, a + 7));
        }
        if fence@.len() <= t.len() {
            assert(t.take(3) =~= v@.subrange(a as int, a + 3));
        }
    }
    if json_start || plain_start {
        let p = if json_start {
            &json_fence
        } else {
            &fence
        };
        let lo = strip_prefix_range(&v, p, a, b);
        let hi = strip_suffix_range(&v, &fence, lo, b);
        let (c, d) = trim_range(&v, lo, hi);
        String::from_str(input.substring_char(c, d))
    } else {
        String::from_str(input.substring_char(a, b))
    }
}

/// Keeps the first `max` characters of `text`; a `max` of 0 keeps it all.
pub fn cut(text: String, max: usize) -> (r: String)
    ensures
        r@ == cut_spec(text@, max as nat),
{
    if max == 0 {
        return text;
    }
    let n = text.as_str().unicode_len();
    if n > max {
        String::from_str(text.as_str().substring_char(0, max))
    } else {
        text
    }
}

/// `parts.join(sep)`.
pub fn join_strs(parts: &Vec<&str>, sep: &str) -> (r: String)
    ensures
        r@ == join_spec(parts@.map_values(|p: &str| p@), sep@),
{
    let ghost whole = parts@.map_values(|p: &str| p@);
    let mut out = String::new();
    let mut i: usize = 0;
    while i < parts.len()
        invariant
            i <= parts@.len(),
            whole == parts@.map_values(|p: &str| p@),
            out@ == join_spec(whole.take(i as int), sep@),
        decreases parts.len() - i,
    {
        proof {
            assert(whole.take(i + 1).drop_last() =~= whole.take(i as int));
        }
        if i > 0 {
            out.append(sep);
        }
        out.append(parts[i]);
        proof {
            if i == 0 {
                assert(whole.take(1) =~= seq![whole[0]]);
            }
        }
        i = i + 1;
    }
    proof {
        assert(whole.take(parts@.len() as int) =~= whole);
    }
    out
}

/// `s.replace(pat, rep)` for a non-empty `pat`.
pub fn replace_all(s: &str, pat: &str, rep: &str) -> (r: String)
    requires
        pat@.len() > 0,
    ensures
        r@ == replace_spec(s@, pat@, rep@),
{
    let v = chars_of(s);
    let p = chars_of(pat);
    let mut out = String::new();
    let mut i: usize = 0;
    let mut from: usize = 0;
    proof {
        assert(v@.skip(0) =~= v@);
        assert(out@ + v@.subrange(0, 0) =~= Seq::<char>::empty());
        assert(Seq::<char>::empty() + replace_spec(s@, p@, rep@) =~= replace_spec(s@, p@, rep@));
    }
    while i < v.len()
        invariant
            v@ == s@,
            p@ == pat@,
            p@.len() > 0,
            from <= i <= v@.len(),
            out@ + v@.subrange(from as int, i as int) + replace_spec(v@.skip(i as int), p@, rep@)
                == replace_spec(s@, p@, rep@),
        decreases v.len() - i,
    {
        let ghost t = v@.skip(i as int);
        if p.len() <= v.len() - i && matches_at(&v, &p, i) {
            proof {
                assert(t.take(p@.len() as int) =~= v@.subrange(i as int, i + p@.len()));
                assert(t.skip(p@.len() as int) =~= v@.skip(i + p@.len()));
            }
            out.append(s.substring_char(from, i));
            out.append(rep);
            i = i + p.len();
            from = i;
            proof {
                assert(v@.subrange(i as int, i as int) =~= Seq::<char>::empty());
            }
        } else {
            proof {
                if p@.len() <= t.len() {
                    assert(t.take(p@.len() as int) =~= v@.subrange(i as int, i + p@.len()));
                }
                assert(t.drop_first() =~= v@.skip(i + 1));
                assert(v@.subrange(from as int, i + 1) =~= v@.subrange(from as int, i as int).push(
                    v@[i as int],
                ));
            }
            i = i + 1;
        }
    }
    out.append(s.substring_char(from, i));
    proof {
        assert(v@.skip(i as int) =~= Seq::<char>::empty());
    }
    out
}

/// Whether `a` sorts strictly before `b` (`a < b` on `str`).
pub fn str_less(a: &str, b: &str) -> (r: bool)
    ensures
        r == lex_lt(a@, b@),
{
    let x = chars_of(a);
    let y = chars_of(b);
    let mut i: usize = 0;
    proof {
        assert(a@.skip(0) =~= a@);
        assert(b@.skip(0) =~= b@);
    }
    while i < x.len() && i < y.len() && x[i] == y[i]
        invariant
            x@ == a@,
            y@ == b@,
            i <= x@.len(),
            i <= y@.len(),
            lex_lt(a@, b@) == lex_lt(a@.skip(i as int), b@.skip(i as int)),
        decreases x.len() - i,
    {
        proof {
            let s = a@.skip(i as int);
            let t = b@.skip(i as int);
            assert(s.drop_first() =~= a@.skip(i + 1));
            assert(t.drop_first() =~= b@.skip(i + 1));
        }
        i = i + 1;
    }
    let ghost s = a@.skip(i as int);
    let ghost t = b@.skip(i as int);
    if i == y.len() {
        assert(t.len() == 0);
        false
    } else if i == x.len() {
        assert(s.len() == 0);
        true
    } else {
        assert(s[0] == x@[i as int] && t[0] == y@[i as int]);
        assert(s[0] != t[0]);
        (x[i] as u32) < (y[i] as u32)
    }
}

/// `s.trim_start_matches(p)`: `s` without every leading copy of `p`.
pub fn trim_start_matches<'a>(s: &'a str, p: &str) -> (r: &'a str)
    ensures
        r@ == strip_prefixes(s@, p@),
{
    let v = chars_of(s);
    let pv = chars_of(p);
    let lo = strip_prefix_range(&v, &pv, 0, v.len());
    proof {
        assert(v@.subrange(0, v@.len() as int) =~= v@);
    }
    s.substring_char(lo, v.len())
}

/// `s.trim_end_matches(p)`: `s` without every trailing copy of `p`.
pub fn trim_end_matches<'a>(s: &'a str, p: &str) -> (r: &'a str)
    ensures
        r@ == strip_suffixes(s@, p@),
{
    let v = chars_of(s);
    let pv = chars_of(p);
    let hi = strip_suffix_range(&v, &pv, 0, v.len());
    proof {
        assert(v@.subrange(0, v@.len() as int) =~= v@);
    }
    s.substring_char(0, hi)
}

/// The text of the digit `d`.
fn digit_text(d: u64) -> (r: &'static str)
    requires
        d < 10,
    ensures
        r@ == seq![(d + 48) as char],
{
    proof {
        reveal_strlit("0");
        reveal_strlit("1");
        reveal_strlit("2");
        reveal_strlit("3");
        reveal_strlit("4");
        reveal_strlit("5");
        reveal_strlit("6");
        reveal_strlit("7");
        reveal_strlit("8");
        reveal_strlit("9");
    }
    if d == 0 {
        "0"
    } else if d == 1 {
        "1"
    } else if d == 2 {
        "2"
    } else if d == 3 {
        "3"
    } else if d == 4 {
        "4"
    } else if d == 5 {
        "5"
    } else if d == 6 {
        "6"
    } else if d == 7 {
        "7"
    } else if d == 8 {
        "8"
    } else {
        "9"
    }
}

/// Appends the decimal digits of `n` to `out`.
fn push_digits(out: &mut String, n: u64)
    ensures
        final(out)@ == old(out)@ + digits_spec(n as nat),
    decreases n,
{
    if n < 10 {
        out.append(digit_text(n));
    } else {
        push_digits(out, n / 10);
        out.append(digit_text(n % 10));
        proof {
            assert(old(out)@ + digits_spec((n / 10) as nat) + seq![((n % 10) + 48) as char] =~= old(
                out,
            )@ + digits_spec(n as nat));
        }
    }
}

/// `n.to_string()`: `n` in decimal.
pub fn decimal(n: i64) -> (r: String)
    ensures
        r@ == decimal_spec(n as int),
{
    let mut out = String::new();
    proof {
        reveal_strlit("-");
    }
    if n < 0 {
        out.append("-");
        let mag: u64 = if n == i64::MIN {
            9223372036854775808u64
        } else {
            (-n) as u64
        };
        push_digits(&mut out, mag);
    } else {
        push_digits(&mut out, n as u64);
    }
    out
}

/// Whether `c` is a word character in the sense of the regular-expression
/// class `\w` (Unicode: alphabetic, decimal digit, mark, connector
/// punctuation or join control).
pub uninterp spec fn regex_word(c: char) -> bool;

/// `regex_syntax::is_word_character`, the test behind `\w` and `\b` in
/// `regex`.  The contract names its answer `regex_word`.
#[verifier::external_body]
pub(crate) fn is_word_char(c: char) -> (b: bool)
    ensures
        b == regex_word(c),
{
    regex_syntax::is_word_character(c)
}

/// The end of the run of word characters of `t` that begins at `j`.
pub open spec fn word_run_end(t: Seq<char>, j: int) -> int
    decreases t.len() - j,
{
    if j < 0 || j >= t.len() || !regex_word(t[j]) {
        j
    } else {
        word_run_end(t, j + 1)
    }
}

/// The run from `j` to `word_run_end(t, j)` holds word characters only and
/// stops at the end of `t` or before a character that is not one.
pub proof fn lemma_word_run_end(t: Seq<char>, j: int)
    requires
        0 <= j <= t.len(),
    ensures
        j <= word_run_end(t, j) <= t.len(),
        forall|k: int| j <= k < word_run_end(t, j) ==> regex_word(#[trigger] t[k]),
        word_run_end(t, j) == t.len() || !regex_word(t[word_run_end(t, j)]),
    decreases t.len() - j,
{
    if j < t.len() && regex_word(t[j]) {
        lemma_word_run_end(t, j + 1);
    }
}

/// The end of the run of word characters of `v` that begins at `j`.
pub fn word_end_from(v: &Vec<char>, j: usize) -> (e: usize)
    requires
        j <= v@.len(),
    ensures
        e == word_run_end(v@, j as int),
{
    let mut e = j;
    while e < v.len() && is_word_char(v[e])
        invariant
            j <= e <= v@.len(),
            word_run_end(v@, j as int) == word_run_end(v@, e as int),
        decreases v@.len() - e,
    {
        e = e + 1;
    }
    e
}

/// `char::is_alphanumeric`.
#[verifier::external_body]
fn char_is_alphanumeric(c: char) -> (b: bool)
    ensures
        b == alphanumeric(c),
{
    c.is_alphanumeric()
}

/// `str::to_lowercase`.
#[verifier::external_body]
fn to_lowercase(s: &str) -> (r: String)
    ensures
        r@ == lowercase(s@),
{
    s.to_lowercase()
}

/// A user name is one or more words of letters and digits joined by single
/// underscores (`a_b1` is valid; `_a`, `a__b`, `a_` and `a-b` are not).
pub fn is_valid_username(username: &str) -> (b: bool)
    ensures
        b == valid_username_spec(username@),
{
    let v = chars_of(username);
    let n = v.len();
    if n == 0 || v[0] == '_' || v[n - 1] == '_' {
        return false;
    }
    let mut i: usize = 0;
    while i < n
        invariant
            n == v@.len(),
            v@ == username@,
            n > 0,
            v@[0] != '_',
            v@[n - 1] != '_',
            i <= n,
            forall|k: int| 0 <= k < i ==> (v@[k] == '_' || alphanumeric(v@[k])),
            forall|k: int| #![trigger v@[k]] 0 <= k < i && k < n - 1 ==> !(v@[k] == '_' && v@[k + 1] == '_'),
        decreases n - i,
    {
        let c = v[i];
        if c != '_' && !char_is_alphanumeric(c) {
            assert(!(v@[i as int] == '_' || alphanumeric(v@[i as int])));
            return false;
        }
        if c == '_' && i + 1 < n && v[i + 1] == '_' {
            assert(v@[i as int] == '_' && v@[i + 1] == '_');
            return false;
        }
        i = i + 1;
    }
    true
}

/// `char::is_ascii_alphanumeric`.
pub fn is_ascii_alphanumeric(c: char) -> (b: bool)
    ensures
        b == is_ascii_alnum(c),
{
    let u = c as u32;
    (0x30 <= u && u <= 0x39) || (0x41 <= u && u <= 0x5a) || (0x61 <= u && u <= 0x7a)
}

/// A node slug is one or more words of ASCII letters and digits joined by
/// single hyphens (`tech`, `a-1` are valid; `-a`, `a--b`, `a_b` are not).
pub fn is_name_valid(name: &str) -> (b: bool)
    ensures
        b == valid_slug_spec(name@),
{
    let v = chars_of(name);
    let n = v.len();
    if n == 0 || v[0] == '-' || v[n - 1] == '-' {
        return false;
    }
    let mut i: usize = 0;
    while i < n
        invariant
            n == v@.len(),
            v@ == name@,
            n > 0,
            v@[0] != '-',
            v@[n - 1] != '-',
            i <= n,
            forall|k: int| 0 <= k < i ==> (v@[k] == '-' || is_ascii_alnum(v@[k])),
            forall|k: int| #![trigger v@[k]] 0 <= k < i && k < n - 1 ==> !(v@[k] == '-' && v@[k + 1] == '-'),
        decreases n - i,
    {
        let c = v[i];
        if c != '-' && !is_ascii_alphanumeric(c) {
            assert(!(v@[i as int] == '-' || is_ascii_alnum(v@[i as int])));
            return false;
        }
        if c == '-' && i + 1 < n && v[i + 1] == '-' {
            assert(v@[i as int] == '-' && v@[i + 1] == '-');
            return false;
        }
        i = i + 1;
    }
    true
}

/// The words that `parse_loose_bool` reads as true, as character sequences.
pub open spec fn loose_true(s: Seq<char>) -> bool {
    ||| s == seq!['1']
    ||| s == seq!['y']
    ||| s == seq!['y', 'e', 's']
    ||| s == seq!['o', 'n']
    ||| s == seq!['e', 'n', 'a', 'b', 'l', 'e']
    ||| s == seq!['t', 'r', 'u', 'e']
}

/// The words that `parse_loose_bool` reads as false.
pub open spec fn loose_false(s: Seq<char>) -> bool {
    ||| s == seq!['0']
    ||| s == seq!['n']
    ||| s == seq!['n', 'o']
    ||| s == seq!['o', 'f', 'f']
    ||| s == seq!['d', 'i', 's', 'a', 'b', 'l', 'e']
    ||| s == seq!['f', 'a', 'l', 's', 'e']
}

/// Whether `v` holds exactly the characters of `w`.
fn is_word(v: &Vec<char>, w: &Vec<char>) -> (b: bool)
    ensures
        b == (v@ == w@),
{
    if v.len() != w.len() {
        return false;
    }
    let r = matches_at(v, w, 0);
    proof {
        assert(v@.subrange(0, w@.len() as int) =~= v@);
    }
    r
}

/// Reads a loosely written flag: after trimming and lower-casing, `1 y yes on
/// enable true` are true, `0 n no off disable false` are false, anything else
/// is `None`.
pub fn parse_loose_bool(s: &str) -> (r: Option<bool>)
    ensures
        r == (if loose_true(lowercase(trim_spec(s@))) {
            Some(true)
        } else if loose_false(lowercase(trim_spec(s@))) {
            Some(false)
        } else {
            None
        }),
{
    let lower = to_lowercase(trim(s));
    let v = chars_of(lower.as_str());
    let t1 = vec!['1'];
    let t2 = vec!['y'];
    let t3 = vec!['y', 'e', 's'];
    let t4 = vec!['o', 'n'];
    let t5 = vec!['e', 'n', 'a', 'b', 'l', 'e'];
    let t6 = vec!['t', 'r', 'u', 'e'];
    let f1 = vec!['0'];
    let f2 = vec!['n'];
    let f3 = vec!['n', 'o'];
    let f4 = vec!['o', 'f', 'f'];
    let f5 = vec!['d', 'i', 's', 'a', 'b', 'l', 'e'];
    let f6 = vec!['f', 'a', 'l', 's', 'e'];
    proof {
        assert(t1@ =~= seq!['1']);
        assert(t2@ =~= seq!['y']);
        assert(t3@ =~= seq!['y', 'e', 's']);
        assert(t4@ =~= seq!['o', 'n']);
        assert(t5@ =~= seq!['e', 'n', 'a', 'b', 'l', 'e']);
        assert(t6@ =~= seq!['t', 'r', 'u', 'e']);
        assert(f1@ =~= seq!['0']);
        assert(f2@ =~= seq!['n']);
        assert(f3@ =~= seq!['n', 'o']);
        assert(f4@ =~= seq!['o', 'f', 'f']);
        assert(f5@ =~= seq!['d', 'i', 's', 'a', 'b', 'l', 'e']);
        assert(f6@ =~= seq!['f', 'a', 'l', 's', 'e']);
    }
    if is_word(&v, &t1) || is_word(&v, &t2) || is_word(&v, &t3) || is_word(&v, &t4) || is_word(
        &v,
        &t5,
    ) || is_word(&v, &t6) {
        Some(true)
    } else if is_word(&v, &f1) || is_word(&v, &f2) || is_word(&v, &f3) || is_word(&v, &f4)
        || is_word(&v, &f5) || is_word(&v, &f6) {
        Some(false)
    } else {
        None
    }
}

/// The first position where `n` occurs in `h`, or 1000 when it never does
/// (the sentinel the language negotiation uses).
pub open spec fn first_pos_or_1000(h: Seq<u8>, n: Seq<u8>) -> int {
    if seq_contains(h, n) {
        choose|i: int| occurs_at(h, n, i) && forall|k: int| 0 <= k < i ==> !occurs_at(h, n, k)
    } else {
        1000
    }
}

pub open spec fn min_int(a: int, b: int) -> int {
    if a <= b {
        a
    } else {
        b
    }
}

/// `en-US`, `en-GB`, `zh-CN` and `zh-TW` as bytes.
pub open spec fn tag_en_us() -> Seq<u8> {
    seq![101u8, 110u8, 45u8, 85u8, 83u8]
}

pub open spec fn tag_en_gb() -> Seq<u8> {
    seq![101u8, 110u8, 45u8, 71u8, 66u8]
}

pub open spec fn tag_zh_cn() -> Seq<u8> {
    seq![122u8, 104u8, 45u8, 67u8, 78u8]
}

pub open spec fn tag_zh_tw() -> Seq<u8> {
    seq![122u8, 104u8, 45u8, 84u8, 87u8]
}

/// An `Accept-Language` value (as bytes) chooses English: it is empty, or an
/// English tag comes before every Chinese one.
pub open spec fn prefers_english(b: Seq<u8>) -> bool {
    b.len() == 0 || min_int(first_pos_or_1000(b, tag_en_us()), first_pos_or_1000(b, tag_en_gb()))
        < min_int(first_pos_or_1000(b, tag_zh_cn()), first_pos_or_1000(b, tag_zh_tw()))
}

/// `n` occurs in `h` at position `i`.
fn bytes_match_at(h: &[u8], n: &[u8], i: usize) -> (b: bool)
    requires
        i <= h@.len(),
    ensures
        b == occurs_at(h@, n@, i as int),
{
    if n.len() > h.len() - i {
        return false;
    }
    let mut k: usize = 0;
    let nl = n.len();
    while k < nl
        invariant
            nl == n@.len(),
            h.len() == h@.len(),
            i + n@.len() <= h.len(),
            k <= n@.len(),
            forall|m: int| 0 <= m < k ==> h@[i + m] == n@[m],
        decreases n@.len() - k,
    {
        if h[i + k] != n[k] {
            assert(h@.subrange(i as int, i + n@.len())[k as int] != n@[k as int]);
            return false;
        }
        k = k + 1;
    }
    assert(h@.subrange(i as int, i + n@.len()) =~= n@);
    true
}

/// `str::find` for a byte needle: position of the first occurrence, or 1000.
fn position_or_1000(h: &[u8], n: &[u8]) -> (r: usize)
    ensures
        r as int == first_pos_or_1000(h@, n@),
{
    let mut i: usize = 0;
    loop
        invariant
            i <= h@.len(),
            forall|k: int| 0 <= k < i ==> !occurs_at(h@, n@, k),
        decreases h@.len() - i,
    {
        if bytes_match_at(h, n, i) {
            proof {
                let j = choose|j: int|
                    occurs_at(h@, n@, j) && forall|k: int| 0 <= k < j ==> !occurs_at(h@, n@, k);
                assert(occurs_at(h@, n@, j) && forall|k: int| 0 <= k < j ==> !occurs_at(h@, n@, k));
                assert(j == i);
            }
            return i;
        }
        if i == h.len() {
            assert forall|k: int| !occurs_at(h@, n@, k) by {
                if k > i {
                    assert(!(k + n@.len() <= h@.len()));
                }
            }
            return 1000;
        }
        i = i + 1;
    }
}

/// Chooses the interface language from an `Accept-Language` header: `en_US`
/// when the header is empty or names an English locale (`en-US`, `en-GB`)
/// before any Chinese one (`zh-CN`, `zh-TW`), `zh_CN` otherwise.
pub fn priority_language(s: &str) -> (r: &'static str)
    ensures
        r@ == (if prefers_english(s.spec_bytes()) {
            "en_US"@
        } else {
            "zh_CN"@
        }),
{
    let b = s.as_bytes();
    if b.len() == 0 {
        return "en_US";
    }
    let en_us: Vec<u8> = vec![101u8, 110u8, 45u8, 85u8, 83u8];
    let en_gb: Vec<u8> = vec![101u8, 110u8, 45u8, 71u8, 66u8];
    let zh_cn: Vec<u8> = vec![122u8, 104u8, 45u8, 67u8, 78u8];
    let zh_tw: Vec<u8> = vec![122u8, 104u8, 45u8, 84u8, 87u8];
    assert(en_us@ =~= tag_en_us());
    assert(en_gb@ =~= tag_en_gb());
    assert(zh_cn@ =~= tag_zh_cn());
    assert(zh_tw@ =~= tag_zh_tw());
    let p1 = position_or_1000(b, en_us.as_slice());
    let p2 = position_or_1000(b, en_gb.as_slice());
    let p3 = position_or_1000(b, zh_cn.as_slice());
    let p4 = position_or_1000(b, zh_tw.as_slice());
    let us = if p1 <= p2 {
        p1
    } else {
        p2
    };
    let zh = if p3 <= p4 {
        p3
    } else {
        p4
    };
    if zh > us {
        "en_US"
    } else {
        "zh_CN"
    }
}

/// The absolute site address that feeds link to: a local default when no
/// domain is configured, the domain itself when it already has a scheme, and
/// `https://` before it otherwise.
pub open spec fn site_base_url_spec(domain: Seq<char>) -> Seq<char> {
    if domain.len() == 0 {
        "http://localhost:3000"@
    } else if starts_with(domain, "http"@) {
        domain
    } else {
        "https://"@ + domain
    }
}

/// See [`site_base_url_spec`].
pub fn site_base_url(domain: &str) -> (r: String)
    ensures
        r@ == site_base_url_spec(domain@),
{
    if domain.is_empty() {
        String::from_str("http://localhost:3000")
    } else if has_prefix(domain, "http") {
        String::from_str(domain)
    } else {
        String::from_str("https://").concat(domain)
    }
}

} // verus!
