//! Forum nodes (boards): their flags, attributes and the rules for editing them.
use vstd::prelude::*;
use crate::text::{
    is_name_valid, lemma_lex_total, lemma_lex_trans, lex_lt, same_text, str_less, valid_slug_spec,
};

verus! {

broadcast use vstd::string::group_string_axioms;

/// A board of the forum.
pub struct Node {
    pub id: i64,
    pub name: String,
    pub slug: String,
    pub description: String,
    pub show_in_list: bool,
    pub member_access_required: bool,
    pub moderator_access_required: bool,
    pub isolated: bool,
    pub access_only: bool,
    pub topic_reward: i64,
    pub comment_reward: i64,
    pub topic_count: i64,
    /// Creation time, in seconds since the Unix epoch.
    pub created_at: i64,
    pub attributes: Vec<(String, String)>,
}

/// The attribute list as pairs of character sequences.
pub open spec fn attrs_view(a: Seq<(String, String)>) -> Seq<(Seq<char>, Seq<char>)> {
    a.map_values(|p: (String, String)| (p.0@, p.1@))
}

/// The position of the first attribute at or after `i` whose key is `key`.
pub open spec fn first_with_key(a: Seq<(Seq<char>, Seq<char>)>, key: Seq<char>, i: int) -> Option<
    int,
>
    decreases a.len() - i,
{
    if i < 0 || i >= a.len() {
        None
    } else if a[i].0 == key {
        Some(i)
    } else {
        first_with_key(a, key, i + 1)
    }
}

/// The value of the first attribute named `key`, unless it is empty.
pub open spec fn attr_spec(a: Seq<(Seq<char>, Seq<char>)>, key: Seq<char>) -> Option<Seq<char>> {
    match first_with_key(a, key, 0) {
        Some(i) => if a[i].1.len() > 0 {
            Some(a[i].1)
        } else {
            None
        },
        None => None,
    }
}

/// A value that switches an attribute on: `1`, `y`, `yes` or `true`.
pub open spec fn is_truthy(v: Seq<char>) -> bool {
    v == "1"@ || v == "y"@ || v == "yes"@ || v == "true"@
}

/// The first attribute named `key` holds a value that switches it on.
pub open spec fn enabled_spec(a: Seq<(Seq<char>, Seq<char>)>, key: Seq<char>) -> bool {
    match first_with_key(a, key, 0) {
        Some(i) => is_truthy(a[i].1),
        None => false,
    }
}

proof fn lemma_first_with_key_step(a: Seq<(Seq<char>, Seq<char>)>, key: Seq<char>, i: int)
    requires
        0 <= i < a.len(),
        a[i].0 != key,
    ensures
        first_with_key(a, key, i) == first_with_key(a, key, i + 1),
{
}

proof fn lemma_first_with_key_found(a: Seq<(Seq<char>, Seq<char>)>, key: Seq<char>, i: int)
    requires
        0 <= i < a.len(),
        a[i].0 == key,
    ensures
        first_with_key(a, key, i) == Some(i),
{
}

impl Node {
    /// The address of the node's topic list.
    pub fn url(&self) -> (r: String)
        ensures
            r@ == "/go/"@ + self.slug@,
    {
        let mut s = String::from_str("/go/");
        s.append(self.slug.as_str());
        s
    }

    /// Position of the first attribute named `key`.
    fn find_attr(&self, key: &str) -> (r: Option<usize>)
        ensures
            match r {
                Some(i) => first_with_key(attrs_view(self.attributes@), key@, 0) == Some(i as int)
                    && i < self.attributes@.len(),
                None => first_with_key(attrs_view(self.attributes@), key@, 0) is None,
            },
    {
        let ghost a = attrs_view(self.attributes@);
        let mut i: usize = 0;
        while i < self.attributes.len()
            invariant
                i <= self.attributes@.len(),
                a == attrs_view(self.attributes@),
                a.len() == self.attributes@.len(),
                first_with_key(a, key@, 0) == first_with_key(a, key@, i as int),
            decreases self.attributes.len() - i,
        {
            let hit = same_text(self.attributes[i].0.as_str(), key);
            assert(a[i as int] == (self.attributes@[i as int].0@, self.attributes@[i as int].1@));
            if hit {
                proof {
                    lemma_first_with_key_found(a, key@, i as int);
                }
                return Some(i);
            }
            proof {
                lemma_first_with_key_step(a, key@, i as int);
            }
            i = i + 1;
        }
        None
    }

    /// The value of the first attribute named `key`, or `None` when there is
    /// no such attribute or its value is empty.
    pub fn attr(&self, key: &str) -> (r: Option<String>)
        ensures
            match r {
                Some(v) => attr_spec(attrs_view(self.attributes@), key@) == Some(v@),
                None => attr_spec(attrs_view(self.attributes@), key@) is None,
            },
    {
        match self.find_attr(key) {
            Some(i) => {
                let ghost a = attrs_view(self.attributes@);
                assert(a[i as int].1 == self.attributes@[i as int].1@);
                let v = &self.attributes[i].1;
                if v.as_str().is_empty() {
                    None
                } else {
                    Some(v.clone())
                }
            },
            None => None,
        }
    }

    /// Whether the first attribute named `key` is `1`, `y`, `yes` or `true`.
    pub fn is_enabled(&self, key: &str) -> (b: bool)
        ensures
            b == enabled_spec(attrs_view(self.attributes@), key@),
    {
        match self.find_attr(key) {
            Some(i) => {
                let ghost a = attrs_view(self.attributes@);
                assert(a[i as int].1 == self.attributes@[i as int].1@);
                let v = self.attributes[i].1.as_str();
                same_text(v, "1") || same_text(v, "y") || same_text(v, "yes") || same_text(
                    v,
                    "true",
                )
            },
            None => false,
        }
    }
}

// ---------------------------------------------------------------------------
// Changing attributes
// ---------------------------------------------------------------------------
/// The attributes whose key is `k`, in order.
pub open spec fn with_key(a: Seq<(Seq<char>, Seq<char>)>, k: Seq<char>) -> Seq<(Seq<char>, Seq<char>)>
    decreases a.len(),
{
    if a.len() == 0 {
        Seq::empty()
    } else if a.last().0 == k {
        with_key(a.drop_last(), k).push(a.last())
    } else {
        with_key(a.drop_last(), k)
    }
}

/// The attributes are ordered by key.
pub open spec fn sorted_by_key(a: Seq<(Seq<char>, Seq<char>)>) -> bool {
    forall|i: int, j: int| 0 <= i < j < a.len() ==> !lex_lt(#[trigger] a[j].0, #[trigger] a[i].0)
}

/// The attributes of key `k` after setting `key` to `value` (`None` removes
/// it): one pair for `key`, none where it is removed; the others unchanged.
pub open spec fn set_attr_group(
    a: Seq<(Seq<char>, Seq<char>)>,
    key: Seq<char>,
    value: Option<Seq<char>>,
    k: Seq<char>,
) -> Seq<(Seq<char>, Seq<char>)> {
    if k == key {
        match value {
            Some(v) => seq![(key, v)],
            None => Seq::empty(),
        }
    } else {
        with_key(a, k)
    }
}

proof fn lemma_with_key_add(a: Seq<(Seq<char>, Seq<char>)>, b: Seq<(Seq<char>, Seq<char>)>, k: Seq<char>)
    ensures
        with_key(a + b, k) == with_key(a, k) + with_key(b, k),
    decreases b.len(),
{
    if b.len() == 0 {
        assert(a + b =~= a);
        assert(with_key(a, k) + with_key(b, k) =~= with_key(a, k));
    } else {
        lemma_with_key_add(a, b.drop_last(), k);
        assert((a + b).drop_last() =~= a + b.drop_last());
        assert((a + b).last() == b.last());
        if b.last().0 == k {
            assert(with_key(a, k) + with_key(b.drop_last(), k).push(b.last()) =~= (with_key(a, k)
                + with_key(b.drop_last(), k)).push(b.last()));
        }
    }
}

proof fn lemma_with_key_single(p: (Seq<char>, Seq<char>), k: Seq<char>)
    ensures
        with_key(seq![p], k) == (if p.0 == k {
            seq![p]
        } else {
            Seq::<(Seq<char>, Seq<char>)>::empty()
        }),
{
    let e = Seq::<(Seq<char>, Seq<char>)>::empty();
    assert(seq![p].drop_last() =~= e);
    assert(seq![p].last() == p);
    assert(with_key(e, k) == e);
    assert(e.push(p) =~= seq![p]);
}

/// The first attribute of key `k` at or after `i` is the first of those of
/// key `k` in `a[i..]`.
proof fn lemma_first_is_group_head(a: Seq<(Seq<char>, Seq<char>)>, k: Seq<char>, i: int)
    requires
        0 <= i <= a.len(),
    ensures
        match first_with_key(a, k, i) {
            Some(j) => i <= j < a.len() && with_key(a.skip(i), k).len() > 0 && with_key(a.skip(i), k)[0]
                == a[j],
            None => with_key(a.skip(i), k).len() == 0,
        },
    decreases a.len() - i,
{
    if i == a.len() {
        assert(a.skip(i) =~= Seq::<(Seq<char>, Seq<char>)>::empty());
    } else {
        lemma_first_is_group_head(a, k, i + 1);
        assert(a.skip(i) =~= seq![a[i]] + a.skip(i + 1));
        lemma_with_key_add(seq![a[i]], a.skip(i + 1), k);
        lemma_with_key_single(a[i], k);
        if a[i].0 != k {
            assert(Seq::<(Seq<char>, Seq<char>)>::empty() + with_key(a.skip(i + 1), k) =~= with_key(
                a.skip(i + 1),
                k,
            ));
        }
    }
}

/// What `attr_spec` finds depends on the attributes of that key alone.
pub proof fn lemma_attr_by_group(a: Seq<(Seq<char>, Seq<char>)>, k: Seq<char>)
    ensures
        attr_spec(a, k) == (if with_key(a, k).len() > 0 && with_key(a, k)[0].1.len() > 0 {
            Some(with_key(a, k)[0].1)
        } else {
            None
        }),
        enabled_spec(a, k) == (with_key(a, k).len() > 0 && is_truthy(with_key(a, k)[0].1)),
{
    lemma_first_is_group_head(a, k, 0);
    assert(a.skip(0) =~= a);
}

/// `v` without the attributes of key `key`, in order.
fn without_key(v: Vec<(String, String)>, key: &str) -> (r: Vec<(String, String)>)
    ensures
        forall|k: Seq<char>|
            #[trigger] with_key(attrs_view(r@), k) == (if k == key@ {
                Seq::<(Seq<char>, Seq<char>)>::empty()
            } else {
                with_key(attrs_view(v@), k)
            }),
{
    let ghost av = attrs_view(v@);
    let mut out: Vec<(String, String)> = Vec::new();
    let mut i: usize = 0;
    while i < v.len()
        invariant
            i <= v@.len(),
            av == attrs_view(v@),
            av.len() == v@.len(),
            forall|k: Seq<char>|
                #[trigger] with_key(attrs_view(out@), k) == (if k == key@ {
                    Seq::<(Seq<char>, Seq<char>)>::empty()
                } else {
                    with_key(av.take(i as int), k)
                }),
        decreases v.len() - i,
    {
        let ghost before = attrs_view(out@);
        let same = same_text(v[i].0.as_str(), key);
        assert(av[i as int] == (v@[i as int].0@, v@[i as int].1@));
        if !same {
            out.push((v[i].0.clone(), v[i].1.clone()));
            assert(attrs_view(out@) =~= before.push(av[i as int]));
        }
        assert forall|k: Seq<char>|
            #[trigger] with_key(attrs_view(out@), k) == (if k == key@ {
                Seq::<(Seq<char>, Seq<char>)>::empty()
            } else {
                with_key(av.take(i + 1), k)
            }) by {
            let t = av.take(i + 1);
            assert(t.drop_last() =~= av.take(i as int));
            assert(t.last() == av[i as int]);
            assert(with_key(before, k) == (if k == key@ {
                Seq::<(Seq<char>, Seq<char>)>::empty()
            } else {
                with_key(av.take(i as int), k)
            }));
            if !same {
                let o = attrs_view(out@);
                assert(o.drop_last() =~= before);
                assert(o.last() == av[i as int]);
                assert(o.len() > 0);
            } else {
                assert(attrs_view(out@) == before);
            }
        }
        i = i + 1;
    }
    proof {
        assert(av.take(v@.len() as int) =~= av);
    }
    out
}

/// The position at which `p` goes into the ordered `s` after all pairs whose
/// key does not come after its own.
fn insert_position(s: &Vec<(String, String)>, key: &str) -> (r: usize)
    requires
        sorted_by_key(attrs_view(s@)),
    ensures
        r <= s@.len(),
        forall|j: int| 0 <= j < r ==> !lex_lt(key@, #[trigger] attrs_view(s@)[j].0),
        forall|j: int| r <= j < s@.len() ==> lex_lt(key@, #[trigger] attrs_view(s@)[j].0),
{
    let ghost sv = attrs_view(s@);
    let mut i: usize = 0;
    while i < s.len()
        invariant
            i <= s@.len(),
            sv == attrs_view(s@),
            sv.len() == s@.len(),
            sorted_by_key(sv),
            forall|j: int| 0 <= j < i ==> !lex_lt(key@, #[trigger] sv[j].0),
        decreases s.len() - i,
    {
        assert(sv[i as int].0 == s@[i as int].0@);
        if str_less(key, s[i].0.as_str()) {
            assert forall|j: int| i <= j < s@.len() implies lex_lt(key@, #[trigger] sv[j].0) by {
                if j > i {
                    assert(!lex_lt(sv[j].0, sv[i as int].0));
                    lemma_lex_total(sv[j].0, sv[i as int].0);
                    if sv[j].0 != sv[i as int].0 {
                        lemma_lex_trans(key@, sv[i as int].0, sv[j].0);
                    }
                }
            }
            return i;
        }
        i = i + 1;
    }
    i
}

/// The attributes with `key` set to `value` (`None` removes it): other keys
/// keep their pairs in order, `key` keeps none or the one new pair, and the
/// list ends up ordered by key with equal keys in their former order
/// (`retain`, `push`, then a stable sort by key).
pub fn set_attribute(attrs: Vec<(String, String)>, key: &str, value: Option<&str>) -> (r: Vec<
    (String, String),
>)
    ensures
        sorted_by_key(attrs_view(r@)),
        forall|k: Seq<char>|
            #[trigger] with_key(attrs_view(r@), k) == set_attr_group(
                attrs_view(attrs@),
                key@,
                match value {
                    Some(v) => Some(v@),
                    None => None,
                },
                k,
            ),
{
    let ghost vv: Option<Seq<char>> = match value {
        Some(v) => Some(v@),
        None => None,
    };
    let mut list = without_key(attrs, key);
    let ghost kept = attrs_view(list@);
    if let Some(v) = value {
        list.push((String::from_str(key), String::from_str(v)));
        proof {
            assert(attrs_view(list@) =~= kept.push((key@, v@)));
            assert forall|k: Seq<char>| #[trigger] with_key(attrs_view(list@), k) == set_attr_group(
                attrs_view(attrs@),
                key@,
                vv,
                k,
            ) by {
                let o = attrs_view(list@);
                assert(o.drop_last() =~= kept);
                assert(o.last() == (key@, v@));
                assert(o.len() > 0);
                assert(with_key(kept, k) == (if k == key@ {
                    Seq::<(Seq<char>, Seq<char>)>::empty()
                } else {
                    with_key(attrs_view(attrs@), k)
                }));
                if k == key@ {
                    assert(Seq::<(Seq<char>, Seq<char>)>::empty().push((key@, v@)) =~= seq![(key@, v@)]);
                }
            }
        }
    }
    let ghost lv = attrs_view(list@);
    let mut sorted: Vec<(String, String)> = Vec::new();
    let mut i: usize = 0;
    while i < list.len()
        invariant
            i <= list@.len(),
            lv == attrs_view(list@),
            lv.len() == list@.len(),
            sorted_by_key(attrs_view(sorted@)),
            forall|k: Seq<char>| #[trigger] with_key(attrs_view(sorted@), k) == with_key(lv.take(i as int), k),
        decreases list.len() - i,
    {
        let ghost sv = attrs_view(sorted@);
        let p = (list[i].0.clone(), list[i].1.clone());
        let ghost pv = (p.0@, p.1@);
        assert(lv[i as int] == pv);
        let pos = insert_position(&sorted, p.0.as_str());
        sorted.insert(pos, p);
        proof {
            let nv = attrs_view(sorted@);
            let left = sv.subrange(0, pos as int);
            let right = sv.subrange(pos as int, sv.len() as int);
            assert(nv =~= left + seq![pv] + right);
            assert(sv =~= left + right);
            assert forall|a: int, b: int| 0 <= a < b < nv.len() implies !lex_lt(
                #[trigger] nv[b].0,
                #[trigger] nv[a].0,
            ) by {
                if a < pos && b == pos {
                    lemma_lex_total(pv.0, sv[a].0);
                } else if a == pos && b > pos {
                    lemma_lex_total(pv.0, sv[b - 1].0);
                } else if a < pos && b > pos {
                    assert(!lex_lt(sv[b - 1].0, sv[a].0));
                } else if b < pos {
                    assert(!lex_lt(sv[b].0, sv[a].0));
                } else {
                    assert(!lex_lt(sv[b - 1].0, sv[a - 1].0));
                }
            }
            assert forall|k: Seq<char>| #[trigger] with_key(nv, k) == with_key(lv.take(i + 1), k) by {
                lemma_with_key_add(left + seq![pv], right, k);
                lemma_with_key_add(left, seq![pv], k);
                lemma_with_key_add(left, right, k);
                lemma_with_key_single(pv, k);
                assert(lv.take(i + 1).drop_last() =~= lv.take(i as int));
                assert(lv.take(i + 1).last() == pv);
                if k == pv.0 {
                    assert forall|j: int| 0 <= j < right.len() implies right[j].0 != k by {
                        assert(lex_lt(pv.0, sv[pos + j].0));
                        lemma_lex_total(pv.0, pv.0);
                    }
                    lemma_no_key(right, k);
                    assert(with_key(left, k) + seq![pv] + Seq::<(Seq<char>, Seq<char>)>::empty()
                        =~= (with_key(left, k) + Seq::<(Seq<char>, Seq<char>)>::empty()).push(pv));
                } else {
                    assert(with_key(left, k) + Seq::<(Seq<char>, Seq<char>)>::empty() =~= with_key(
                        left,
                        k,
                    ));
                }
            }
        }
        i = i + 1;
    }
    proof {
        assert(lv.take(list@.len() as int) =~= lv);
    }
    sorted
}

/// A sequence without key `k` has no attributes of that key.
proof fn lemma_no_key(a: Seq<(Seq<char>, Seq<char>)>, k: Seq<char>)
    requires
        forall|j: int| 0 <= j < a.len() ==> a[j].0 != k,
    ensures
        with_key(a, k) == Seq::<(Seq<char>, Seq<char>)>::empty(),
    decreases a.len(),
{
    if a.len() > 0 {
        lemma_no_key(a.drop_last(), k);
    }
}

/// What a read gives back of a write: once `key` is set to a non-empty value
/// the attribute reads as that value, once it is removed (or set empty) it
/// reads as nothing, and every other key reads as before.  The switch test of
/// `is_enabled` follows the same rule.
pub proof fn attribute_write_read_law(
    attrs: Seq<(Seq<char>, Seq<char>)>,
    after: Seq<(Seq<char>, Seq<char>)>,
    key: Seq<char>,
    value: Option<Seq<char>>,
    other: Seq<char>,
)
    requires
        forall|k: Seq<char>| #[trigger] with_key(after, k) == set_attr_group(attrs, key, value, k),
    ensures
        attr_spec(after, key) == (match value {
            Some(v) => if v.len() > 0 {
                Some(v)
            } else {
                None
            },
            None => None,
        }),
        enabled_spec(after, key) == (value is Some && is_truthy(value->0)),
        other != key ==> attr_spec(after, other) == attr_spec(attrs, other),
        other != key ==> enabled_spec(after, other) == enabled_spec(attrs, other),
{
    lemma_attr_by_group(after, key);
    lemma_attr_by_group(after, other);
    lemma_attr_by_group(attrs, other);
    assert(with_key(after, key) == set_attr_group(attrs, key, value, key));
    assert(with_key(after, other) == set_attr_group(attrs, key, value, other));
}

// ---------------------------------------------------------------------------
// Administration of nodes
// ---------------------------------------------------------------------------
/// The nodes that the forum itself relies on: where removed topics go, and
/// where topics of a deleted node go.
pub open spec fn protected_spec(slug: Seq<char>) -> bool {
    slug == "trashed"@ || slug == "unclassified"@ || slug == "unclassified-protect"@
}

/// Whether `slug` names one of the built-in nodes.
pub fn is_protected_node(slug: &str) -> (b: bool)
    ensures
        b == protected_spec(slug@),
{
    same_text(slug, "trashed") || same_text(slug, "unclassified") || same_text(
        slug,
        "unclassified-protect",
    )
}

/// The fields of a node as an administrator submits them.
pub struct NodeUpdate {
    pub name: String,
    pub slug: String,
    pub description: String,
    pub show_in_list: bool,
    pub member_access_required: bool,
    pub moderator_access_required: bool,
    pub isolated: bool,
    pub access_only: bool,
    pub topic_reward: i64,
    pub comment_reward: i64,
}

/// A new attribute value.
pub struct NodeAttrUpdate {
    pub key: String,
    pub value: String,
}

/// An attribute to remove.
pub struct NodeAttrDelete {
    pub key: String,
}

/// Why a node change is refused.
#[derive(PartialEq, Eq, Structural, Debug, Clone, Copy)]
pub enum NodeEditError {
    EmptyName,
    EmptySlug,
    /// The slug is not words of ASCII letters and digits joined by single `-`.
    InvalidSlug,
    /// The slug is longer than 100 characters (bytes, as it is ASCII).
    SlugTooLong,
    /// Another node has this slug.
    SlugTaken,
    /// A built-in node keeps its slug.
    ProtectedSlug,
    /// Built-in nodes cannot be deleted.
    ProtectedNode,
    EmptyKey,
}

/// Whether a new node may be created: it needs a name and a slug that no
/// node has yet (`slug_exists`).
pub fn check_node_create(data: &NodeUpdate, slug_exists: bool) -> (r: Result<(), NodeEditError>)
    ensures
        r == (if data.name@.len() == 0 {
            Err(NodeEditError::EmptyName)
        } else if data.slug@.len() == 0 {
            Err(NodeEditError::EmptySlug)
        } else if slug_exists {
            Err(NodeEditError::SlugTaken)
        } else {
            Ok(())
        }),
{
    if data.name.as_str().is_empty() {
        return Err(NodeEditError::EmptyName);
    }
    if data.slug.as_str().is_empty() {
        return Err(NodeEditError::EmptySlug);
    }
    if slug_exists {
        return Err(NodeEditError::SlugTaken);
    }
    Ok(())
}

/// Whether node `id` may take the submitted fields: a name, a valid slug of
/// at most 100 characters, and a slug that no other node has.  `holder` is the node
/// that has the submitted slug now (its id and slug), if any; when that is
/// node `id` itself and it is a built-in node, the change is refused.
pub fn check_node_update(data: &NodeUpdate, id: i64, holder: Option<(i64, &str)>) -> (r: Result<
    (),
    NodeEditError,
>)
    ensures
        r == (if data.name@.len() == 0 {
            Err(NodeEditError::EmptyName)
        } else if data.slug@.len() == 0 {
            Err(NodeEditError::EmptySlug)
        } else if !valid_slug_spec(data.slug@) {
            Err(NodeEditError::InvalidSlug)
        } else if data.slug@.len() > 100 {
            Err(NodeEditError::SlugTooLong)
        } else {
            match holder {
                Some((hid, hslug)) => if hid != id {
                    Err(NodeEditError::SlugTaken)
                } else if protected_spec(hslug@) {
                    Err(NodeEditError::ProtectedSlug)
                } else {
                    Ok(())
                },
                None => Ok(()),
            }
        }),
{
    if data.name.as_str().is_empty() {
        return Err(NodeEditError::EmptyName);
    }
    if data.slug.as_str().is_empty() {
        return Err(NodeEditError::EmptySlug);
    }
    if !is_name_valid(data.slug.as_str()) {
        return Err(NodeEditError::InvalidSlug);
    }
    if data.slug.as_str().unicode_len() > 100 {
        return Err(NodeEditError::SlugTooLong);
    }
    match holder {
        Some((hid, hslug)) => {
            if hid != id {
                return Err(NodeEditError::SlugTaken);
            }
            if is_protected_node(hslug) {
                return Err(NodeEditError::ProtectedSlug);
            }
            Ok(())
        },
        None => Ok(()),
    }
}

/// Whether a node may be deleted, and where its topics go: to the node
/// `unclassified` where it exists, else they stay with the deleted node's id.
pub fn check_node_delete(node_id: i64, slug: &str, unclassified: Option<i64>) -> (r: Result<
    i64,
    NodeEditError,
>)
    ensures
        r == (if protected_spec(slug@) {
            Err(NodeEditError::ProtectedNode)
        } else {
            Ok(
                match unclassified {
                    Some(u) => u,
                    None => node_id,
                },
            )
        }),
{
    if is_protected_node(slug) {
        return Err(NodeEditError::ProtectedNode);
    }
    match unclassified {
        Some(u) => Ok(u),
        None => Ok(node_id),
    }
}

/// An attribute change needs a key.
pub fn check_attr_key(key: &str) -> (r: Result<(), NodeEditError>)
    ensures
        r == (if key@.len() == 0 {
            Err(NodeEditError::EmptyKey)
        } else {
            Ok(())
        }),
{
    if key.is_empty() {
        Err(NodeEditError::EmptyKey)
    } else {
        Ok(())
    }
}

/// The boards shown in lists, in order.
pub open spec fn listed_spec(nodes: Seq<Node>) -> Seq<Node>
    decreases nodes.len(),
{
    if nodes.len() == 0 {
        Seq::empty()
    } else if nodes.last().show_in_list {
        listed_spec(nodes.drop_last()).push(nodes.last())
    } else {
        listed_spec(nodes.drop_last())
    }
}

/// The boards of `nodes` that are shown in lists, in order.
pub fn listed_nodes(nodes: Vec<Node>) -> (r: Vec<Node>)
    ensures
        r@ == listed_spec(nodes@),
{
    let ghost all = nodes@;
    let mut out: Vec<Node> = Vec::new();
    for n in it: nodes.into_iter()
        invariant
            it.seq() == all,
            out@ == listed_spec(it.seq().take(it.index())),
    {
        proof {
            let t = it.seq().take(it.index() + 1);
            assert(t.drop_last() =~= it.seq().take(it.index()));
        }
        if n.show_in_list {
            out.push(n);
        }
    }
    proof {
        assert(all.take(all.len() as int) =~= all);
    }
    out
}

} // verus!
