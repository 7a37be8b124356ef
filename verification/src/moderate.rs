//! Automatic moderation of new posts by language models: which moderators
//! review which posts, the prompts they are given, and what each verdict
//! does to the post.
use vstd::prelude::*;
use crate::text::{cut, cut_spec, replace_all, replace_spec, same_text, starts_with};

verus! {

broadcast use vstd::string::group_string_axioms;

/// The instructions given to a language model.
pub struct PromptConfig {
    pub system: String,
    pub user: String,
}

impl Default for PromptConfig {
    /// Both prompts empty.
    fn default() -> (r: Self)
        ensures
            r.system@.len() == 0,
            r.user@.len() == 0,
    {
        PromptConfig { system: String::new(), user: String::new() }
    }
}

/// A moderator: a prompt run on one kind of post (`target` is `topic` or
/// `comment`) by the model named `model`, with the penalties for a post that
/// it removes.
pub struct ModeratorCfg {
    pub name: String,
    pub model: String,
    pub enable: bool,
    pub target: String,
    pub prompt: PromptConfig,
    pub credit_damage: i64,
    pub coins_damage: i64,
}

impl Default for ModeratorCfg {
    /// A disabled moderator with empty names and no penalties.
    fn default() -> (r: Self)
        ensures
            r.name@.len() == 0,
            r.model@.len() == 0,
            !r.enable,
            r.target@.len() == 0,
            r.prompt.system@.len() == 0,
            r.prompt.user@.len() == 0,
            r.credit_damage == 0,
            r.coins_damage == 0,
    {
        ModeratorCfg {
            name: String::new(),
            model: String::new(),
            enable: false,
            target: String::new(),
            prompt: PromptConfig::default(),
            credit_damage: 0,
            coins_damage: 0,
        }
    }
}

/// What moderation reads of a configured model: its name, and how many
/// characters of a filled prompt it is given (0 for all of them).
pub struct ModelInfo {
    pub name: String,
    pub max_content: i64,
}

/// A moderator joined with its model: positions in the moderator and model
/// lists of the configuration.
#[derive(PartialEq, Eq, Structural, Debug, Clone, Copy)]
pub struct JoinedModerator {
    pub rule: usize,
    pub model: usize,
}

/// The names of the models.
pub open spec fn model_names(models: Seq<ModelInfo>) -> Seq<Seq<char>> {
    models.map_values(|m: ModelInfo| m.name@)
}

/// The position of the last model called `name` (later entries of a name
/// replace earlier ones).
pub open spec fn last_named(names: Seq<Seq<char>>, name: Seq<char>) -> Option<int>
    decreases names.len(),
{
    if names.len() == 0 {
        None
    } else if names.last() == name {
        Some(names.len() - 1)
    } else {
        last_named(names.drop_last(), name)
    }
}

/// Among the first `k` moderators, in order, those that are enabled, aim at
/// `target` and name a model that exists, each with that model.
pub open spec fn joined_spec(names: Seq<Seq<char>>, mods: Seq<ModeratorCfg>, target: Seq<char>, k: int) -> Seq<
    JoinedModerator,
>
    decreases k,
{
    if k <= 0 {
        Seq::empty()
    } else {
        let prev = joined_spec(names, mods, target, k - 1);
        let m = mods[k - 1];
        if m.enable && m.target@ == target && last_named(names, m.model@) is Some {
            prev.push(JoinedModerator { rule: (k - 1) as usize, model: last_named(names, m.model@)->0 as usize })
        } else {
            prev
        }
    }
}

proof fn lemma_last_named(names: Seq<Seq<char>>, name: Seq<char>)
    ensures
        last_named(names, name) matches Some(j) ==> 0 <= j < names.len() && names[j] == name
            && forall|k: int| j < k < names.len() ==> names[k] != name,
        last_named(names, name) is None ==> forall|k: int| 0 <= k < names.len() ==> names[k] != name,
    decreases names.len(),
{
    if names.len() > 0 && names.last() != name {
        lemma_last_named(names.drop_last(), name);
        assert forall|k: int| 0 <= k < names.len() - 1 implies names[k] == names.drop_last()[k] by {}
    }
}

/// Which moderators review posts of kind `target`, for every configuration:
/// each one chosen is enabled, aims at `target` and is joined with the last
/// model that bears the name it gives; they come in configuration order,
/// each at most once; and every enabled moderator aimed at `target` whose
/// model exists is chosen.
pub proof fn moderator_selection_law(names: Seq<Seq<char>>, mods: Seq<ModeratorCfg>, target: Seq<char>, k: int)
    requires
        0 <= k <= mods.len(),
        mods.len() <= usize::MAX,
        names.len() <= usize::MAX,
    ensures
        ({
            let r = joined_spec(names, mods, target, k);
            &&& forall|i: int|
                0 <= i < r.len() ==> {
                    let x = #[trigger] r[i];
                    &&& x.rule < k
                    &&& mods[x.rule as int].enable
                    &&& mods[x.rule as int].target@ == target
                    &&& x.model < names.len()
                    &&& names[x.model as int] == mods[x.rule as int].model@
                    &&& forall|j: int| x.model < j < names.len() ==> names[j] != mods[x.rule as int].model@
                }
            &&& forall|i: int, j: int| 0 <= i < j < r.len() ==> (#[trigger] r[i]).rule < (#[trigger] r[j]).rule
            &&& forall|m: int|
                0 <= m < k && (#[trigger] mods[m]).enable && mods[m].target@ == target && (exists|j: int|
                    0 <= j < names.len() && names[j] == mods[m].model@) ==> exists|i: int|
                    0 <= i < r.len() && r[i].rule == m
        }),
    decreases k,
{
    if k > 0 {
        moderator_selection_law(names, mods, target, k - 1);
        let prev = joined_spec(names, mods, target, k - 1);
        let r = joined_spec(names, mods, target, k);
        let m = mods[k - 1];
        lemma_last_named(names, m.model@);
        if m.enable && m.target@ == target && last_named(names, m.model@) is Some {
            assert(r == prev.push(JoinedModerator { rule: (k - 1) as usize, model: last_named(names, m.model@)->0 as usize }));
            assert forall|i: int| 0 <= i < prev.len() implies r[i] == prev[i] by {}
            assert(r[prev.len() as int].rule == k - 1);
            assert forall|q: int|
                0 <= q < k && (#[trigger] mods[q]).enable && mods[q].target@ == target && (exists|j: int|
                    0 <= j < names.len() && names[j] == mods[q].model@) implies exists|i: int|
                0 <= i < r.len() && r[i].rule == q by {
                if q < k - 1 {
                    let i = choose|i: int| 0 <= i < prev.len() && prev[i].rule == q;
                    assert(r[i] == prev[i]);
                } else {
                    assert(r[prev.len() as int].rule == q);
                }
            }
        } else {
            assert(r == prev);
            assert forall|q: int|
                0 <= q < k && (#[trigger] mods[q]).enable && mods[q].target@ == target && (exists|j: int|
                    0 <= j < names.len() && names[j] == mods[q].model@) implies exists|i: int|
                0 <= i < r.len() && r[i].rule == q by {
                if q == k - 1 {
                    let j = choose|j: int| 0 <= j < names.len() && names[j] == mods[q].model@;
                    assert(names[j] == m.model@);
                }
            }
        }
    }
}

/// The position of the last model called `name`.
fn find_model(models: &Vec<ModelInfo>, name: &str) -> (r: Option<usize>)
    ensures
        match last_named(model_names(models@), name@) {
            Some(j) => r == Some(j as usize) && j < models@.len(),
            None => r is None,
        },
{
    let ghost names = model_names(models@);
    let mut found: Option<usize> = None;
    let mut j: usize = 0;
    while j < models.len()
        invariant
            j <= models@.len(),
            names == model_names(models@),
            names.len() == models@.len(),
            match last_named(names.take(j as int), name@) {
                Some(x) => found == Some(x as usize) && x < j,
                None => found is None,
            },
        decreases models.len() - j,
    {
        proof {
            assert(names.take(j + 1).drop_last() =~= names.take(j as int));
            assert(names.take(j + 1).last() == names[j as int]);
        }
        if same_text(models[j].name.as_str(), name) {
            found = Some(j);
        }
        j = j + 1;
    }
    proof {
        assert(names.take(models@.len() as int) =~= names);
    }
    found
}

/// The moderators that review posts of kind `target`, each joined with the
/// last model of the name it gives; disabled ones, those aimed elsewhere and
/// those naming no known model are left out.
pub fn select_moderators(models: &Vec<ModelInfo>, moderators: &Vec<ModeratorCfg>, target: &str) -> (r:
    Vec<JoinedModerator>)
    ensures
        r@ == joined_spec(model_names(models@), moderators@, target@, moderators@.len() as int),
{
    let ghost names = model_names(models@);
    let mut out: Vec<JoinedModerator> = Vec::new();
    let mut i: usize = 0;
    while i < moderators.len()
        invariant
            i <= moderators@.len(),
            names == model_names(models@),
            out@ == joined_spec(names, moderators@, target@, i as int),
        decreases moderators.len() - i,
    {
        let m = &moderators[i];
        if m.enable && same_text(m.target.as_str(), target) {
            if let Some(j) = find_model(models, m.model.as_str()) {
                out.push(JoinedModerator { rule: i, model: j });
            }
        }
        i = i + 1;
    }
    out
}

/// The moderators of new topics and of new replies, in configuration order.
pub fn load_moderators(models: &Vec<ModelInfo>, moderators: &Vec<ModeratorCfg>) -> (r: (
    Vec<JoinedModerator>,
    Vec<JoinedModerator>,
))
    ensures
        r.0@ == joined_spec(model_names(models@), moderators@, "topic"@, moderators@.len() as int),
        r.1@ == joined_spec(model_names(models@), moderators@, "comment"@, moderators@.len() as int),
{
    (select_moderators(models, moderators, "topic"), select_moderators(models, moderators, "comment"))
}

// ---------------------------------------------------------------------------
// Prompts
// ---------------------------------------------------------------------------
/// The number of characters of a filled prompt that a model is given.
pub open spec fn content_limit(max_content: i64) -> nat {
    (max_content as usize) as nat
}

/// A prompt about a topic: its placeholders `%TOPIC_TITLE%`,
/// `%TOPIC_CONTENT%`, `%TOPIC_CONTENT_RENDER%` and `%TOPIC_CONTENT_PLAIN%`
/// filled in that order, then cut to `max_content` characters.
pub open spec fn topic_prompt_spec(
    text: Seq<char>,
    title: Seq<char>,
    content: Seq<char>,
    render: Seq<char>,
    plain: Seq<char>,
    max_content: i64,
) -> Seq<char> {
    let a = replace_spec(text, "%TOPIC_TITLE%"@, title);
    let b = replace_spec(a, "%TOPIC_CONTENT%"@, content);
    let c = replace_spec(b, "%TOPIC_CONTENT_RENDER%"@, render);
    let d = replace_spec(c, "%TOPIC_CONTENT_PLAIN%"@, plain);
    cut_spec(d, content_limit(max_content))
}

/// A prompt about a reply: its placeholders `%COMMENT_CONTENT%`,
/// `%COMMENT_CONTENT_RENDER%` and `%COMMENT_CONTENT_PLAIN%` filled in that
/// order, then cut to `max_content` characters.
pub open spec fn comment_prompt_spec(
    text: Seq<char>,
    content: Seq<char>,
    render: Seq<char>,
    plain: Seq<char>,
    max_content: i64,
) -> Seq<char> {
    let a = replace_spec(text, "%COMMENT_CONTENT%"@, content);
    let b = replace_spec(a, "%COMMENT_CONTENT_RENDER%"@, render);
    let c = replace_spec(b, "%COMMENT_CONTENT_PLAIN%"@, plain);
    cut_spec(c, content_limit(max_content))
}

/// `s` holds no `%`, so no placeholder can begin in it.
pub open spec fn no_percent(s: Seq<char>) -> bool {
    forall|i: int| 0 <= i < s.len() ==> s[i] != '%'
}

/// A placeholder: `%`, a name without `%`, and `%`.
pub open spec fn placeholder_shaped(p: Seq<char>) -> bool {
    &&& p.len() >= 2
    &&& p[0] == '%'
    &&& p[p.len() - 1] == '%'
    &&& forall|i: int| 0 < i < p.len() - 1 ==> p[i] != '%'
}

proof fn lemma_replace_keeps_plain(s: Seq<char>, pat: Seq<char>, rep: Seq<char>)
    requires
        no_percent(s),
        pat.len() > 0,
        pat[0] == '%',
    ensures
        replace_spec(s, pat, rep) == s,
    decreases s.len(),
{
    if s.len() > 0 {
        if starts_with(s, pat) {
            assert(s.take(pat.len() as int)[0] == s[0]);
        }
        lemma_replace_keeps_plain(s.drop_first(), pat, rep);
        assert(seq![s[0]] + s.drop_first() =~= s);
    }
}

proof fn lemma_replace_plain_prefix(x: Seq<char>, z: Seq<char>, pat: Seq<char>, rep: Seq<char>)
    requires
        no_percent(x),
        pat.len() > 0,
        pat[0] == '%',
    ensures
        replace_spec(x + z, pat, rep) == x + replace_spec(z, pat, rep),
    decreases x.len(),
{
    if x.len() == 0 {
        assert(x + z =~= z);
    } else {
        let s = x + z;
        assert(s[0] == x[0]);
        if starts_with(s, pat) {
            assert(s.take(pat.len() as int)[0] == s[0]);
        }
        assert(s.drop_first() =~= x.drop_first() + z);
        lemma_replace_plain_prefix(x.drop_first(), z, pat, rep);
        assert(seq![x[0]] + (x.drop_first() + replace_spec(z, pat, rep)) =~= x + replace_spec(
            z,
            pat,
            rep,
        ));
    }
}

proof fn lemma_replace_own(p: Seq<char>, y: Seq<char>, rep: Seq<char>)
    requires
        placeholder_shaped(p),
        no_percent(y),
    ensures
        replace_spec(p + y, p, rep) == rep + y,
{
    let s = p + y;
    assert(s.take(p.len() as int) =~= p);
    assert(s.skip(p.len() as int) =~= y);
    lemma_replace_keeps_plain(y, p, rep);
}

proof fn lemma_replace_other(q: Seq<char>, y: Seq<char>, p: Seq<char>, rep: Seq<char>)
    requires
        placeholder_shaped(p),
        placeholder_shaped(q),
        p != q,
        no_percent(y),
    ensures
        replace_spec(q + y, p, rep) == q + y,
{
    let s = q + y;
    if starts_with(s, p) {
        let t = s.take(p.len() as int);
        if p.len() == q.len() {
            assert(t =~= q);
        } else if p.len() < q.len() {
            assert(t[p.len() - 1] == q[p.len() - 1]);
        } else {
            assert(t[q.len() - 1] == q[q.len() - 1]);
        }
    }
    let mid = q.subrange(1, q.len() - 1);
    let tl = seq!['%'] + y;
    assert(s.drop_first() =~= mid + tl);
    lemma_replace_plain_prefix(mid, tl, p, rep);
    if starts_with(tl, p) {
        assert(tl.take(p.len() as int)[p.len() - 1] == tl[p.len() - 1]);
        assert(tl[p.len() - 1] == y[p.len() - 2]);
    }
    assert(tl.drop_first() =~= y);
    lemma_replace_keeps_plain(y, p, rep);
    assert(seq![q[0]] + (mid + tl) =~= s);
}

proof fn lemma_placeholders_shaped()
    ensures
        placeholder_shaped("%COMMENT_CONTENT%"@),
        placeholder_shaped("%COMMENT_CONTENT_RENDER%"@),
        placeholder_shaped("%COMMENT_CONTENT_PLAIN%"@),
        placeholder_shaped("%TOPIC_TITLE%"@),
        placeholder_shaped("%TOPIC_CONTENT%"@),
        placeholder_shaped("%TOPIC_CONTENT_RENDER%"@),
        placeholder_shaped("%TOPIC_CONTENT_PLAIN%"@),
        "%COMMENT_CONTENT%"@.len() == 17,
        "%COMMENT_CONTENT_RENDER%"@.len() == 24,
        "%COMMENT_CONTENT_PLAIN%"@.len() == 23,
        "%TOPIC_TITLE%"@.len() == 13,
        "%TOPIC_CONTENT%"@.len() == 15,
        "%TOPIC_CONTENT_RENDER%"@.len() == 22,
        "%TOPIC_CONTENT_PLAIN%"@.len() == 21,
{
    reveal_strlit("%COMMENT_CONTENT%");
    reveal_strlit("%COMMENT_CONTENT_RENDER%");
    reveal_strlit("%COMMENT_CONTENT_PLAIN%");
    reveal_strlit("%TOPIC_TITLE%");
    reveal_strlit("%TOPIC_CONTENT%");
    reveal_strlit("%TOPIC_CONTENT_RENDER%");
    reveal_strlit("%TOPIC_CONTENT_PLAIN%");
}

/// Filling placeholders in order turns `before + ph + after` into
/// `before + reps[k] + after`, where `ph` is the `k`-th of them.
proof fn lemma_fill_one(before: Seq<char>, ph: Seq<char>, after: Seq<char>, pats: Seq<Seq<char>>, reps: Seq<Seq<char>>, k: int)
    requires
        no_percent(before),
        no_percent(after),
        placeholder_shaped(ph),
        pats.len() == reps.len(),
        0 <= k < pats.len(),
        pats[k] == ph,
        no_percent(reps[k]),
        forall|j: int| 0 <= j < pats.len() ==> placeholder_shaped(#[trigger] pats[j]),
        forall|j: int| 0 <= j < pats.len() && j != k ==> #[trigger] pats[j] != ph,
    ensures
        fill_all(before + ph + after, pats, reps) == before + reps[k] + after,
    decreases pats.len(),
{
    let n = pats.len();
    let last = pats[n - 1];
    let pre = pats.drop_last();
    let rpre = reps.drop_last();
    if k == n - 1 {
        lemma_fill_none(before + ph + after, pre, rpre, before, ph, after);
        lemma_replace_plain_prefix(before, ph + after, ph, reps[k]);
        assert(before + ph + after =~= before + (ph + after));
        lemma_replace_own(ph, after, reps[k]);
        assert(before + (reps[k] + after) =~= before + reps[k] + after);
    } else {
        lemma_fill_one(before, ph, after, pre, rpre, k);
        let mid = before + reps[k] + after;
        assert forall|i: int| 0 <= i < mid.len() implies mid[i] != '%' by {
            if i < before.len() {
                assert(mid[i] == before[i]);
            } else if i < before.len() + reps[k].len() {
                assert(mid[i] == reps[k][i - before.len()]);
            } else {
                assert(mid[i] == after[i - before.len() - reps[k].len()]);
            }
        }
        lemma_replace_keeps_plain(mid, last, reps[n - 1]);
    }
}

/// Fills the placeholders `pats[j]` with `reps[j]`, in order.
spec fn fill_all(text: Seq<char>, pats: Seq<Seq<char>>, reps: Seq<Seq<char>>) -> Seq<char>
    decreases pats.len(),
{
    if pats.len() == 0 || reps.len() != pats.len() {
        text
    } else {
        replace_spec(fill_all(text, pats.drop_last(), reps.drop_last()), pats.last(), reps.last())
    }
}

/// Filling placeholders other than `ph` leaves `before + ph + after` as it is.
proof fn lemma_fill_none(
    text: Seq<char>,
    pats: Seq<Seq<char>>,
    reps: Seq<Seq<char>>,
    before: Seq<char>,
    ph: Seq<char>,
    after: Seq<char>,
)
    requires
        text == before + ph + after,
        no_percent(before),
        no_percent(after),
        placeholder_shaped(ph),
        pats.len() == reps.len(),
        forall|j: int| 0 <= j < pats.len() ==> placeholder_shaped(#[trigger] pats[j]),
        forall|j: int| 0 <= j < pats.len() ==> #[trigger] pats[j] != ph,
    ensures
        fill_all(text, pats, reps) == text,
    decreases pats.len(),
{
    if pats.len() > 0 {
        let n = pats.len();
        lemma_fill_none(text, pats.drop_last(), reps.drop_last(), before, ph, after);
        assert(pats.last() == pats[n - 1]);
        lemma_replace_plain_prefix(before, ph + after, pats.last(), reps.last());
        lemma_replace_other(ph, after, pats.last(), reps.last());
        assert(before + (ph + after) =~= text);
    }
}

/// How a prompt about a topic is filled, for every text around a placeholder
/// and every topic without `%`: `%TOPIC_TITLE%` takes the title,
/// `%TOPIC_CONTENT%` the source, `%TOPIC_CONTENT_RENDER%` the rendered markup
/// and `%TOPIC_CONTENT_PLAIN%` the plain text; a prompt without placeholders
/// stays as it is.  With no limit (0) nothing is cut; with a limit the filled
/// prompt is cut to that many characters.
pub proof fn topic_prompt_law(
    x: Seq<char>,
    y: Seq<char>,
    title: Seq<char>,
    content: Seq<char>,
    render: Seq<char>,
    plain: Seq<char>,
    max_content: i64,
)
    requires
        no_percent(x),
        no_percent(y),
        no_percent(title),
        no_percent(content),
        no_percent(render),
        no_percent(plain),
    ensures
        ({
            let lim = content_limit(max_content);
            let f = |full: Seq<char>| if lim == 0 || full.len() <= lim {
                full
            } else {
                full.take(lim as int)
            };
            &&& topic_prompt_spec(x + "%TOPIC_TITLE%"@ + y, title, content, render, plain, max_content)
                == f(x + title + y)
            &&& topic_prompt_spec(x + "%TOPIC_CONTENT%"@ + y, title, content, render, plain, max_content)
                == f(x + content + y)
            &&& topic_prompt_spec(x + "%TOPIC_CONTENT_RENDER%"@ + y, title, content, render, plain, max_content)
                == f(x + render + y)
            &&& topic_prompt_spec(x + "%TOPIC_CONTENT_PLAIN%"@ + y, title, content, render, plain, max_content)
                == f(x + plain + y)
            &&& topic_prompt_spec(x, title, content, render, plain, max_content) == f(x)
        }),
{
    lemma_placeholders_shaped();
    let t: Seq<char> = "%TOPIC_TITLE%"@;
    let c: Seq<char> = "%TOPIC_CONTENT%"@;
    let r: Seq<char> = "%TOPIC_CONTENT_RENDER%"@;
    let p: Seq<char> = "%TOPIC_CONTENT_PLAIN%"@;
    let pats = seq![t, c, r, p];
    let reps = seq![title, content, render, plain];
    assert(t != c && t != r && t != p && c != r && c != p && r != p) by {
        assert(t.len() != c.len() && t.len() != r.len() && t.len() != p.len() && c.len() != r.len()
            && c.len() != p.len() && r.len() != p.len());
    }
    assert forall|u: Seq<char>| #[trigger] fill_all(u, pats, reps) == replace_spec(
        replace_spec(replace_spec(replace_spec(u, t, title), c, content), r, render),
        p,
        plain,
    ) by {
        reveal_with_fuel(fill_all, 5);
        assert(pats.drop_last() =~= seq![t, c, r]);
        assert(reps.drop_last() =~= seq![title, content, render]);
        assert(pats.drop_last().drop_last() =~= seq![t, c]);
        assert(reps.drop_last().drop_last() =~= seq![title, content]);
        assert(pats.drop_last().drop_last().drop_last() =~= seq![t]);
        assert(reps.drop_last().drop_last().drop_last() =~= seq![title]);
        assert(seq![t].drop_last() =~= Seq::<Seq<char>>::empty());
        assert(seq![title].drop_last() =~= Seq::<Seq<char>>::empty());
    }
    lemma_fill_one(x, t, y, pats, reps, 0);
    lemma_fill_one(x, c, y, pats, reps, 1);
    lemma_fill_one(x, r, y, pats, reps, 2);
    lemma_fill_one(x, p, y, pats, reps, 3);
    lemma_replace_keeps_plain(x, t, title);
    lemma_replace_keeps_plain(x, c, content);
    lemma_replace_keeps_plain(x, r, render);
    lemma_replace_keeps_plain(x, p, plain);
}

/// How a prompt about a reply is filled, for every text around a placeholder
/// and every reply without `%`: a prompt `x %COMMENT_CONTENT% y` becomes `x`,
/// the reply's source and `y`; `%COMMENT_CONTENT_RENDER%` takes the rendered
/// markup and `%COMMENT_CONTENT_PLAIN%` the plain text; a prompt without
/// placeholders stays as it is.  With no limit (0) nothing is cut; with a
/// limit the filled prompt is cut to that many characters.
pub proof fn comment_prompt_law(
    x: Seq<char>,
    y: Seq<char>,
    content: Seq<char>,
    render: Seq<char>,
    plain: Seq<char>,
    max_content: i64,
)
    requires
        no_percent(x),
        no_percent(y),
        no_percent(content),
        no_percent(render),
        no_percent(plain),
    ensures
        ({
            let lim = content_limit(max_content);
            let f = |full: Seq<char>| if lim == 0 || full.len() <= lim {
                full
            } else {
                full.take(lim as int)
            };
            &&& comment_prompt_spec(x + "%COMMENT_CONTENT%"@ + y, content, render, plain, max_content)
                == f(x + content + y)
            &&& comment_prompt_spec(x + "%COMMENT_CONTENT_RENDER%"@ + y, content, render, plain, max_content)
                == f(x + render + y)
            &&& comment_prompt_spec(x + "%COMMENT_CONTENT_PLAIN%"@ + y, content, render, plain, max_content)
                == f(x + plain + y)
            &&& comment_prompt_spec(x, content, render, plain, max_content) == f(x)
        }),
{
    lemma_placeholders_shaped();
    let c: Seq<char> = "%COMMENT_CONTENT%"@;
    let r: Seq<char> = "%COMMENT_CONTENT_RENDER%"@;
    let p: Seq<char> = "%COMMENT_CONTENT_PLAIN%"@;
    let pats = seq![c, r, p];
    let reps = seq![content, render, plain];
    assert(c != r && c != p && r != p) by {
        assert(c.len() != r.len() && c.len() != p.len() && r.len() != p.len());
    }
    assert forall|t: Seq<char>| #[trigger] fill_all(t, pats, reps) == replace_spec(
        replace_spec(replace_spec(t, c, content), r, render),
        p,
        plain,
    ) by {
        reveal_with_fuel(fill_all, 4);
        assert(pats.drop_last().drop_last().drop_last() =~= Seq::<Seq<char>>::empty());
        assert(reps.drop_last().drop_last().drop_last() =~= Seq::<Seq<char>>::empty());
        assert(pats.drop_last().drop_last() =~= seq![c]);
        assert(reps.drop_last().drop_last() =~= seq![content]);
        assert(pats.drop_last() =~= seq![c, r]);
        assert(reps.drop_last() =~= seq![content, render]);
        assert(fill_all(t, seq![c], seq![content]) == replace_spec(
            fill_all(t, Seq::<Seq<char>>::empty(), Seq::<Seq<char>>::empty()),
            c,
            content,
        )) by {
            assert(seq![c].drop_last() =~= Seq::<Seq<char>>::empty());
            assert(seq![content].drop_last() =~= Seq::<Seq<char>>::empty());
        }
    }
    lemma_fill_one(x, c, y, pats, reps, 0);
    lemma_fill_one(x, r, y, pats, reps, 1);
    lemma_fill_one(x, p, y, pats, reps, 2);
    lemma_replace_keeps_plain(x, c, content);
    lemma_replace_keeps_plain(x, r, render);
    lemma_replace_keeps_plain(x, p, plain);
}

/// Fills a prompt about a topic (see `topic_prompt_spec`).
pub fn fill_topic_prompt(
    text: &str,
    title: &str,
    content: &str,
    render: &str,
    plain: &str,
    max_content: i64,
) -> (r: String)
    ensures
        r@ == topic_prompt_spec(text@, title@, content@, render@, plain@, max_content),
{
    proof {
        reveal_strlit("%TOPIC_TITLE%");
        reveal_strlit("%TOPIC_CONTENT%");
        reveal_strlit("%TOPIC_CONTENT_RENDER%");
        reveal_strlit("%TOPIC_CONTENT_PLAIN%");
    }
    let a = replace_all(text, "%TOPIC_TITLE%", title);
    let b = replace_all(a.as_str(), "%TOPIC_CONTENT%", content);
    let c = replace_all(b.as_str(), "%TOPIC_CONTENT_RENDER%", render);
    let d = replace_all(c.as_str(), "%TOPIC_CONTENT_PLAIN%", plain);
    #[verifier::truncate]
    let max = max_content as usize;
    cut(d, max)
}

/// Fills a prompt about a reply (see `comment_prompt_spec`).
pub fn fill_comment_prompt(text: &str, content: &str, render: &str, plain: &str, max_content: i64) -> (r:
    String)
    ensures
        r@ == comment_prompt_spec(text@, content@, render@, plain@, max_content),
{
    proof {
        reveal_strlit("%COMMENT_CONTENT%");
        reveal_strlit("%COMMENT_CONTENT_RENDER%");
        reveal_strlit("%COMMENT_CONTENT_PLAIN%");
    }
    let a = replace_all(text, "%COMMENT_CONTENT%", content);
    let b = replace_all(a.as_str(), "%COMMENT_CONTENT_RENDER%", render);
    let c = replace_all(b.as_str(), "%COMMENT_CONTENT_PLAIN%", plain);
    #[verifier::truncate]
    let max = max_content as usize;
    cut(c, max)
}

/// The system and user prompts for a topic: each filled when it is set, left
/// empty when it is not.
pub fn topic_prompts(
    prompt: &PromptConfig,
    model: &ModelInfo,
    title: &str,
    content: &str,
    render: &str,
    plain: &str,
) -> (r: (String, String))
    ensures
        r.0@ == (if prompt.system@.len() == 0 {
            Seq::<char>::empty()
        } else {
            topic_prompt_spec(prompt.system@, title@, content@, render@, plain@, model.max_content)
        }),
        r.1@ == (if prompt.user@.len() == 0 {
            Seq::<char>::empty()
        } else {
            topic_prompt_spec(prompt.user@, title@, content@, render@, plain@, model.max_content)
        }),
{
    let system = if prompt.system.as_str().is_empty() {
        String::new()
    } else {
        fill_topic_prompt(prompt.system.as_str(), title, content, render, plain, model.max_content)
    };
    let user = if prompt.user.as_str().is_empty() {
        String::new()
    } else {
        fill_topic_prompt(prompt.user.as_str(), title, content, render, plain, model.max_content)
    };
    (system, user)
}

/// The system and user prompts for a reply: each filled when it is set, left
/// empty when it is not.
pub fn comment_prompts(
    prompt: &PromptConfig,
    model: &ModelInfo,
    content: &str,
    render: &str,
    plain: &str,
) -> (r: (String, String))
    ensures
        r.0@ == (if prompt.system@.len() == 0 {
            Seq::<char>::empty()
        } else {
            comment_prompt_spec(prompt.system@, content@, render@, plain@, model.max_content)
        }),
        r.1@ == (if prompt.user@.len() == 0 {
            Seq::<char>::empty()
        } else {
            comment_prompt_spec(prompt.user@, content@, render@, plain@, model.max_content)
        }),
{
    let system = if prompt.system.as_str().is_empty() {
        String::new()
    } else {
        fill_comment_prompt(prompt.system.as_str(), content, render, plain, model.max_content)
    };
    let user = if prompt.user.as_str().is_empty() {
        String::new()
    } else {
        fill_comment_prompt(prompt.user.as_str(), content, render, plain, model.max_content)
    };
    (system, user)
}

// ---------------------------------------------------------------------------
// Verdicts
// ---------------------------------------------------------------------------
/// The action that a model's answer asks for.
#[derive(PartialEq, Eq, Structural, Debug, Clone, Copy)]
pub enum Verdict {
    /// `pass`: go on with the next moderator.
    Pass,
    /// `pass-and-exit`: accept the post without asking further moderators.
    PassAndExit,
    /// `lock`
    Lock,
    /// `delete`
    Delete,
    /// `move`
    Move,
    /// Any other word.
    Unknown,
}

/// The verdict named by `action`.
pub open spec fn verdict_spec(action: Seq<char>) -> Verdict {
    if action == "pass"@ {
        Verdict::Pass
    } else if action == "pass-and-exit"@ {
        Verdict::PassAndExit
    } else if action == "lock"@ {
        Verdict::Lock
    } else if action == "delete"@ {
        Verdict::Delete
    } else if action == "move"@ {
        Verdict::Move
    } else {
        Verdict::Unknown
    }
}

/// Reads the `action` of a model's answer.
pub fn parse_verdict(action: &str) -> (r: Verdict)
    ensures
        r == verdict_spec(action@),
{
    if same_text(action, "pass") {
        Verdict::Pass
    } else if same_text(action, "pass-and-exit") {
        Verdict::PassAndExit
    } else if same_text(action, "lock") {
        Verdict::Lock
    } else if same_text(action, "delete") {
        Verdict::Delete
    } else if same_text(action, "move") {
        Verdict::Move
    } else {
        Verdict::Unknown
    }
}

/// Changes to the author's coins and credit score after a removal (amounts to
/// add; `None` for no change).
#[derive(PartialEq, Eq, Structural, Debug, Clone, Copy)]
pub struct Penalty {
    pub coins: Option<i64>,
    pub credit: Option<i64>,
}

/// What a topic's review does after one moderator has answered.
#[derive(PartialEq, Eq, Structural, Debug, Clone, Copy)]
pub enum TopicStep {
    /// Ask the next moderator.
    Next,
    /// End the review, leaving the topic as it is.
    Stop,
    /// Lock the topic and end the review.
    Lock,
    /// Remove the topic (into the board `trash_node`, locked, or for good
    /// where there is none), tell its author, apply the penalty, and end the
    /// review.
    Remove { trash_node: Option<i64>, penalty: Penalty },
}

/// The penalty that a moderator's rule sets on the author of a removed topic.
pub open spec fn topic_penalty(rule: &ModeratorCfg) -> Penalty {
    Penalty {
        coins: if rule.coins_damage > 0 {
            Some(-rule.coins_damage as i64)
        } else {
            None
        },
        credit: if rule.credit_damage > 0 {
            Some(-rule.credit_damage as i64)
        } else {
            None
        },
    }
}

/// The step of a topic's review for one moderator's verdict (`None` where
/// asking the model failed): a pass goes on, as do failures and unknown
/// words; `pass-and-exit` and `move` end the review; `lock` locks; `delete`
/// removes into the board `trashed_id` when it is positive, for good
/// otherwise.
pub open spec fn topic_step_spec(verdict: Option<Verdict>, rule: &ModeratorCfg, trashed_id: i64) -> TopicStep {
    match verdict {
        None => TopicStep::Next,
        Some(Verdict::Pass) => TopicStep::Next,
        Some(Verdict::Unknown) => TopicStep::Next,
        Some(Verdict::PassAndExit) => TopicStep::Stop,
        Some(Verdict::Move) => TopicStep::Stop,
        Some(Verdict::Lock) => TopicStep::Lock,
        Some(Verdict::Delete) => TopicStep::Remove {
            trash_node: if trashed_id <= 0 {
                None
            } else {
                Some(trashed_id)
            },
            penalty: topic_penalty(rule),
        },
    }
}

/// Decides the step of a topic's review (see `topic_step_spec`).
pub fn topic_step(verdict: Option<Verdict>, rule: &ModeratorCfg, trashed_id: i64) -> (r: TopicStep)
    ensures
        r == topic_step_spec(verdict, rule, trashed_id),
{
    match verdict {
        None => TopicStep::Next,
        Some(Verdict::Pass) => TopicStep::Next,
        Some(Verdict::Unknown) => TopicStep::Next,
        Some(Verdict::PassAndExit) => TopicStep::Stop,
        Some(Verdict::Move) => TopicStep::Stop,
        Some(Verdict::Lock) => TopicStep::Lock,
        Some(Verdict::Delete) => {
            let trash_node = if trashed_id <= 0 {
                None
            } else {
                Some(trashed_id)
            };
            let coins = if rule.coins_damage > 0 {
                Some(-rule.coins_damage)
            } else {
                None
            };
            let credit = if rule.credit_damage > 0 {
                Some(-rule.credit_damage)
            } else {
                None
            };
            TopicStep::Remove { trash_node, penalty: Penalty { coins, credit } }
        },
    }
}

/// What a reply's review does after one moderator has answered.
#[derive(PartialEq, Eq, Structural, Debug, Clone, Copy)]
pub enum CommentStep {
    /// Ask the next moderator.
    Next,
    /// End the review, leaving the reply as it is.
    Stop,
    /// Delete the reply; once that succeeds, tell its author and apply the
    /// penalty; then ask the next moderator.
    Remove(Penalty),
}

/// The penalty that a moderator's rule sets on the author of a removed reply:
/// the coins lose `coins_damage`, and where a credit damage is set the credit
/// score loses `coins_damage` as well.
pub open spec fn comment_penalty(rule: &ModeratorCfg) -> Penalty {
    Penalty {
        coins: if rule.coins_damage > 0 {
            Some(-rule.coins_damage as i64)
        } else {
            None
        },
        credit: if rule.credit_damage > 0 {
            Some(-rule.coins_damage as i64)
        } else {
            None
        },
    }
}

/// The step of a reply's review for one moderator's verdict (`None` where
/// asking the model failed): only `pass-and-exit` ends the review; `delete`
/// removes the reply and the review goes on.
pub open spec fn comment_step_spec(verdict: Option<Verdict>, rule: &ModeratorCfg) -> CommentStep {
    match verdict {
        Some(Verdict::PassAndExit) => CommentStep::Stop,
        Some(Verdict::Delete) => CommentStep::Remove(comment_penalty(rule)),
        _ => CommentStep::Next,
    }
}

/// Decides the step of a reply's review (see `comment_step_spec`).
pub fn comment_step(verdict: Option<Verdict>, rule: &ModeratorCfg) -> (r: CommentStep)
    requires
        rule.credit_damage > 0 ==> rule.coins_damage > i64::MIN,
    ensures
        r == comment_step_spec(verdict, rule),
{
    match verdict {
        Some(Verdict::PassAndExit) => CommentStep::Stop,
        Some(Verdict::Delete) => {
            let coins = if rule.coins_damage > 0 {
                Some(-rule.coins_damage)
            } else {
                None
            };
            let credit = if rule.credit_damage > 0 {
                Some(-rule.coins_damage)
            } else {
                None
            };
            CommentStep::Remove(Penalty { coins, credit })
        },
        _ => CommentStep::Next,
    }
}

/// A topic's review asks moderators in turn until one ends it: a pass or a
/// failed request never ends it, and every verdict that changes the topic
/// ends it.  A reply's review is ended by `pass-and-exit` alone.
pub proof fn review_ends_law(verdict: Option<Verdict>, rule: &ModeratorCfg, trashed_id: i64)
    ensures
        (verdict is None || verdict == Some(Verdict::Pass)) ==> topic_step_spec(verdict, rule, trashed_id)
            == TopicStep::Next,
        topic_step_spec(verdict, rule, trashed_id) != TopicStep::Next ==> verdict is Some && verdict
            != Some(Verdict::Pass) && verdict != Some(Verdict::Unknown),
        (comment_step_spec(verdict, rule) == CommentStep::Stop) <==> (verdict == Some(
            Verdict::PassAndExit,
        )),
        topic_step_spec(verdict, rule, trashed_id) matches TopicStep::Remove { trash_node, .. }
            ==> (trash_node is None <==> trashed_id <= 0),
{
}

/// How a topic's review ends, given the verdicts that the moderators would
/// give in turn (`verdicts[i]` under `rules[i]`): the position and step of
/// the first moderator whose step is not `Next`, or `None` where none ends
/// it.  The moderators after that one are never asked.
pub open spec fn topic_review_spec(
    verdicts: Seq<Option<Verdict>>,
    rules: Seq<ModeratorCfg>,
    trashed_id: i64,
    i: int,
) -> Option<(int, TopicStep)>
    decreases verdicts.len() - i,
{
    if i < 0 || i >= verdicts.len() {
        None
    } else if topic_step_spec(verdicts[i], &rules[i], trashed_id) != TopicStep::Next {
        Some((i, topic_step_spec(verdicts[i], &rules[i], trashed_id)))
    } else {
        topic_review_spec(verdicts, rules, trashed_id, i + 1)
    }
}

/// Runs a topic's review over the moderators' verdicts, in order, and
/// returns where and how it ended (see [`topic_review_spec`]).
pub fn review_topic(rules: &Vec<ModeratorCfg>, verdicts: &Vec<Option<Verdict>>, trashed_id: i64) -> (r:
    Option<(usize, TopicStep)>)
    requires
        verdicts@.len() == rules@.len(),
    ensures
        match r {
            Some((k, s)) => topic_review_spec(verdicts@, rules@, trashed_id, 0) == Some(
                (k as int, s),
            ),
            None => topic_review_spec(verdicts@, rules@, trashed_id, 0) is None,
        },
{
    let mut i: usize = 0;
    while i < verdicts.len()
        invariant
            i <= verdicts@.len(),
            verdicts@.len() == rules@.len(),
            topic_review_spec(verdicts@, rules@, trashed_id, 0) == topic_review_spec(
                verdicts@,
                rules@,
                trashed_id,
                i as int,
            ),
        decreases verdicts@.len() - i,
    {
        let step = topic_step(verdicts[i], &rules[i], trashed_id);
        match step {
            TopicStep::Next => {},
            _ => {
                return Some((i, step));
            },
        }
        i = i + 1;
    }
    None
}

/// The steps of a reply's review, given the verdicts that the moderators
/// would give in turn: one step for each moderator, up to and including the
/// first `Stop`; a removal does not end it.
pub open spec fn comment_review_spec(verdicts: Seq<Option<Verdict>>, rules: Seq<ModeratorCfg>, i: int) -> Seq<
    CommentStep,
>
    decreases verdicts.len() - i,
{
    if i < 0 || i >= verdicts.len() {
        Seq::empty()
    } else if comment_step_spec(verdicts[i], &rules[i]) == CommentStep::Stop {
        seq![CommentStep::Stop]
    } else {
        seq![comment_step_spec(verdicts[i], &rules[i])] + comment_review_spec(verdicts, rules, i + 1)
    }
}

/// Runs a reply's review over the moderators' verdicts, in order, and
/// returns the steps taken (see [`comment_review_spec`]).
pub fn review_comment(rules: &Vec<ModeratorCfg>, verdicts: &Vec<Option<Verdict>>) -> (r: Vec<
    CommentStep,
>)
    requires
        verdicts@.len() == rules@.len(),
        forall|i: int|
            0 <= i < rules@.len() ==> (#[trigger] rules@[i]).credit_damage > 0
                ==> rules@[i].coins_damage > i64::MIN,
    ensures
        r@ == comment_review_spec(verdicts@, rules@, 0),
{
    let mut steps: Vec<CommentStep> = Vec::new();
    let mut i: usize = 0;
    while i < verdicts.len()
        invariant
            i <= verdicts@.len(),
            verdicts@.len() == rules@.len(),
            forall|j: int|
                0 <= j < rules@.len() ==> (#[trigger] rules@[j]).credit_damage > 0
                    ==> rules@[j].coins_damage > i64::MIN,
            comment_review_spec(verdicts@, rules@, 0) == steps@ + comment_review_spec(
                verdicts@,
                rules@,
                i as int,
            ),
        decreases verdicts@.len() - i,
    {
        let step = comment_step(verdicts[i], &rules[i]);
        let ghost before = steps@;
        steps.push(step);
        proof {
            assert(steps@ =~= before + seq![step]);
        }
        match step {
            CommentStep::Stop => {
                proof {
                    assert(comment_review_spec(verdicts@, rules@, i as int) =~= seq![step]);
                    assert(steps@ =~= before + comment_review_spec(verdicts@, rules@, i as int));
                }
                return steps;
            },
            _ => {},
        }
        proof {
            assert(before + comment_review_spec(verdicts@, rules@, i as int) =~= steps@
                + comment_review_spec(verdicts@, rules@, i + 1));
        }
        i = i + 1;
    }
    proof {
        assert(steps@ + comment_review_spec(verdicts@, rules@, i as int) =~= steps@);
    }
    steps
}

/// A topic's review stops at the first moderator whose step is not `Next`:
/// every one before passed it on, and the one that ended it changed or
/// accepted the topic.  A reply's review has one step for each moderator
/// asked; all but the last go on, removals included, and it ends before the
/// last moderator only with `Stop`.
pub proof fn review_sequence_law(
    verdicts: Seq<Option<Verdict>>,
    rules: Seq<ModeratorCfg>,
    trashed_id: i64,
    i: int,
)
    requires
        0 <= i <= verdicts.len(),
        verdicts.len() == rules.len(),
    ensures
        topic_review_spec(verdicts, rules, trashed_id, i) matches Some((k, s)) ==> i <= k
            < verdicts.len() && s != TopicStep::Next && s == topic_step_spec(
            verdicts[k],
            &rules[k],
            trashed_id,
        ) && forall|j: int|
            i <= j < k ==> topic_step_spec(verdicts[j], &rules[j], trashed_id) == TopicStep::Next,
        topic_review_spec(verdicts, rules, trashed_id, i) is None ==> forall|j: int|
            i <= j < verdicts.len() ==> topic_step_spec(verdicts[j], &rules[j], trashed_id)
                == TopicStep::Next,
        comment_review_spec(verdicts, rules, i).len() <= verdicts.len() - i,
        forall|j: int|
            0 <= j < comment_review_spec(verdicts, rules, i).len() ==> #[trigger] comment_review_spec(
                verdicts,
                rules,
                i,
            )[j] == comment_step_spec(verdicts[i + j], &rules[i + j]),
        forall|j: int|
            0 <= j < comment_review_spec(verdicts, rules, i).len() - 1 ==> #[trigger] comment_review_spec(
                verdicts,
                rules,
                i,
            )[j] != CommentStep::Stop,
        comment_review_spec(verdicts, rules, i).len() < verdicts.len() - i ==> comment_review_spec(
            verdicts,
            rules,
            i,
        ).last() == CommentStep::Stop,
    decreases verdicts.len() - i,
{
    if i < verdicts.len() {
        review_sequence_law(verdicts, rules, trashed_id, i + 1);
        let rest = comment_review_spec(verdicts, rules, i + 1);
        let here = comment_review_spec(verdicts, rules, i);
        if comment_step_spec(verdicts[i], &rules[i]) != CommentStep::Stop {
            assert forall|j: int| 0 <= j < here.len() implies #[trigger] here[j]
                == comment_step_spec(verdicts[i + j], &rules[i + j]) by {
                if j > 0 {
                    assert(here[j] == rest[j - 1]);
                }
            }
            assert forall|j: int| 0 <= j < here.len() - 1 implies #[trigger] here[j]
                != CommentStep::Stop by {
                if j > 0 {
                    assert(here[j] == rest[j - 1]);
                }
            }
            if here.len() < verdicts.len() - i {
                assert(here.last() == rest.last());
            }
        }
    }
}

/// The notice sent when a moderator removes a reply.
pub struct CommentDeleteBySystemTips {
    pub locale: String,
    pub content: String,
    pub reason: String,
}

} // verus!
