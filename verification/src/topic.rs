//! Rules for writing topics and replies: length limits, blocked words, the
//! plain-text form of a post and who may act on a topic.
use vstd::prelude::*;
use crate::markdown::{markdown_with_mentions, render_markdown_with_mentions};
use crate::node::Node;
use crate::system::PostConfig;
use crate::text::{
    contains, decimal, decimal_spec, same_text, seq_contains, trim, trim_spec,
};

verus! {

broadcast use {vstd::string::group_string_axioms, vstd::slice::group_slice_axioms};

/// `html2text::Error`, the failure of turning markup into plain text.
#[verifier::external_type_specification]
#[verifier::external_body]
pub struct ExHtml2TextError(html2text::Error);

/// What `html2text` renders from the markup `html` at a width of 80 columns
/// with its trivial decorator: the text, or `None` where it fails.
pub uninterp spec fn html_plain_text(html: Seq<u8>) -> Option<Seq<char>>;

/// The plain text of rendered markup, as indexed by search and checked for
/// blocked words: `html2text::config::with_decorator(TrivialDecorator::new())
/// .string_from_read(text, 80)`.  The contract ties the outcome to the name
/// `html_plain_text`; which text comes out is left to `html2text`.
#[verifier::external_body]
pub fn plain(text: &[u8]) -> (r: Result<String, html2text::Error>)
    ensures
        match r {
            Ok(s) => html_plain_text(text@) == Some(s@),
            Err(_) => html_plain_text(text@) is None,
        },
{
    html2text::config::with_decorator(html2text::render::TrivialDecorator::new()).string_from_read(
        text,
        80,
    )
}

/// The length limit that a signed setting stands for when it is compared with
/// a character count (`limit as usize`).
pub open spec fn as_limit(x: i64) -> int {
    (x as usize) as int
}

/// Which length limit a post broke.
#[derive(PartialEq, Eq, Structural, Debug, Clone, Copy)]
pub enum LengthRule {
    TitleMin,
    TitleMax,
    ContentMin,
    ContentMax,
    ReplyMin,
    ReplyMax,
}

/// Why a post was turned back to its author.
pub enum BakeTip {
    /// A length limit was broken; the limit is given.
    Length(LengthRule, i64),
    /// The title or the source holds a blocked word.
    SensitiveWord(String),
    /// The rendered text holds a blocked word.
    ContainsSensitiveWord(String),
}

/// A post ready to be stored.
pub struct BakeOutput {
    pub content_render: String,
    pub content_plain: String,
    pub at_users: Vec<String>,
}

/// The outcome of preparing a post.
pub enum Bake {
    Tips(BakeTip),
    Output(BakeOutput),
}

/// The first length limit that a topic (with a title) or a reply (without)
/// breaks, in the order: title minimum, title maximum, body minimum, body
/// maximum; for replies, minimum then maximum.
pub open spec fn length_violation(cfg: &PostConfig, title: Option<Seq<char>>, content: Seq<char>) -> Option<
    (LengthRule, i64),
> {
    match title {
        Some(t) => if t.len() < as_limit(cfg.min_title_length) {
            Some((LengthRule::TitleMin, cfg.min_title_length))
        } else if t.len() > as_limit(cfg.max_title_length) {
            Some((LengthRule::TitleMax, cfg.max_title_length))
        } else if content.len() < as_limit(cfg.min_content_length) {
            Some((LengthRule::ContentMin, cfg.min_content_length))
        } else if content.len() > as_limit(cfg.max_content_length) {
            Some((LengthRule::ContentMax, cfg.max_content_length))
        } else {
            None
        },
        None => if content.len() < as_limit(cfg.min_reply_length) {
            Some((LengthRule::ReplyMin, cfg.min_reply_length))
        } else if content.len() > as_limit(cfg.max_reply_length) {
            Some((LengthRule::ReplyMax, cfg.max_reply_length))
        } else {
            None
        },
    }
}

/// The blocked words as character sequences.
pub open spec fn words_view(words: Seq<String>) -> Seq<Seq<char>> {
    words.map_values(|w: String| w@)
}

/// The word `w` occurs in the title (if any) or in the body.
pub open spec fn hits_post(w: Seq<char>, title: Option<Seq<char>>, content: Seq<char>) -> bool {
    (title is Some && seq_contains(title->0, w)) || seq_contains(content, w)
}

/// The position of the first word at or after `i` that the post holds.
pub open spec fn first_post_hit(words: Seq<Seq<char>>, title: Option<Seq<char>>, content: Seq<char>, i: int) -> Option<int>
    decreases words.len() - i,
{
    if i < 0 || i >= words.len() {
        None
    } else if hits_post(words[i], title, content) {
        Some(i)
    } else {
        first_post_hit(words, title, content, i + 1)
    }
}

/// The position of the first word at or after `i` that occurs in `text`.
pub open spec fn first_text_hit(words: Seq<Seq<char>>, text: Seq<char>, i: int) -> Option<int>
    decreases words.len() - i,
{
    if i < 0 || i >= words.len() {
        None
    } else if seq_contains(text, words[i]) {
        Some(i)
    } else {
        first_text_hit(words, text, i + 1)
    }
}

/// `s` with each run of equal neighbours reduced to one (`Vec::dedup`).
pub open spec fn dedup_spec(s: Seq<Seq<char>>) -> Seq<Seq<char>>
    decreases s.len(),
{
    if s.len() <= 1 {
        s
    } else if s.last() == s[s.len() - 2] {
        dedup_spec(s.drop_last())
    } else {
        dedup_spec(s.drop_last()).push(s.last())
    }
}

/// The plain text kept for a post: what `html2text` gives for the rendered
/// markup, or the source itself where that fails.
pub open spec fn plain_or_source(rendered: Seq<u8>, content: Seq<char>) -> Seq<char> {
    match html_plain_text(rendered) {
        Some(p) => p,
        None => content,
    }
}

/// The strings of `v` as character sequences.
pub open spec fn strings_view(v: Seq<String>) -> Seq<Seq<char>> {
    v.map_values(|s: String| s@)
}

/// Index of the first blocked word that the post holds.
fn find_post_hit(words: &Vec<String>, title: Option<&str>, content: &str) -> (r: Option<usize>)
    ensures
        match r {
            Some(i) => i < words@.len() && first_post_hit(
                words_view(words@),
                match title {
                    Some(t) => Some(t@),
                    None => None,
                },
                content@,
                0,
            ) == Some(i as int),
            None => first_post_hit(
                words_view(words@),
                match title {
                    Some(t) => Some(t@),
                    None => None,
                },
                content@,
                0,
            ) is None,
        },
{
    let ghost tv: Option<Seq<char>> = match title {
        Some(t) => Some(t@),
        None => None,
    };
    let ghost ws = words_view(words@);
    let mut i: usize = 0;
    while i < words.len()
        invariant
            i <= words@.len(),
            ws == words_view(words@),
            ws.len() == words@.len(),
            tv == (match title {
                Some(t) => Some(t@),
                None => None,
            }),
            first_post_hit(ws, tv, content@, 0) == first_post_hit(ws, tv, content@, i as int),
        decreases words.len() - i,
    {
        let w = words[i].as_str();
        assert(ws[i as int] == w@);
        let in_title = match title {
            Some(t) => contains(t, w),
            None => false,
        };
        if in_title || contains(content, w) {
            return Some(i);
        }
        i = i + 1;
    }
    None
}

/// Index of the first blocked word that occurs in `text`.
fn find_text_hit(words: &Vec<String>, text: &str) -> (r: Option<usize>)
    ensures
        match r {
            Some(i) => i < words@.len() && first_text_hit(words_view(words@), text@, 0) == Some(
                i as int,
            ),
            None => first_text_hit(words_view(words@), text@, 0) is None,
        },
{
    let ghost ws = words_view(words@);
    let mut i: usize = 0;
    while i < words.len()
        invariant
            i <= words@.len(),
            ws == words_view(words@),
            ws.len() == words@.len(),
            first_text_hit(ws, text@, 0) == first_text_hit(ws, text@, i as int),
        decreases words.len() - i,
    {
        let w = words[i].as_str();
        assert(ws[i as int] == w@);
        if contains(text, w) {
            return Some(i);
        }
        i = i + 1;
    }
    None
}

proof fn lemma_dedup_step(s: Seq<Seq<char>>, i: int)
    requires
        1 <= i < s.len(),
    ensures
        dedup_spec(s.take(i + 1)) == if s[i] == s[i - 1] {
            dedup_spec(s.take(i))
        } else {
            dedup_spec(s.take(i)).push(s[i])
        },
{
    let t = s.take(i + 1);
    assert(t.drop_last() =~= s.take(i));
}

/// `Vec::dedup` on names: runs of equal neighbours become one.
pub fn dedup_names(v: Vec<String>) -> (r: Vec<String>)
    ensures
        strings_view(r@) == dedup_spec(strings_view(v@)),
{
    let ghost sv = strings_view(v@);
    let mut out: Vec<String> = Vec::new();
    let mut i: usize = 0;
    while i < v.len()
        invariant
            i <= v@.len(),
            sv == strings_view(v@),
            sv.len() == v@.len(),
            strings_view(out@) == dedup_spec(sv.take(i as int)),
        decreases v.len() - i,
    {
        let keep = i == 0 || !same_text(v[i].as_str(), v[i - 1].as_str());
        proof {
            if i == 0 {
                assert(sv.take(1) =~= seq![sv[0]]);
                assert(sv.take(0) =~= Seq::<Seq<char>>::empty());
            } else {
                lemma_dedup_step(sv, i as int);
            }
        }
        if keep {
            out.push(v[i].clone());
            proof {
                assert(strings_view(out@) =~= dedup_spec(sv.take(i as int)).push(sv[i as int]));
                if i == 0 {
                    assert(dedup_spec(sv.take(0)) =~= Seq::<Seq<char>>::empty());
                }
            }
        }
        i = i + 1;
    }
    proof {
        assert(sv.take(v@.len() as int) =~= sv);
    }
    out
}

/// The title as a character sequence, if any.
pub open spec fn title_view(title: Option<&str>) -> Option<Seq<char>> {
    match title {
        Some(t) => Some(t@),
        None => None,
    }
}

/// What preparing a post gives, where `render` and `users` are the markup and
/// the mentioned names made of the source `content`: in order, the first
/// broken length limit; the first blocked word in the title or the source;
/// the first blocked word in the plain text of the markup (the source where
/// that cannot be had); else the post, its names without repeated
/// neighbours.
pub open spec fn bake_outcome(
    cfg: &PostConfig,
    tv: Option<Seq<char>>,
    content: Seq<char>,
    render: Seq<char>,
    users: Seq<Seq<char>>,
    r: Bake,
) -> bool {
    let ws = words_view(cfg.sensitive_words@);
    let pl = plain_or_source(vstd::utf8::encode_utf8(render), content);
    match length_violation(cfg, tv, content) {
        Some((rule, limit)) => r matches Bake::Tips(BakeTip::Length(g, l)) && g == rule && l
            == limit,
        None => match first_post_hit(ws, tv, content, 0) {
            Some(i) => r matches Bake::Tips(BakeTip::SensitiveWord(w)) && w@ == ws[i],
            None => match first_text_hit(ws, pl, 0) {
                Some(i) => r matches Bake::Tips(BakeTip::ContainsSensitiveWord(w)) && w@ == ws[i],
                None => r matches Bake::Output(o) && o.content_render@ == render
                    && o.content_plain@ == pl && strings_view(o.at_users@) == dedup_spec(users),
            },
        },
    }
}

/// Checks a topic (with its title) or a reply (without) against the posting
/// rules, and prepares what is stored: the markdown `content` is rendered
/// with its mentions linked, and the mentioned names are collected (see
/// [`bake_outcome`] for the order of the checks).
pub fn bake(cfg: &PostConfig, title: Option<&str>, content: &str) -> (r: Bake)
    ensures
        bake_outcome(
            cfg,
            title_view(title),
            content@,
            markdown_with_mentions(content@).0,
            markdown_with_mentions(content@).1,
            r,
        ),
{
    let (content_render, at_users) = render_markdown_with_mentions(content);
    bake_rendered(cfg, title, content, content_render, at_users)
}

/// [`bake`] once the markdown is rendered: `content_render` and `at_users`
/// are the markup and the mentioned names made of `content`.
pub fn bake_rendered(
    cfg: &PostConfig,
    title: Option<&str>,
    content: &str,
    content_render: String,
    at_users: Vec<String>,
) -> (r: Bake)
    ensures
        bake_outcome(cfg, title_view(title), content@, content_render@, strings_view(at_users@), r),
{
    let n = content.unicode_len();
    match title {
        Some(t) => {
            let tn = t.unicode_len();
            #[verifier::truncate]
            let min_t = cfg.min_title_length as usize;
            #[verifier::truncate]
            let max_t = cfg.max_title_length as usize;
            #[verifier::truncate]
            let min_c = cfg.min_content_length as usize;
            #[verifier::truncate]
            let max_c = cfg.max_content_length as usize;
            if tn < min_t {
                return Bake::Tips(BakeTip::Length(LengthRule::TitleMin, cfg.min_title_length));
            }
            if tn > max_t {
                return Bake::Tips(BakeTip::Length(LengthRule::TitleMax, cfg.max_title_length));
            }
            if n < min_c {
                return Bake::Tips(BakeTip::Length(LengthRule::ContentMin, cfg.min_content_length));
            }
            if n > max_c {
                return Bake::Tips(BakeTip::Length(LengthRule::ContentMax, cfg.max_content_length));
            }
        },
        None => {
            #[verifier::truncate]
            let min_r = cfg.min_reply_length as usize;
            #[verifier::truncate]
            let max_r = cfg.max_reply_length as usize;
            if n < min_r {
                return Bake::Tips(BakeTip::Length(LengthRule::ReplyMin, cfg.min_reply_length));
            }
            if n > max_r {
                return Bake::Tips(BakeTip::Length(LengthRule::ReplyMax, cfg.max_reply_length));
            }
        },
    }
    if let Some(i) = find_post_hit(&cfg.sensitive_words, title, content) {
        return Bake::Tips(BakeTip::SensitiveWord(cfg.sensitive_words[i].clone()));
    }
    let content_plain = match plain(content_render.as_str().as_bytes()) {
        Ok(p) => p,
        Err(_) => String::from_str(content),
    };
    if let Some(i) = find_text_hit(&cfg.sensitive_words, content_plain.as_str()) {
        return Bake::Tips(BakeTip::ContainsSensitiveWord(cfg.sensitive_words[i].clone()));
    }
    let at_users = dedup_names(at_users);
    Bake::Output(BakeOutput { content_render, content_plain, at_users })
}

// ---------------------------------------------------------------------------
// Topics as shown, and who may do what with them
// ---------------------------------------------------------------------------
/// A topic with its author and board, as shown on its page.
pub struct TopicDisplay {
    pub id: i64,
    pub title: String,
    pub content: String,
    pub content_render: String,
    pub content_plain: String,
    pub view_count: i64,
    pub reply_count: i64,
    /// Seconds since the Unix epoch.
    pub created_at: i64,
    /// Seconds since the Unix epoch.
    pub updated_at: i64,
    pub user_id: i64,
    pub username: String,
    pub last_reply_by: Option<String>,
    pub node_id: i64,
    pub node_name: String,
    pub node_slug: String,
    pub is_locked: bool,
    pub is_pinned: bool,
    pub avatar_timestamp: i64,
    /// The actions that the viewer may take (`edit`, `delete`, `lock`, ...).
    pub ops: Vec<String>,
}

/// A reply, as shown under its topic.
pub struct CommentDisplay {
    pub id: i64,
    pub article_id: i64,
    pub user_id: i64,
    pub content: String,
    pub content_render: String,
    pub content_plain: String,
    /// Seconds since the Unix epoch.
    pub created_at: i64,
    pub username: String,
    pub floor: i64,
    pub avatar_timestamp: i64,
    pub ops: Vec<String>,
}

/// Whether `op` is one of `ops`.
pub fn has_op(ops: &Vec<String>, op: &str) -> (b: bool)
    ensures
        b == strings_view(ops@).contains(op@),
{
    let ghost sv = strings_view(ops@);
    let mut i: usize = 0;
    while i < ops.len()
        invariant
            i <= ops@.len(),
            sv == strings_view(ops@),
            sv.len() == ops@.len(),
            forall|k: int| 0 <= k < i ==> sv[k] != op@,
        decreases ops.len() - i,
    {
        if same_text(ops[i].as_str(), op) {
            assert(sv[i as int] == op@);
            return true;
        }
        i = i + 1;
    }
    proof {
        if sv.contains(op@) {
            let k = choose|k: int| 0 <= k < sv.len() && sv[k] == op@;
            assert(sv[k] != op@);
        }
    }
    false
}

impl TopicDisplay {
    /// The rendered markup of the topic.
    pub fn render(&self) -> (r: String)
        ensures
            r@ == self.content_render@,
    {
        self.content_render.clone()
    }

    /// Whether the viewer may take the action `op`.
    pub fn op(&self, op: &str) -> (b: bool)
        ensures
            b == strings_view(self.ops@).contains(op@),
    {
        has_op(&self.ops, op)
    }
}

impl CommentDisplay {
    /// The rendered markup of the reply.
    pub fn render(&self) -> (r: String)
        ensures
            r@ == self.content_render@,
    {
        self.content_render.clone()
    }

    /// Whether the viewer may take the action `op`.
    pub fn op(&self, op: &str) -> (b: bool)
        ensures
            b == strings_view(self.ops@).contains(op@),
    {
        has_op(&self.ops, op)
    }
}

/// Filters of a topic listing.
pub struct TopicSearch {
    /// `latest` sorts by posting time; anything else by activity.
    pub sort: Option<String>,
    pub q: Option<String>,
    pub user_id: Option<i64>,
    pub username: Option<String>,
    pub node_id: Option<i64>,
    pub node_slug: Option<String>,
    /// The viewer, whose blocked users are left out.
    pub viewer_id: Option<i64>,
    /// Only boards shown in the list.
    pub recent_flag: bool,
}

impl Default for TopicSearch {
    /// No filter at all.
    fn default() -> (r: Self)
        ensures
            r.sort is None && r.q is None && r.user_id is None && r.username is None
                && r.node_id is None && r.node_slug is None && r.viewer_id is None
                && !r.recent_flag,
    {
        TopicSearch {
            sort: None,
            q: None,
            user_id: None,
            username: None,
            node_id: None,
            node_slug: None,
            viewer_id: None,
            recent_flag: false,
        }
    }
}

/// Filters of a reply listing.
pub struct CommentSearch {
    pub topic: Option<i64>,
    pub username: Option<String>,
    pub viewer_id: Option<i64>,
}

impl Default for CommentSearch {
    /// No filter at all.
    fn default() -> (r: Self)
        ensures
            r.topic is None && r.username is None && r.viewer_id is None,
    {
        CommentSearch { topic: None, username: None, viewer_id: None }
    }
}

/// Why a board refuses a reader or a writer.
#[derive(PartialEq, Eq, Structural, Debug, Clone, Copy)]
pub enum NodeRefusal {
    /// Only the author may see or answer topics of an isolated board.
    Isolated,
    /// Only moderators may read or post here.
    ModeratorOnly,
    /// Only signed-in members may read here.
    MemberOnly,
    /// The board takes no new posts.
    ReadOnly,
}

/// Whether a signed-in user may open a new topic on `node`: moderators only
/// where the board asks for them, and never on a read-only board.
pub fn check_topic_creation(node: &Node, is_moderator: bool) -> (r: Result<(), NodeRefusal>)
    ensures
        r == (if node.moderator_access_required && !is_moderator {
            Err(NodeRefusal::ModeratorOnly)
        } else if node.access_only {
            Err(NodeRefusal::ReadOnly)
        } else {
            Ok(())
        }),
{
    if node.moderator_access_required && !is_moderator {
        return Err(NodeRefusal::ModeratorOnly);
    }
    if node.access_only {
        return Err(NodeRefusal::ReadOnly);
    }
    Ok(())
}

/// Whether a user may reply to a topic on `node`: on an isolated board only
/// its author, and never on a read-only board.
pub fn check_reply_node(node: &Node, is_author: bool) -> (r: Result<(), NodeRefusal>)
    ensures
        r == (if node.isolated && !is_author {
            Err(NodeRefusal::Isolated)
        } else if node.access_only {
            Err(NodeRefusal::ReadOnly)
        } else {
            Ok(())
        }),
{
    if node.isolated && !is_author {
        return Err(NodeRefusal::Isolated);
    }
    if node.access_only {
        return Err(NodeRefusal::ReadOnly);
    }
    Ok(())
}

/// See [`check_read`].
pub open spec fn check_read_spec(node: &Node, is_author: bool, is_moderator: bool, signed_in: bool) -> Result<(), NodeRefusal> {
    if node.isolated && !is_author {
        Err(NodeRefusal::Isolated)
    } else if node.moderator_access_required && !is_moderator {
        Err(NodeRefusal::ModeratorOnly)
    } else if node.member_access_required && !signed_in {
        Err(NodeRefusal::MemberOnly)
    } else {
        Ok(())
    }
}

/// Who reads a topic, for every board and viewer: a viewer is let in
/// exactly when each restriction the board sets is met (the author on an
/// isolated board, a moderator where moderators are asked for, a signed-in
/// member where members are); a refusal names a restriction that the board
/// sets and the viewer does not meet; and a viewer who is the author, a
/// moderator and signed in is never refused.
pub proof fn read_access_law(node: &Node, is_author: bool, is_moderator: bool, signed_in: bool)
    ensures
        ({
            let r = check_read_spec(node, is_author, is_moderator, signed_in);
            &&& (r is Ok) <==> ((!node.isolated || is_author) && (!node.moderator_access_required
                || is_moderator) && (!node.member_access_required || signed_in))
            &&& r == Err::<(), NodeRefusal>(NodeRefusal::Isolated) ==> node.isolated && !is_author
            &&& r == Err::<(), NodeRefusal>(NodeRefusal::ModeratorOnly) ==> node.moderator_access_required
                && !is_moderator
            &&& r == Err::<(), NodeRefusal>(NodeRefusal::MemberOnly) ==> node.member_access_required
                && !signed_in
            &&& r is Err ==> (r == Err::<(), NodeRefusal>(NodeRefusal::Isolated) || r == Err::<
                (),
                NodeRefusal,
            >(NodeRefusal::ModeratorOnly) || r == Err::<(), NodeRefusal>(NodeRefusal::MemberOnly))
            &&& check_read_spec(node, true, true, true) is Ok
        }),
{
}

/// Whether a viewer may read a topic on `node`: on an isolated board only its
/// author; moderators only where the board asks for them; members only where
/// it asks for them.
pub fn check_read(node: &Node, is_author: bool, is_moderator: bool, signed_in: bool) -> (r: Result<
    (),
    NodeRefusal,
>)
    ensures
        r == check_read_spec(node, is_author, is_moderator, signed_in),
{
    if node.isolated && !is_author {
        return Err(NodeRefusal::Isolated);
    }
    if node.moderator_access_required && !is_moderator {
        return Err(NodeRefusal::ModeratorOnly);
    }
    if node.member_access_required && !signed_in {
        return Err(NodeRefusal::MemberOnly);
    }
    Ok(())
}

/// Why an author may not post now.
#[derive(PartialEq, Eq, Structural, Debug, Clone, Copy)]
pub enum StandingRefusal {
    /// The account is younger than the board allows; the minimum age in
    /// seconds is given.
    TooRecent(i64),
    /// The credit score is not above zero.
    AccountAbnormal,
    /// The post costs more coins than the author has.
    CoinsInsufficient,
}

/// Whether an account of `age_secs` seconds is old enough to open topics
/// (`None` when the account could not be found, which lets it pass).
pub fn check_account_age(min_reg_age_secs: i64, age_secs: Option<i64>) -> (r: Result<(), StandingRefusal>)
    ensures
        r == (if min_reg_age_secs > 0 && age_secs is Some && age_secs->0 < min_reg_age_secs {
            Err(StandingRefusal::TooRecent(min_reg_age_secs))
        } else {
            Ok(())
        }),
{
    if min_reg_age_secs > 0 {
        if let Some(age) = age_secs {
            if age < min_reg_age_secs {
                return Err(StandingRefusal::TooRecent(min_reg_age_secs));
            }
        }
    }
    Ok(())
}

/// Whether an author in good standing can pay for a post: the credit score
/// must be above zero, and where the board charges (`reward < 0`) the coins
/// must cover the charge.
pub fn check_standing(credit_score: i64, coins: i64, reward: i64) -> (r: Result<(), StandingRefusal>)
    requires
        reward < 0 ==> coins + reward >= i64::MIN,
    ensures
        r == (if credit_score <= 0 {
            Err(StandingRefusal::AccountAbnormal)
        } else if reward < 0 && coins + reward < 0 {
            Err(StandingRefusal::CoinsInsufficient)
        } else {
            Ok(())
        }),
{
    if credit_score <= 0 {
        return Err(StandingRefusal::AccountAbnormal);
    }
    if reward < 0 && coins + reward < 0 {
        return Err(StandingRefusal::CoinsInsufficient);
    }
    Ok(())
}

/// How long after posting an author may still edit a topic, in seconds.
pub const EDIT_WINDOW_SECS: i64 = 3600;

/// From this many replies on, a topic can no longer be edited.
pub const EDIT_MAX_REPLIES: u32 = 10;

/// See [`can_edit`].
pub open spec fn can_edit_spec(author_id: i64, uid: i64, is_locked: bool, elapsed_secs: i64, reply_total: Option<u32>) -> bool {
    author_id == uid && !is_locked && elapsed_secs < EDIT_WINDOW_SECS && reply_total is Some
        && reply_total->0 < EDIT_MAX_REPLIES
}

/// The edit window, for every topic and viewer: nobody but the author
/// edits, and nobody edits a locked topic or one whose replies could not be
/// counted; the author may edit a fresh topic (under an hour, fewer than ten
/// replies); once the hour has passed or the tenth reply has come, editing
/// is over; and what may be edited later, or with more replies, may be
/// edited earlier, or with fewer.
pub proof fn edit_window_law(author_id: i64, uid: i64, is_locked: bool, t: i64, t2: i64, n: u32, n2: u32)
    ensures
        author_id != uid ==> !can_edit_spec(author_id, uid, is_locked, t, Some(n)),
        is_locked ==> !can_edit_spec(author_id, uid, is_locked, t, Some(n)),
        !can_edit_spec(author_id, uid, is_locked, t, None),
        (0 <= t < 3600 && n < 10) ==> can_edit_spec(uid, uid, false, t, Some(n)),
        (t >= 3600 || n >= 10) ==> !can_edit_spec(author_id, uid, is_locked, t, Some(n)),
        (can_edit_spec(author_id, uid, is_locked, t, Some(n)) && t2 <= t && n2 <= n)
            ==> can_edit_spec(author_id, uid, is_locked, t2, Some(n2)),
{
}

/// Whether `uid` may edit a topic: it must be theirs, not locked, less than an
/// hour old (`elapsed_secs` since it was posted), and have fewer than ten
/// replies (`reply_total`, `None` where they could not be counted).
pub fn can_edit(author_id: i64, uid: i64, is_locked: bool, elapsed_secs: i64, reply_total: Option<
    u32,
>) -> (b: bool)
    ensures
        b == can_edit_spec(author_id, uid, is_locked, elapsed_secs, reply_total),
{
    if author_id != uid || is_locked {
        return false;
    }
    if elapsed_secs >= EDIT_WINDOW_SECS {
        return false;
    }
    match reply_total {
        Some(n) => n < EDIT_MAX_REPLIES,
        None => false,
    }
}

/// The actions offered on a topic page: to its author `edit` (while it may be
/// edited), `delete`, and `lock` (unless it is locked and they are no
/// moderator); to another moderator `super-delete` and `lock`; to every
/// moderator `pin`.
pub open spec fn topic_ops_spec(is_author: bool, editable: bool, is_locked: bool, is_moderator: bool) -> Seq<Seq<char>> {
    let own: Seq<Seq<char>> = if is_author {
        (if editable {
            seq!["edit"@]
        } else {
            Seq::empty()
        }) + seq!["delete"@] + (if !is_locked || is_moderator {
            seq!["lock"@]
        } else {
            Seq::empty()
        })
    } else if is_moderator {
        seq!["super-delete"@, "lock"@]
    } else {
        Seq::empty()
    };
    own + if is_moderator {
        seq!["pin"@]
    } else {
        Seq::empty()
    }
}

/// The actions offered on a topic page (see `topic_ops_spec`).
pub fn topic_ops(is_author: bool, editable: bool, is_locked: bool, is_moderator: bool) -> (r: Vec<String>)
    ensures
        strings_view(r@) == topic_ops_spec(is_author, editable, is_locked, is_moderator),
{
    let mut ops: Vec<String> = Vec::new();
    if is_author {
        if editable {
            ops.push(String::from_str("edit"));
        }
        ops.push(String::from_str("delete"));
        if !is_locked || is_moderator {
            ops.push(String::from_str("lock"));
        }
    } else if is_moderator {
        ops.push(String::from_str("super-delete"));
        ops.push(String::from_str("lock"));
    }
    if is_moderator {
        ops.push(String::from_str("pin"));
    }
    proof {
        assert(strings_view(ops@) =~= topic_ops_spec(is_author, editable, is_locked, is_moderator));
    }
    ops
}

/// What the topic page offers, for every viewer: editing to the author
/// within the edit window; deleting to the author, and deleting any topic
/// (`super-delete`) to a moderator who is not its author; locking to the
/// author while the topic is unlocked, whatever the edit window says, and
/// always to a moderator; pinning to moderators.  Nothing else is offered,
/// and nothing twice.
pub proof fn topic_ops_law(is_author: bool, editable: bool, is_locked: bool, is_moderator: bool)
    ensures
        ({
            let ops = topic_ops_spec(is_author, editable, is_locked, is_moderator);
            &&& ops.contains("edit"@) <==> (is_author && editable)
            &&& ops.contains("delete"@) <==> is_author
            &&& ops.contains("super-delete"@) <==> (!is_author && is_moderator)
            &&& ops.contains("lock"@) <==> ((is_author && !is_locked) || is_moderator)
            &&& ops.contains("pin"@) <==> is_moderator
            &&& forall|i: int|
                0 <= i < ops.len() ==> (#[trigger] ops[i] == "edit"@ || ops[i] == "delete"@ || ops[i]
                    == "super-delete"@ || ops[i] == "lock"@ || ops[i] == "pin"@)
            &&& forall|i: int, j: int| 0 <= i < j < ops.len() ==> #[trigger] ops[i] != #[trigger] ops[j]
        }),
{
    reveal_strlit("edit");
    reveal_strlit("delete");
    reveal_strlit("super-delete");
    reveal_strlit("lock");
    reveal_strlit("pin");
    let ops = topic_ops_spec(is_author, editable, is_locked, is_moderator);
    let e: Seq<char> = "edit"@;
    let d: Seq<char> = "delete"@;
    let sd: Seq<char> = "super-delete"@;
    let l: Seq<char> = "lock"@;
    let p: Seq<char> = "pin"@;
    assert(e != d && e != sd && e != l && e != p && d != sd && d != l && d != p && sd != l && sd
        != p && l != p) by {
        assert(e.len() != d.len() && e.len() != sd.len() && d.len() != sd.len() && l.len() != d.len()
            && l.len() != sd.len() && p.len() != e.len() && p.len() != d.len() && p.len()
            != sd.len());
        assert(e[0] != l[0]);
        assert(e[0] != p[0] || e.len() != p.len());
        assert(l.len() != p.len());
    }
    let want: Seq<Seq<char>> = if is_author {
        (if editable { seq![e] } else { Seq::empty() }) + seq![d] + (if !is_locked || is_moderator {
            seq![l]
        } else {
            Seq::empty()
        }) + (if is_moderator { seq![p] } else { Seq::empty() })
    } else if is_moderator {
        seq![sd, l, p]
    } else {
        Seq::empty()
    };
    assert(ops =~= want);
    if is_author {
        if editable {
            if !is_locked || is_moderator {
                if is_moderator {
                    assert(ops =~= seq![e, d, l, p]);
                    assert(ops[0] == e && ops[1] == d && ops[2] == l && ops[3] == p);
                } else {
                    assert(ops =~= seq![e, d, l]);
                    assert(ops[0] == e && ops[1] == d && ops[2] == l);
                }
            } else {
                assert(ops =~= seq![e, d]);
                assert(ops[0] == e && ops[1] == d);
            }
        } else {
            if !is_locked || is_moderator {
                if is_moderator {
                    assert(ops =~= seq![d, l, p]);
                    assert(ops[0] == d && ops[1] == l && ops[2] == p);
                } else {
                    assert(ops =~= seq![d, l]);
                    assert(ops[0] == d && ops[1] == l);
                }
            } else {
                assert(ops =~= seq![d]);
                assert(ops[0] == d);
            }
        }
    } else if is_moderator {
        assert(ops[0] == sd && ops[1] == l && ops[2] == p);
    }
}

/// The actions offered on a reply: `delete` to its author, `super-delete` to
/// a moderator, nothing to anyone else.
pub fn comment_ops(is_author: bool, is_moderator: bool) -> (r: Vec<String>)
    ensures
        strings_view(r@) == (if is_author {
            seq!["delete"@]
        } else if is_moderator {
            seq!["super-delete"@]
        } else {
            Seq::<Seq<char>>::empty()
        }),
{
    let mut ops: Vec<String> = Vec::new();
    if is_author {
        ops.push(String::from_str("delete"));
    } else if is_moderator {
        ops.push(String::from_str("super-delete"));
    }
    proof {
        assert(strings_view(ops@) =~= (if is_author {
            seq!["delete"@]
        } else if is_moderator {
            seq!["super-delete"@]
        } else {
            Seq::<Seq<char>>::empty()
        }));
    }
    ops
}

/// Why a lock request is refused.
#[derive(PartialEq, Eq, Structural, Debug, Clone, Copy)]
pub enum LockRefusal {
    /// Neither the author nor a moderator.
    NoPermission,
    /// Only a moderator may unlock a topic.
    AlreadyLocked,
}

/// Whether the lock page may be shown: a locked topic only to moderators, and
/// any topic only to its author or a moderator.
pub fn check_lock_page(is_locked: bool, is_author: bool, is_moderator: bool) -> (r: Result<(), LockRefusal>)
    ensures
        r == (if is_locked && !is_moderator {
            Err(LockRefusal::AlreadyLocked)
        } else if !is_author && !is_moderator {
            Err(LockRefusal::NoPermission)
        } else {
            Ok(())
        }),
{
    if is_locked && !is_moderator {
        return Err(LockRefusal::AlreadyLocked);
    }
    if !is_author && !is_moderator {
        return Err(LockRefusal::NoPermission);
    }
    Ok(())
}

/// The lock state after a lock request, or why it is refused.
pub open spec fn lock_toggle_spec(is_locked: bool, is_author: bool, is_moderator: bool) -> Result<bool, LockRefusal> {
    if !is_author && !is_moderator {
        Err(LockRefusal::NoPermission)
    } else if !is_moderator && is_locked {
        Err(LockRefusal::AlreadyLocked)
    } else {
        Ok(!is_locked)
    }
}

/// A lock request flips the lock; the author may lock their topic, but once
/// locked only a moderator may unlock it.
pub fn lock_toggle(is_locked: bool, is_author: bool, is_moderator: bool) -> (r: Result<bool, LockRefusal>)
    ensures
        r == lock_toggle_spec(is_locked, is_author, is_moderator),
{
    if !is_author && !is_moderator {
        return Err(LockRefusal::NoPermission);
    }
    if !is_moderator && is_locked {
        return Err(LockRefusal::AlreadyLocked);
    }
    Ok(!is_locked)
}

/// Whoever is not a moderator can lock, never unlock: every lock request of a
/// non-moderator that succeeds leaves the topic locked, and once it is locked
/// a second request of theirs is refused.  A moderator toggles the lock; the
/// author locks an unlocked topic; anyone else is refused.
pub proof fn locking_is_one_way(is_locked: bool, is_author: bool)
    ensures
        lock_toggle_spec(is_locked, is_author, false) matches Ok(v) ==> v,
        lock_toggle_spec(is_locked, is_author, false) matches Ok(v) ==> lock_toggle_spec(
            v,
            is_author,
            false,
        ) is Err,
        lock_toggle_spec(is_locked, is_author, true) == Ok::<bool, LockRefusal>(!is_locked),
        lock_toggle_spec(false, true, false) == Ok::<bool, LockRefusal>(true),
        lock_toggle_spec(is_locked, false, false) == Err::<bool, LockRefusal>(
            LockRefusal::NoPermission,
        ),
{
}

/// The reason given when a moderator removes a post: `None` where the form
/// left it blank (the board's default reason is used), else the text as typed.
pub fn removal_reason(reason: &str) -> (r: Option<&str>)
    ensures
        r == (if trim_spec(reason@).len() == 0 {
            None
        } else {
            Some(reason)
        }),
{
    if trim(reason).is_empty() {
        None
    } else {
        Some(reason)
    }
}

/// Whether a viewer may list the topics of `node` (or read its feed):
/// moderators only where the board asks for them, members only where it
/// asks for them.
pub fn check_node_listing(node: &Node, is_moderator: bool, signed_in: bool) -> (r: Result<(), NodeRefusal>)
    ensures
        r == (if node.moderator_access_required && !is_moderator {
            Err(NodeRefusal::ModeratorOnly)
        } else if node.member_access_required && !signed_in {
            Err(NodeRefusal::MemberOnly)
        } else {
            Ok(())
        }),
{
    if node.moderator_access_required && !is_moderator {
        return Err(NodeRefusal::ModeratorOnly);
    }
    if node.member_access_required && !signed_in {
        return Err(NodeRefusal::MemberOnly);
    }
    Ok(())
}

/// Whether the bot interface may post a topic on `node`: not on a read-only
/// board.
pub fn check_bot_topic(node: &Node) -> (r: Result<(), NodeRefusal>)
    ensures
        r == (if node.access_only {
            Err(NodeRefusal::ReadOnly)
        } else {
            Ok(())
        }),
{
    if node.access_only {
        Err(NodeRefusal::ReadOnly)
    } else {
        Ok(())
    }
}

/// The address of topic `id`.
pub fn topic_url(id: i64) -> (r: String)
    ensures
        r@ == "/t/"@ + decimal_spec(id as int),
{
    let mut s = String::from_str("/t/");
    s.append(decimal(id).as_str());
    s
}

/// The address of page `page` of topic `id`, where a new reply lands.
pub fn topic_page_url(id: i64, page: u32) -> (r: String)
    ensures
        r@ == "/t/"@ + decimal_spec(id as int) + "?p="@ + decimal_spec(page as int),
{
    let mut s = topic_url(id);
    s.append("?p=");
    s.append(decimal(page as i64).as_str());
    s
}

/// The address of a user's page.
pub fn user_url(username: &str) -> (r: String)
    ensures
        r@ == "/u/"@ + username@,
{
    let mut s = String::from_str("/u/");
    s.append(username);
    s
}

/// A new topic as the form submits it.
pub struct CreatePostForm {
    pub title: String,
    pub content: String,
    pub token: String,
    pub turnstile_response: Option<String>,
}

/// An edited topic.
pub struct EditPostForm {
    pub title: String,
    pub content: String,
    pub token: String,
}

/// A confirmation carrying only its form token.
pub struct DeletePostForm {
    pub token: String,
}

/// A move of a topic to another board.
pub struct MovePostForm {
    pub node_slug: String,
    pub token: String,
}

/// A removal by a moderator, with its reason.
pub struct AdminDeleteForm {
    pub token: String,
    pub reason: String,
}

/// A reply as the form submits it.
pub struct CommentForm {
    pub id: i64,
    pub content: String,
    pub token: String,
    pub turnstile_response: Option<String>,
}

/// The query of the search page.
pub struct SearchParams {
    pub q: Option<String>,
    pub username: Option<String>,
    pub node: Option<String>,
    pub p: Option<u32>,
}

impl SearchParams {
    /// The words to look up; `None` where no query was given, and the page
    /// then lists nothing.
    pub fn keywords(&self) -> (r: Option<String>)
        ensures
            match self.q {
                Some(q) => r matches Some(k) && k@ == q@,
                None => r is None,
            },
    {
        match &self.q {
            Some(q) => Some(q.clone()),
            None => None,
        }
    }

    /// The query as the page shows it again: empty where none was given.
    pub fn shown_query(&self) -> (r: String)
        ensures
            r@ == match self.q {
                Some(q) => q@,
                None => Seq::<char>::empty(),
            },
    {
        match &self.q {
            Some(q) => q.clone(),
            None => String::new(),
        }
    }
}

proof fn lemma_no_post_hit(words: Seq<Seq<char>>, title: Option<Seq<char>>, content: Seq<char>, i: int)
    requires
        0 <= i <= words.len(),
        first_post_hit(words, title, content, i) is None,
    ensures
        forall|k: int| i <= k < words.len() ==> !hits_post(#[trigger] words[k], title, content),
    decreases words.len() - i,
{
    if i < words.len() {
        lemma_no_post_hit(words, title, content, i + 1);
    }
}

proof fn lemma_no_text_hit(words: Seq<Seq<char>>, text: Seq<char>, i: int)
    requires
        0 <= i <= words.len(),
        first_text_hit(words, text, i) is None,
    ensures
        forall|k: int| i <= k < words.len() ==> !seq_contains(text, #[trigger] words[k]),
    decreases words.len() - i,
{
    if i < words.len() {
        lemma_no_text_hit(words, text, i + 1);
    }
}

/// A post that is accepted holds none of the blocked words: not in its title,
/// not in its source, and not in its plain text; and it keeps within the
/// length limits.
pub proof fn accepted_posts_are_clean(
    cfg: &PostConfig,
    title: Option<Seq<char>>,
    content: Seq<char>,
    rendered: Seq<char>,
)
    requires
        length_violation(cfg, title, content) is None,
        first_post_hit(words_view(cfg.sensitive_words@), title, content, 0) is None,
        first_text_hit(
            words_view(cfg.sensitive_words@),
            plain_or_source(vstd::utf8::encode_utf8(rendered), content),
            0,
        ) is None,
    ensures
        forall|k: int|
            0 <= k < cfg.sensitive_words@.len() ==> {
                let w = #[trigger] cfg.sensitive_words@[k]@;
                &&& !seq_contains(content, w)
                &&& !(title is Some && seq_contains(title->0, w))
                &&& !seq_contains(plain_or_source(vstd::utf8::encode_utf8(rendered), content), w)
            },
        title is None ==> as_limit(cfg.min_reply_length) <= content.len() <= as_limit(
            cfg.max_reply_length,
        ),
        title is Some ==> as_limit(cfg.min_title_length) <= title->0.len() <= as_limit(
            cfg.max_title_length,
        ) && as_limit(cfg.min_content_length) <= content.len() <= as_limit(cfg.max_content_length),
{
    let ws = words_view(cfg.sensitive_words@);
    let pl = plain_or_source(vstd::utf8::encode_utf8(rendered), content);
    lemma_no_post_hit(ws, title, content, 0);
    lemma_no_text_hit(ws, pl, 0);
    assert forall|k: int| 0 <= k < cfg.sensitive_words@.len() implies {
        let w = #[trigger] cfg.sensitive_words@[k]@;
        &&& !seq_contains(content, w)
        &&& !(title is Some && seq_contains(title->0, w))
        &&& !seq_contains(pl, w)
    } by {
        assert(ws[k] == cfg.sensitive_words@[k]@);
        assert(!hits_post(ws[k], title, content));
        assert(!seq_contains(pl, ws[k]));
    }
}

proof fn lemma_dedup_last(s: Seq<Seq<char>>)
    requires
        s.len() > 0,
    ensures
        dedup_spec(s).len() > 0,
        dedup_spec(s).last() == s.last(),
    decreases s.len(),
{
    if s.len() > 1 {
        lemma_dedup_last(s.drop_last());
    }
}

/// Mentioned names keep no repeated neighbours once their runs are reduced.
pub proof fn dedup_leaves_no_repeats(s: Seq<Seq<char>>)
    ensures
        forall|i: int| 0 <= i < dedup_spec(s).len() - 1 ==> #[trigger] dedup_spec(s)[i] != dedup_spec(
            s,
        )[i + 1],
    decreases s.len(),
{
    if s.len() > 1 {
        let p = s.drop_last();
        dedup_leaves_no_repeats(p);
        lemma_dedup_last(p);
        if s.last() != s[s.len() - 2] {
            let d = dedup_spec(p);
            assert(p.last() == s[s.len() - 2]);
            assert forall|i: int| 0 <= i < d.push(s.last()).len() - 1 implies #[trigger] d.push(
                s.last(),
            )[i] != d.push(s.last())[i + 1] by {
                if i == d.len() - 1 {
                    assert(d.push(s.last())[i] == d.last());
                } else {
                    assert(d.push(s.last())[i] == d[i]);
                    assert(d.push(s.last())[i + 1] == d[i + 1]);
                }
            }
        }
    }
}

} // verus!
