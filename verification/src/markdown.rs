//! Markdown rendering with `@name` mentions: outside links, each mention in
//! a run of text becomes a link to the user's page, and the names are
//! collected so that the users can be told.
use vstd::prelude::*;
use pulldown_cmark::{CowStr, Event, LinkType, Tag, TagEnd};
use crate::mention::{
    mention_gaps_of, mention_names_of, pieces_spec, pieces_view, split_mentions, MentionPiece,
};
use crate::topic::strings_view;

verus! {

broadcast use vstd::string::group_string_axioms;

/// One event of the markdown parser, as far as mentions care: a run of text,
/// the start or the end of a link, or anything else.
pub enum MdEvent {
    Text(String),
    LinkStart,
    LinkEnd,
    Other,
}

/// The view of an [`MdEvent`].
pub enum MdEventView {
    Text(Seq<char>),
    LinkStart,
    LinkEnd,
    Other,
}

pub open spec fn md_event_view(e: MdEvent) -> MdEventView {
    match e {
        MdEvent::Text(t) => MdEventView::Text(t@),
        MdEvent::LinkStart => MdEventView::LinkStart,
        MdEvent::LinkEnd => MdEventView::LinkEnd,
        MdEvent::Other => MdEventView::Other,
    }
}

pub open spec fn md_events_view(v: Seq<MdEvent>) -> Seq<MdEventView> {
    v.map_values(|e: MdEvent| md_event_view(e))
}

/// The events that `pulldown_cmark::Parser::new` yields for the markdown
/// `md` with its default options, as [`MdEventView`]s.
pub uninterp spec fn markdown_events_of(md: Seq<char>) -> Seq<MdEventView>;

/// The events of `Parser::new(md)`, each told apart by its variant: text
/// with its content, link start, link end, or anything else.  The contract
/// names the sequence; which events come out is left to `pulldown_cmark`.
#[verifier::external_body]
fn markdown_events(md: &str) -> (r: Vec<MdEvent>)
    ensures
        md_events_view(r@) == markdown_events_of(md@),
{
    pulldown_cmark::Parser::new(md).map(|e| match e {
        Event::Text(t) => MdEvent::Text(t.to_string()),
        Event::Start(Tag::Link { .. }) => MdEvent::LinkStart,
        Event::End(TagEnd::Link) => MdEvent::LinkEnd,
        _ => MdEvent::Other,
    }).collect()
}

/// One event of the stream that is rendered: an event of the parse kept as
/// it is (by its position), a new run of text, the start of a new inline
/// link to the given target, or the end of a link.
pub enum Emit {
    Keep(usize),
    Text(String),
    LinkStart(String),
    LinkEnd,
}

/// The view of an [`Emit`].
pub enum EmitView {
    Keep(int),
    Text(Seq<char>),
    LinkStart(Seq<char>),
    LinkEnd,
}

pub open spec fn emit_view(e: Emit) -> EmitView {
    match e {
        Emit::Keep(i) => EmitView::Keep(i as int),
        Emit::Text(t) => EmitView::Text(t@),
        Emit::LinkStart(d) => EmitView::LinkStart(d@),
        Emit::LinkEnd => EmitView::LinkEnd,
    }
}

pub open spec fn emits_view(v: Seq<Emit>) -> Seq<EmitView> {
    v.map_values(|e: Emit| emit_view(e))
}

/// A kept event names a position below `n`.
pub open spec fn keep_below(e: EmitView, n: int) -> bool {
    match e {
        EmitView::Keep(i) => 0 <= i < n,
        _ => true,
    }
}

/// Every kept event of `plan` names a position below `n`.
pub open spec fn keeps_below(plan: Seq<EmitView>, n: int) -> bool {
    forall|j: int| 0 <= j < plan.len() ==> keep_below(#[trigger] plan[j], n)
}

/// The HTML that `pulldown_cmark::html::push_html` writes for the stream
/// `plan` over the parse of `md`: kept events are the parser's own, new
/// links are inline links with no title.
pub uninterp spec fn rendered_markdown(md: Seq<char>, plan: Seq<EmitView>) -> Seq<char>;

/// Writes the stream `plan` over the events of `Parser::new(md)` as HTML
/// (`pulldown_cmark::html::push_html`).  The parser gives the same events
/// for the same text, so each kept position is one of them.  The contract
/// names the HTML; its form is left to `pulldown_cmark`.
#[verifier::external_body]
fn render_events(md: &str, plan: &Vec<Emit>) -> (r: String)
    requires
        keeps_below(emits_view(plan@), markdown_events_of(md@).len() as int),
    ensures
        r@ == rendered_markdown(md@, emits_view(plan@)),
{
    let parsed: Vec<Event> = pulldown_cmark::Parser::new(md).collect();
    let events = plan.iter().map(|e| match e {
        Emit::Keep(i) => parsed[*i].clone(),
        Emit::Text(t) => Event::Text(CowStr::from(t.clone())),
        Emit::LinkStart(d) => Event::Start(Tag::Link {
            link_type: LinkType::Inline,
            dest_url: CowStr::from(d.clone()),
            title: CowStr::from(""),
            id: CowStr::from(""),
        }),
        Emit::LinkEnd => Event::End(TagEnd::Link),
    });
    let mut out = String::new();
    pulldown_cmark::html::push_html(&mut out, events);
    out
}

/// What one piece of a text becomes: text as it is, or a mention as a link
/// to `/u/name` that shows `@name`.
pub open spec fn piece_emits(p: (bool, Seq<char>)) -> Seq<EmitView> {
    if p.0 {
        seq![EmitView::LinkStart("/u/"@ + p.1), EmitView::Text("@"@ + p.1), EmitView::LinkEnd]
    } else {
        seq![EmitView::Text(p.1)]
    }
}

/// What the pieces become, in order.
pub open spec fn pieces_emits(ps: Seq<(bool, Seq<char>)>) -> Seq<EmitView>
    decreases ps.len(),
{
    if ps.len() == 0 {
        Seq::empty()
    } else {
        pieces_emits(ps.drop_last()) + piece_emits(ps.last())
    }
}

/// What the text event at position `i`, outside any link, becomes: kept as
/// it is where it mentions nobody, else its pieces.
pub open spec fn text_emits(t: Seq<char>, i: int) -> Seq<EmitView> {
    if mention_names_of(t).len() == 0 {
        seq![EmitView::Keep(i)]
    } else {
        pieces_emits(pieces_spec(t, mention_gaps_of(t), mention_names_of(t)))
    }
}

/// The stream rendered for the parsed events from position `i` on, with
/// `in_link` telling whether a link is open there, and the names mentioned:
/// every event is kept except a text outside links, which becomes its
/// pieces.
pub open spec fn mention_plan(evs: Seq<MdEventView>, i: int, in_link: bool) -> (
    Seq<EmitView>,
    Seq<Seq<char>>,
)
    decreases evs.len() - i,
{
    if i < 0 || i >= evs.len() {
        (Seq::empty(), Seq::empty())
    } else {
        match evs[i] {
            MdEventView::LinkStart => {
                let r = mention_plan(evs, i + 1, true);
                (seq![EmitView::Keep(i)] + r.0, r.1)
            },
            MdEventView::LinkEnd => {
                let r = mention_plan(evs, i + 1, false);
                (seq![EmitView::Keep(i)] + r.0, r.1)
            },
            MdEventView::Text(t) => if in_link {
                let r = mention_plan(evs, i + 1, in_link);
                (seq![EmitView::Keep(i)] + r.0, r.1)
            } else {
                let r = mention_plan(evs, i + 1, in_link);
                (text_emits(t, i) + r.0, mention_names_of(t) + r.1)
            },
            MdEventView::Other => {
                let r = mention_plan(evs, i + 1, in_link);
                (seq![EmitView::Keep(i)] + r.0, r.1)
            },
        }
    }
}

/// The HTML of the markdown `md` with its mentions linked, and the names it
/// mentions (outside links, in order, repeats kept).
pub open spec fn markdown_with_mentions(md: Seq<char>) -> (Seq<char>, Seq<Seq<char>>) {
    let p = mention_plan(markdown_events_of(md), 0, false);
    (rendered_markdown(md, p.0), p.1)
}

proof fn lemma_pieces_emits_keep_nothing(ps: Seq<(bool, Seq<char>)>)
    ensures
        keeps_below(pieces_emits(ps), 0),
    decreases ps.len(),
{
    if ps.len() > 0 {
        lemma_pieces_emits_keep_nothing(ps.drop_last());
        let a = pieces_emits(ps.drop_last());
        let b = piece_emits(ps.last());
        assert forall|j: int| 0 <= j < (a + b).len() implies keep_below(#[trigger] (a + b)[j], 0) by {
            if j < a.len() {
                assert((a + b)[j] == a[j]);
            } else {
                assert((a + b)[j] == b[j - a.len()]);
            }
        }
    }
}

/// Appends what the pieces become to `plan`.
fn push_piece_emits(plan: &mut Vec<Emit>, pieces: &Vec<MentionPiece>)
    ensures
        emits_view(final(plan)@) == emits_view(old(plan)@) + pieces_emits(pieces_view(pieces@)),
{
    let ghost ps = pieces_view(pieces@);
    let mut j: usize = 0;
    while j < pieces.len()
        invariant
            j <= pieces@.len(),
            ps == pieces_view(pieces@),
            emits_view(plan@) == emits_view(old(plan)@) + pieces_emits(ps.take(j as int)),
        decreases pieces@.len() - j,
    {
        let ghost before = emits_view(plan@);
        match &pieces[j] {
            MentionPiece::Text(t) => {
                plan.push(Emit::Text(t.clone()));
            },
            MentionPiece::Mention(name) => {
                let mut target = String::from_str("/u/");
                target.append(name.as_str());
                let mut shown = String::from_str("@");
                shown.append(name.as_str());
                plan.push(Emit::LinkStart(target));
                plan.push(Emit::Text(shown));
                plan.push(Emit::LinkEnd);
            },
        }
        proof {
            assert(ps.take(j + 1).drop_last() =~= ps.take(j as int));
            assert(emits_view(plan@) =~= before + piece_emits(ps[j as int]));
            assert(emits_view(plan@) =~= emits_view(old(plan)@) + pieces_emits(
                ps.take(j + 1),
            ));
        }
        j = j + 1;
    }
    assert(ps.take(pieces@.len() as int) =~= ps);
}

proof fn lemma_keeps_below_concat(a: Seq<EmitView>, b: Seq<EmitView>, n: int, m: int)
    requires
        keeps_below(a, n),
        keeps_below(b, m),
        m <= n,
    ensures
        keeps_below(a + b, n),
{
    assert forall|j: int| 0 <= j < (a + b).len() implies keep_below(#[trigger] (a + b)[j], n) by {
        if j < a.len() {
            assert((a + b)[j] == a[j]);
        } else {
            assert((a + b)[j] == b[j - a.len()]);
            assert(keep_below(b[j - a.len()], m));
        }
    }
}

/// Renders the markdown `markdown_input` to HTML with each mention outside
/// links turned into a link to `/u/name`, and returns the names mentioned.
pub fn render_markdown_with_mentions(markdown_input: &str) -> (r: (String, Vec<String>))
    ensures
        r.0@ == markdown_with_mentions(markdown_input@).0,
        strings_view(r.1@) == markdown_with_mentions(markdown_input@).1,
{
    let events = markdown_events(markdown_input);
    let ghost evs = md_events_view(events@);
    let mut plan: Vec<Emit> = Vec::new();
    let mut users: Vec<String> = Vec::new();
    let mut in_link = false;
    let n = events.len();
    let mut i: usize = 0;
    assert(emits_view(plan@) =~= Seq::<EmitView>::empty());
    assert(strings_view(users@) =~= Seq::<Seq<char>>::empty());
    while i < n
        invariant
            n == events@.len(),
            evs == md_events_view(events@),
            evs == markdown_events_of(markdown_input@),
            i <= n,
            mention_plan(evs, 0, false).0 == emits_view(plan@) + mention_plan(evs, i as int, in_link).0,
            mention_plan(evs, 0, false).1 == strings_view(users@) + mention_plan(
                evs,
                i as int,
                in_link,
            ).1,
            keeps_below(emits_view(plan@), i as int),
        decreases n - i,
    {
        let ghost p0 = emits_view(plan@);
        let ghost u0 = strings_view(users@);
        let ghost was_in_link = in_link;
        assert(evs[i as int] == md_event_view(events@[i as int]));
        let mut keep = true;
        match &events[i] {
            MdEvent::LinkStart => {
                in_link = true;
            },
            MdEvent::LinkEnd => {
                in_link = false;
            },
            MdEvent::Text(t) => {
                if !in_link {
                    let (pieces, mut names) = split_mentions(t.as_str());
                    if names.len() > 0 {
                        keep = false;
                        push_piece_emits(&mut plan, &pieces);
                        proof {
                            lemma_pieces_emits_keep_nothing(pieces_view(pieces@));
                            lemma_keeps_below_concat(p0, pieces_emits(pieces_view(pieces@)), i + 1, 0);
                        }
                        users.append(&mut names);
                        proof {
                            assert(strings_view(users@) =~= u0 + mention_names_of(t@));
                        }
                    }
                }
            },
            MdEvent::Other => {},
        }
        if keep {
            plan.push(Emit::Keep(i));
            proof {
                assert(emits_view(plan@) =~= p0 + seq![EmitView::Keep(i as int)]);
                lemma_keeps_below_concat(p0, seq![EmitView::Keep(i as int)], i + 1, i + 1);
            }
        }
        proof {
            let r = mention_plan(evs, i + 1, in_link);
            let here = mention_plan(evs, i as int, was_in_link);
            assert(emits_view(plan@) + r.0 =~= p0 + here.0);
            assert(strings_view(users@) + r.1 =~= u0 + here.1);
        }
        i = i + 1;
    }
    let html = render_events(markdown_input, &plan);
    (html, users)
}

} // verus!
