//! Page requests, paginated results and the page-button bar.
use vstd::prelude::*;

verus! {

/// The page a visitor asked for, with the site's page sizes for topic lists
/// and for the comments under a topic.
pub struct Page {
    pub p: u32,
    pub topics_per_page: u32,
    pub comment_per_page: u32,
}

/// One page of a list: page number `p` (from 1) of `per_page` entries.
#[derive(PartialEq, Eq, Structural, Debug, Clone, Copy)]
pub struct PaginationQuery {
    pub p: u32,
    pub per_page: u32,
}

impl Page {
    /// The query for a topic list.
    pub fn list(&self) -> (q: PaginationQuery)
        ensures
            q == (PaginationQuery { p: self.p, per_page: self.topics_per_page }),
    {
        PaginationQuery { p: self.p, per_page: self.topics_per_page }
    }

    /// The query for the topics of a node (same size as a list).
    pub fn topic(&self) -> (q: PaginationQuery)
        ensures
            q == (PaginationQuery { p: self.p, per_page: self.topics_per_page }),
    {
        PaginationQuery { p: self.p, per_page: self.topics_per_page }
    }

    /// The query for the comments under a topic.
    pub fn comment(&self) -> (q: PaginationQuery)
        ensures
            q == (PaginationQuery { p: self.p, per_page: self.comment_per_page }),
    {
        PaginationQuery { p: self.p, per_page: self.comment_per_page }
    }
}

impl From<u32> for PaginationQuery {
    /// Page `v` with the default page size of 20.
    fn from(v: u32) -> (q: Self) {
        PaginationQuery { p: v, per_page: 20 }
    }
}

impl vstd::std_specs::convert::FromSpecImpl<u32> for PaginationQuery {
    open spec fn obeys_from_spec() -> bool {
        true
    }

    open spec fn from_spec(v: u32) -> PaginationQuery {
        PaginationQuery { p: v, per_page: 20 }
    }
}

impl PaginationQuery {
    /// Offset of the first entry of the page: `(p - 1) * per_page`.
    pub fn start(&self) -> (r: u32)
        requires
            self.p >= 1,
            (self.p - 1) * self.per_page <= u32::MAX,
        ensures
            r == (self.p - 1) * self.per_page,
    {
        (self.p - 1) * self.size()
    }

    /// The page number.
    pub fn current(&self) -> (r: u32)
        ensures
            r == self.p,
    {
        self.p
    }

    /// The page size.
    pub fn size(&self) -> (r: u32)
        ensures
            r == self.per_page,
    {
        self.per_page
    }
}

/// Number of pages needed for `total` entries, `per_page` to a page.
pub open spec fn page_count_spec(total: u32, per_page: u32) -> int {
    if total % per_page == 0 {
        (total / per_page) as int
    } else {
        total / per_page + 1
    }
}

/// Number of pages needed for `total` entries, `per_page` to a page; it is
/// also the page that holds the last entry.
pub fn page_count(total: u32, per_page: u32) -> (r: u32)
    requires
        per_page > 0,
    ensures
        r == page_count_spec(total, per_page),
        r * per_page >= total,
        total > 0 ==> (r - 1) * per_page < total,
{
    proof {
        vstd::arithmetic::div_mod::lemma_fundamental_div_mod(total as int, per_page as int);
    }
    let r = if total % per_page == 0 {
        total / per_page
    } else {
        proof {
            if per_page == 1 {
                assert(total % 1 == 0);
            }
            assert(total / per_page < 0xffff_ffff) by (nonlinear_arith)
                requires
                    per_page >= 2,
                    total <= 0xffff_ffff,
            ;
        }
        (total / per_page) + 1
    };
    proof {
        let q = total / per_page;
        let m = total % per_page;
        assert(total == per_page * q + m);
        assert(r * per_page == q * per_page || r * per_page == q * per_page + per_page) by (
        nonlinear_arith)
            requires
                r == q || r == q + 1,
        ;
        if m == 0 {
            assert(r * per_page == per_page * q) by (nonlinear_arith)
                requires
                    r == q,
            ;
            if total > 0 {
                assert((r - 1) * per_page == per_page * q - per_page) by (nonlinear_arith)
                    requires
                        r == q,
                ;
            }
        } else {
            assert(r * per_page == per_page * q + per_page) by (nonlinear_arith)
                requires
                    r == q + 1,
            ;
            assert((r - 1) * per_page == per_page * q) by (nonlinear_arith)
                requires
                    r == q + 1,
            ;
        }
    }
    r
}

/// One page of a list together with its place among all pages.
pub struct Pagination<T> {
    pub data: Vec<T>,
    pub total: u32,
    pub per_page: u32,
    pub total_page: u32,
    pub current_page: u32,
}

impl<T> Default for Pagination<T> {
    /// An empty first page of 20 entries.
    fn default() -> (r: Self)
        ensures
            r.data@.len() == 0,
            r.total == 0,
            r.per_page == 20,
            r.total_page == 1,
            r.current_page == 1,
    {
        Pagination { data: Vec::new(), total: 0, per_page: 20, total_page: 1, current_page: 1 }
    }
}

/// A button of the page bar: a link to a page, the current page, or a gap.
#[derive(PartialEq, Eq, Structural, Debug, Clone, Copy)]
pub enum PageButton {
    Link(u32),
    Current(u32),
    Span,
}

/// `current` brought into `1..=total`.
pub open spec fn clamp_page(current: u32, total: u32) -> int {
    if current < 1 {
        1
    } else if current > total {
        total as int
    } else {
        current as int
    }
}

/// First page of the window of four pages either side of `c`.
pub open spec fn window_start(c: int) -> int {
    if c > 4 {
        c - 4
    } else {
        1
    }
}

/// Last page of the window of four pages either side of `c`.
pub open spec fn window_end(c: int, total: u32) -> int {
    if c + 4 < total {
        c + 4
    } else {
        total as int
    }
}

/// The button for page `p` when `c` is the current page.
pub open spec fn page_button(p: int, c: int) -> PageButton {
    if p == c {
        PageButton::Current(p as u32)
    } else {
        PageButton::Link(p as u32)
    }
}

/// The buttons for pages `start..=end`.
pub open spec fn window_buttons(start: int, end: int, c: int) -> Seq<PageButton> {
    Seq::new((end - start + 1) as nat, |k: int| page_button(start + k, c))
}

/// The page bar: page 1, the four pages either side of the current page and
/// the last page, in order, with a gap wherever two shown pages are not
/// adjacent: `[1] … [3] [4] [5] [6] *7* [8] [9] [10] [11] … [100]`.
pub open spec fn pagination_spec(current: u32, total: u32) -> Seq<PageButton> {
    if total == 0 {
        Seq::empty()
    } else {
        let c = clamp_page(current, total);
        let s = window_start(c);
        let e = window_end(c, total);
        let head = if s > 1 {
            if s > 2 {
                seq![PageButton::Link(1), PageButton::Span]
            } else {
                seq![PageButton::Link(1)]
            }
        } else {
            Seq::empty()
        };
        let tail = if e < total {
            if e < total - 1 {
                seq![PageButton::Span, PageButton::Link(total)]
            } else {
                seq![PageButton::Link(total)]
            }
        } else {
            Seq::empty()
        };
        head + window_buttons(s, e, c) + tail
    }
}

/// The page shown by a button, if any.
pub open spec fn shown_page(b: PageButton) -> Option<int> {
    match b {
        PageButton::Link(p) => Some(p as int),
        PageButton::Current(p) => Some(p as int),
        PageButton::Span => None,
    }
}

/// Builds the page bar for page `current` of `total` pages.
pub fn generate_pagination(current: u32, total: u32) -> (r: Vec<PageButton>)
    requires
        total == 0 || clamp_page(current, total) + 4 <= u32::MAX,
    ensures
        r@ == pagination_spec(current, total),
{
    if total == 0 {
        return Vec::new();
    }
    let c = if current < 1 {
        1
    } else if current > total {
        total
    } else {
        current
    };
    let start = if c > 4 {
        c - 4
    } else {
        1
    };
    let end = if c + 4 < total {
        c + 4
    } else {
        total
    };
    let mut buttons: Vec<PageButton> = Vec::new();
    if start > 1 {
        buttons.push(PageButton::Link(1));
        if start > 2 {
            buttons.push(PageButton::Span);
        }
    }
    let ghost head = buttons@;
    let mut p: u64 = start as u64;
    while p <= end as u64
        invariant
            1 <= start <= c <= end <= total,
            start <= p <= end + 1,
            buttons@ == head + window_buttons(start as int, p - 1, c as int),
        decreases end + 1 - p,
    {
        let b = if p == c as u64 {
            PageButton::Current(p as u32)
        } else {
            PageButton::Link(p as u32)
        };
        buttons.push(b);
        proof {
            assert(window_buttons(start as int, p as int, c as int) =~= window_buttons(
                start as int,
                p - 1,
                c as int,
            ).push(page_button(p as int, c as int)));
        }
        p = p + 1;
    }
    let ghost middle = buttons@;
    if end < total {
        if end < total - 1 {
            buttons.push(PageButton::Span);
        }
        buttons.push(PageButton::Link(total));
    }
    proof {
        let tail = if end < total {
            if end < total - 1 {
                seq![PageButton::Span, PageButton::Link(total)]
            } else {
                seq![PageButton::Link(total)]
            }
        } else {
            Seq::<PageButton>::empty()
        };
        assert(buttons@ =~= middle + tail);
        assert(buttons@ =~= pagination_spec(current, total));
    }
    buttons
}

impl<T> Pagination<T> {
    /// Places `data`, the entries of page `page`, among `total` entries.
    pub fn new(page: PaginationQuery, total: u32, data: Vec<T>) -> (r: Self)
        requires
            page.per_page > 0,
        ensures
            r.data == data,
            r.total == total,
            r.per_page == page.per_page,
            r.current_page == page.p,
            r.total_page == page_count_spec(total, page.per_page),
    {
        let per_page = page.size();
        let current_page = page.current();
        let total_page = page_count(total, per_page);
        Pagination { data, total, total_page, per_page, current_page }
    }

    /// Whether the list holds no entries at all.
    pub fn is_empty(&self) -> (b: bool)
        ensures
            b == (self.total == 0),
    {
        self.total == 0
    }

    /// The page bar for this page.
    pub fn buttons(&self) -> (r: Vec<PageButton>)
        requires
            self.total_page == 0 || clamp_page(self.current_page, self.total_page) + 4 <= u32::MAX,
        ensures
            r@ == pagination_spec(self.current_page, self.total_page),
    {
        generate_pagination(self.current_page, self.total_page)
    }
}

/// Laws of the page bar, for every page count and requested page: the bar
/// begins with page 1 and ends with the last page; the one current button
/// shows the requested page brought into range; the pages shown strictly
/// increase from left to right; and a gap stands only between two shown
/// pages, never at either end.
pub proof fn pagination_bar_laws(current: u32, total: u32)
    requires
        total > 0,
        clamp_page(current, total) + 4 <= u32::MAX,
    ensures
        ({
            let r = pagination_spec(current, total);
            let c = clamp_page(current, total);
            &&& r.len() > 0
            &&& shown_page(r[0]) == Some(1int)
            &&& shown_page(r.last()) == Some(total as int)
            &&& exists|i: int| 0 <= i < r.len() && r[i] == PageButton::Current(c as u32)
            &&& forall|i: int|
                0 <= i < r.len() && (r[i] is Current) ==> r[i] == PageButton::Current(c as u32)
            &&& forall|i: int, j: int|
                0 <= i < j < r.len() && shown_page(r[i]) is Some && shown_page(r[j]) is Some
                    ==> shown_page(r[i])->0 < shown_page(r[j])->0
            &&& forall|i: int|
                0 <= i < r.len() && r[i] == PageButton::Span ==> 0 < i < r.len() - 1
        }),
{
    let r = pagination_spec(current, total);
    let c = clamp_page(current, total);
    let s = window_start(c);
    let e = window_end(c, total);
    let w = window_buttons(s, e, c);
    let head = if s > 1 {
        if s > 2 {
            seq![PageButton::Link(1), PageButton::Span]
        } else {
            seq![PageButton::Link(1)]
        }
    } else {
        Seq::<PageButton>::empty()
    };
    let tail = if e < total {
        if e < total - 1 {
            seq![PageButton::Span, PageButton::Link(total)]
        } else {
            seq![PageButton::Link(total)]
        }
    } else {
        Seq::<PageButton>::empty()
    };
    assert(r == head + w + tail);
    let hl = head.len() as int;
    let wl = w.len() as int;
    // Every button's shown page, by position.
    assert forall|i: int| 0 <= i < wl implies shown_page(#[trigger] w[i]) == Some(s + i) by {}
    assert forall|i: int| 0 <= i < r.len() implies (#[trigger] r[i] == if i < hl {
        head[i]
    } else if i < hl + wl {
        w[i - hl]
    } else {
        tail[i - hl - wl]
    }) by {}
    assert(shown_page(r[0]) == Some(1int)) by {
        if hl == 0 {
            assert(r[0] == w[0]);
        }
    }
    assert(shown_page(r.last()) == Some(total as int)) by {
        if tail.len() == 0 {
            assert(r.last() == w[wl - 1]);
        }
    }
    assert(r[hl + (c - s)] == PageButton::Current(c as u32));
    assert forall|i: int|
        0 <= i < r.len() && (r[i] is Current) implies r[i] == PageButton::Current(c as u32) by {
        if hl <= i < hl + wl {
            assert(r[i] == w[i - hl]);
        }
    }
    assert forall|i: int, j: int|
        0 <= i < j < r.len() && shown_page(r[i]) is Some && shown_page(r[j]) is Some implies shown_page(
        r[i],
    )->0 < shown_page(r[j])->0 by {
        if i < hl {
            assert(shown_page(r[i])->0 == 1);
        } else if i < hl + wl {
            assert(shown_page(r[i])->0 == s + (i - hl));
        } else {
            assert(shown_page(r[i])->0 == total);
        }
        if j < hl {
            assert(shown_page(r[j])->0 == 1);
        } else if j < hl + wl {
            assert(shown_page(r[j])->0 == s + (j - hl));
        } else {
            assert(shown_page(r[j])->0 == total);
        }
    }
}

/// Some button of the bar `r` shows page `p`.
pub open spec fn bar_shows(r: Seq<PageButton>, p: int) -> bool {
    exists|i: int| 0 <= i < r.len() && shown_page(#[trigger] r[i]) == Some(p)
}

/// Number of buttons before the window of the bar: page 1 and, when pages
/// are skipped after it, a gap.
spec fn head_len(s: int) -> int {
    if s > 2 {
        2
    } else if s > 1 {
        1
    } else {
        0
    }
}

/// Number of buttons after the window: a gap when pages are skipped, and
/// the last page.
spec fn tail_len(e: int, total: int) -> int {
    if e < total - 1 {
        2
    } else if e < total {
        1
    } else {
        0
    }
}

/// The page shown at position `i` of a bar whose window runs from `s` to `e`.
spec fn page_at(s: int, e: int, total: int, i: int) -> Option<int> {
    let hl = head_len(s);
    let wl = e - s + 1;
    if i < hl {
        if i == 0 {
            Some(1)
        } else {
            None
        }
    } else if i < hl + wl {
        Some(s + (i - hl))
    } else if i == hl + wl + tail_len(e, total) - 1 {
        Some(total)
    } else {
        None
    }
}

proof fn lemma_bar_shape(current: u32, total: u32)
    requires
        total > 0,
        clamp_page(current, total) + 4 <= u32::MAX,
    ensures
        ({
            let r = pagination_spec(current, total);
            let c = clamp_page(current, total);
            let s = window_start(c);
            let e = window_end(c, total);
            &&& 1 <= s <= c <= e <= total
            &&& s == (if c - 4 > 1 { c - 4 } else { 1 })
            &&& e == (if c + 4 < total { c + 4 } else { total as int })
            &&& r.len() == head_len(s) + (e - s + 1) + tail_len(e, total as int)
            &&& forall|i: int|
                0 <= i < r.len() ==> shown_page(#[trigger] r[i]) == page_at(s, e, total as int, i)
            &&& forall|i: int| 0 <= i < r.len() ==> (#[trigger] r[i] is Span <==> shown_page(r[i]) is None)
        }),
{
    let r = pagination_spec(current, total);
    let c = clamp_page(current, total);
    let s = window_start(c);
    let e = window_end(c, total);
    let w = window_buttons(s, e, c);
    let head = if s > 1 {
        if s > 2 {
            seq![PageButton::Link(1), PageButton::Span]
        } else {
            seq![PageButton::Link(1)]
        }
    } else {
        Seq::<PageButton>::empty()
    };
    let tail = if e < total {
        if e < total - 1 {
            seq![PageButton::Span, PageButton::Link(total)]
        } else {
            seq![PageButton::Link(total)]
        }
    } else {
        Seq::<PageButton>::empty()
    };
    assert(r == head + w + tail);
    let hl = head.len() as int;
    let wl = w.len() as int;
    assert forall|i: int| 0 <= i < wl implies shown_page(#[trigger] w[i]) == Some(s + i) by {}
    assert forall|i: int| 0 <= i < r.len() implies shown_page(#[trigger] r[i]) == page_at(
        s,
        e,
        total as int,
        i,
    ) && (r[i] is Span <==> shown_page(r[i]) is None) by {
        if i < hl {
            assert(r[i] == head[i]);
        } else if i < hl + wl {
            assert(r[i] == w[i - hl]);
        } else {
            assert(r[i] == tail[i - hl - wl]);
        }
    }
}

/// Gaps and pages of the bar, for every page count and requested page:
/// between two neighbouring numbered buttons the pages are consecutive; a gap
/// stands between two numbered buttons whose pages are not; and a page is
/// shown exactly when it is the first, the last, or within four pages of the
/// current one (the requested page brought into range).
pub proof fn pagination_gap_law(current: u32, total: u32)
    requires
        total > 0,
        clamp_page(current, total) + 4 <= u32::MAX,
    ensures
        ({
            let r = pagination_spec(current, total);
            let c = clamp_page(current, total);
            &&& forall|i: int|
                #![trigger r[i]]
                0 <= i < r.len() - 1 && shown_page(r[i]) is Some && shown_page(r[i + 1]) is Some
                    ==> shown_page(r[i + 1])->0 == shown_page(r[i])->0 + 1
            &&& forall|i: int|
                #![trigger r[i]]
                0 <= i < r.len() && r[i] == PageButton::Span ==> 0 < i < r.len() - 1 && shown_page(
                    r[i - 1],
                ) is Some && shown_page(r[i + 1]) is Some && shown_page(r[i + 1])->0 - shown_page(
                    r[i - 1],
                )->0 > 1
            &&& forall|p: int|
                1 <= p <= total ==> (#[trigger] bar_shows(r, p) <==> (p == 1 || p == total || c - 4
                    <= p <= c + 4))
        }),
{
    let r = pagination_spec(current, total);
    let c = clamp_page(current, total);
    let s = window_start(c);
    let e = window_end(c, total);
    let t = total as int;
    lemma_bar_shape(current, total);
    let hl = head_len(s);
    let wl = e - s + 1;
    assert forall|i: int|
        #![trigger r[i]]
        0 <= i < r.len() - 1 && shown_page(r[i]) is Some && shown_page(r[i + 1]) is Some implies shown_page(
        r[i + 1],
    )->0 == shown_page(r[i])->0 + 1 by {
        assert(shown_page(r[i + 1]) == page_at(s, e, t, i + 1));
    }
    assert forall|i: int|
        #![trigger r[i]]
        0 <= i < r.len() && r[i] == PageButton::Span implies 0 < i < r.len() - 1 && shown_page(
        r[i - 1],
    ) is Some && shown_page(r[i + 1]) is Some && shown_page(r[i + 1])->0 - shown_page(r[i - 1])->0
        > 1 by {
        assert(shown_page(r[i]) is None);
        if 0 < i {
            assert(shown_page(r[i - 1]) == page_at(s, e, t, i - 1));
        }
        if i < r.len() - 1 {
            assert(shown_page(r[i + 1]) == page_at(s, e, t, i + 1));
        }
    }
    assert forall|p: int| 1 <= p <= total implies (#[trigger] bar_shows(r, p) <==> (p == 1 || p
        == total || c - 4 <= p <= c + 4)) by {
        if p == 1 || p == total || c - 4 <= p <= c + 4 {
            if s <= p <= e {
                assert(shown_page(r[hl + (p - s)]) == Some(p));
            } else if p == 1 {
                assert(shown_page(r[0]) == Some(p));
            } else {
                assert(shown_page(r[r.len() - 1]) == Some(p));
            }
        }
        if bar_shows(r, p) {
            let i = choose|i: int| 0 <= i < r.len() && shown_page(#[trigger] r[i]) == Some(p);
            assert(shown_page(r[i]) == page_at(s, e, t, i));
        }
    }
}

} // verus!
