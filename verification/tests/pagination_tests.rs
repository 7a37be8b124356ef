use nodecask::pagination::PageButton::{Current, Link, Span};
use nodecask::pagination::{
    generate_pagination, page_count, Page, PageButton, Pagination, PaginationQuery,
};

#[test]
fn page_queries_use_site_sizes() {
    let page = Page { p: 3, topics_per_page: 20, comment_per_page: 100 };
    assert_eq!(page.list(), PaginationQuery { p: 3, per_page: 20 });
    assert_eq!(page.topic(), PaginationQuery { p: 3, per_page: 20 });
    assert_eq!(page.comment(), PaginationQuery { p: 3, per_page: 100 });
}

#[test]
fn query_offsets() {
    let q = PaginationQuery { p: 3, per_page: 20 };
    assert_eq!(q.start(), 40);
    assert_eq!(q.current(), 3);
    assert_eq!(q.size(), 20);
    let from: PaginationQuery = 1u32.into();
    assert_eq!(from, PaginationQuery { p: 1, per_page: 20 });
    assert_eq!(from.start(), 0);
}

#[test]
fn page_count_rounds_up() {
    assert_eq!(page_count(0, 20), 0);
    assert_eq!(page_count(1, 20), 1);
    assert_eq!(page_count(20, 20), 1);
    assert_eq!(page_count(21, 20), 2);
    assert_eq!(page_count(101, 100), 2);
}

#[test]
fn pagination_new_counts_pages() {
    let p = Pagination::new(PaginationQuery { p: 2, per_page: 10 }, 25, vec![1, 2, 3]);
    assert_eq!(p.total, 25);
    assert_eq!(p.per_page, 10);
    assert_eq!(p.total_page, 3);
    assert_eq!(p.current_page, 2);
    assert_eq!(p.data, vec![1, 2, 3]);
    assert!(!p.is_empty());
    let empty: Pagination<u8> = Pagination::new(PaginationQuery { p: 1, per_page: 10 }, 0, vec![]);
    assert!(empty.is_empty());
    assert_eq!(empty.total_page, 0);
}

#[test]
fn pagination_default() {
    let p: Pagination<u8> = Pagination::default();
    assert_eq!(p.total, 0);
    assert_eq!(p.per_page, 20);
    assert_eq!(p.total_page, 1);
    assert_eq!(p.current_page, 1);
    assert!(p.data.is_empty());
}

#[test]
fn pagination_bar_around_current() {
    assert_eq!(
        generate_pagination(7, 100),
        vec![
            Link(1),
            Span,
            Link(3),
            Link(4),
            Link(5),
            Link(6),
            Current(7),
            Link(8),
            Link(9),
            Link(10),
            Link(11),
            Span,
            Link(100)
        ]
    );
}

#[test]
fn pagination_bar_edges() {
    assert_eq!(generate_pagination(1, 0), vec![]);
    assert_eq!(generate_pagination(0, 3), vec![Current(1), Link(2), Link(3)]);
    assert_eq!(generate_pagination(9, 3), vec![Link(1), Link(2), Current(3)]);
    assert_eq!(generate_pagination(1, 1), vec![Current(1)]);
    assert_eq!(
        generate_pagination(1, 10),
        vec![Current(1), Link(2), Link(3), Link(4), Link(5), Span, Link(10)]
    );
    assert_eq!(
        generate_pagination(6, 7),
        vec![Link(1), Link(2), Link(3), Link(4), Link(5), Current(6), Link(7)]
    );
}

#[test]
fn pagination_bar_laws_on_a_sample() {
    for total in 1..30u32 {
        for current in 0..35u32 {
            let bar = generate_pagination(current, total);
            let clamped = current.clamp(1, total);
            let pages: Vec<u32> = bar
                .iter()
                .filter_map(|b| match b {
                    PageButton::Link(p) | PageButton::Current(p) => Some(*p),
                    PageButton::Span => None,
                })
                .collect();
            assert_eq!(pages[0], 1);
            assert_eq!(*pages.last().unwrap(), total);
            assert!(pages.windows(2).all(|w| w[0] < w[1]));
            let currents: Vec<&PageButton> =
                bar.iter().filter(|b| matches!(b, PageButton::Current(_))).collect();
            assert_eq!(currents, vec![&PageButton::Current(clamped)]);
            assert!(!matches!(bar[0], PageButton::Span));
            assert!(!matches!(bar[bar.len() - 1], PageButton::Span));
        }
    }
}

#[test]
fn pagination_buttons_follow_state() {
    let p: Pagination<u8> = Pagination::new(PaginationQuery { p: 2, per_page: 10 }, 25, vec![]);
    assert_eq!(p.buttons(), vec![Link(1), Current(2), Link(3)]);
}
