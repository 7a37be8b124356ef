use nodecask::mention::{mention_pieces, mention_scan, split_mentions, MentionPiece};
use nodecask::node::Node;
use nodecask::system::PostConfig;
use nodecask::topic::{
    bake, bake_rendered, can_edit, check_account_age, check_bot_topic, check_lock_page, check_node_listing,
    check_read, check_reply_node, check_standing, check_topic_creation, comment_ops, dedup_names,
    has_op, lock_toggle, plain, removal_reason, topic_ops, topic_page_url, topic_url, user_url,
    Bake, BakeTip, LengthRule, LockRefusal, NodeRefusal, SearchParams, StandingRefusal,
};

fn node() -> Node {
    Node {
        id: 5,
        name: "科技".to_string(),
        slug: "tech".to_string(),
        description: String::new(),
        show_in_list: true,
        member_access_required: false,
        moderator_access_required: false,
        isolated: false,
        access_only: false,
        topic_reward: 0,
        comment_reward: 0,
        topic_count: 0,
        created_at: 0,
        attributes: vec![],
    }
}

fn cfg() -> PostConfig {
    PostConfig {
        sensitive_words: vec!["badword".to_string(), "spam".to_string()],
        min_reg_age_secs: 0,
        min_title_length: 3,
        max_title_length: 10,
        min_content_length: 2,
        max_content_length: 50,
        min_reply_length: 1,
        max_reply_length: 20,
    }
}

fn tip(b: &Bake) -> Option<(LengthRule, i64)> {
    match b {
        Bake::Tips(BakeTip::Length(r, l)) => Some((*r, *l)),
        _ => None,
    }
}

#[test]
fn bake_length_limits_in_order() {
    let c = cfg();
    let short = bake_rendered(&c, Some("ab"), "x", "<p>x</p>".to_string(), vec![]);
    assert_eq!(tip(&short), Some((LengthRule::TitleMin, 3)));
    let long = bake_rendered(&c, Some("abcdefghijk"), "xx", String::new(), vec![]);
    assert_eq!(tip(&long), Some((LengthRule::TitleMax, 10)));
    let body_short = bake_rendered(&c, Some("title"), "x", String::new(), vec![]);
    assert_eq!(tip(&body_short), Some((LengthRule::ContentMin, 2)));
    let body_long = bake_rendered(&c, Some("title"), &"x".repeat(51), String::new(), vec![]);
    assert_eq!(tip(&body_long), Some((LengthRule::ContentMax, 50)));
    let reply_short = bake_rendered(&c, None, "", String::new(), vec![]);
    assert_eq!(tip(&reply_short), Some((LengthRule::ReplyMin, 1)));
    let reply_long = bake_rendered(&c, None, &"y".repeat(21), String::new(), vec![]);
    assert_eq!(tip(&reply_long), Some((LengthRule::ReplyMax, 20)));
    // Characters, not bytes, are counted.
    let wide = bake_rendered(&c, Some("标题长"), "内容", "<p>内容</p>".to_string(), vec![]);
    assert!(matches!(wide, Bake::Output(_)));
}

#[test]
fn bake_blocks_words_in_title_or_source() {
    let c = cfg();
    let in_title = bake_rendered(&c, Some("spam here"), "fine text", "<p>fine text</p>".to_string(), vec![]);
    assert!(matches!(in_title, Bake::Tips(BakeTip::SensitiveWord(ref w)) if w == "spam"));
    let in_body = bake_rendered(&c, None, "a badword and spam", "<p>x</p>".to_string(), vec![]);
    assert!(matches!(in_body, Bake::Tips(BakeTip::SensitiveWord(ref w)) if w == "badword"));
}

#[test]
fn bake_checks_rendered_text() {
    let c = cfg();
    // The source is clean but the markup, once turned into text, is not.
    let out = bake_rendered(&c, None, "clean", "<p>sp<b>am</b></p>".to_string(), vec![]);
    assert!(matches!(out, Bake::Tips(BakeTip::ContainsSensitiveWord(ref w)) if w == "spam"));
}

#[test]
fn bake_output_and_mentions() {
    let c = cfg();
    let users = vec!["bob".to_string(), "bob".to_string(), "amy".to_string(), "bob".to_string()];
    match bake_rendered(&c, None, "hi @bob", "<p>hello world</p>".to_string(), users) {
        Bake::Output(o) => {
            assert_eq!(o.content_render, "<p>hello world</p>");
            assert_eq!(o.content_plain.trim(), "hello world");
            assert_eq!(o.at_users, vec!["bob", "amy", "bob"]);
        }
        _ => panic!("expected output"),
    }
}

#[test]
fn plain_text_of_markup() {
    let text = plain(b"<h1>Title</h1><p>Body</p>").unwrap();
    assert!(text.contains("Title"));
    assert!(text.contains("Body"));
    assert!(!text.contains("<h1>"));
}

#[test]
fn dedup_drops_repeated_neighbours() {
    let v = vec!["a".to_string(), "a".to_string(), "b".to_string(), "a".to_string()];
    assert_eq!(dedup_names(v), vec!["a", "b", "a"]);
    assert!(dedup_names(vec![]).is_empty());
}

#[test]
fn mentions_split_text() {
    let (pieces, users) = split_mentions("hi @bob and @amy!");
    assert_eq!(users, vec!["bob", "amy"]);
    let shown: Vec<(bool, String)> = pieces
        .into_iter()
        .map(|p| match p {
            MentionPiece::Text(t) => (false, t),
            MentionPiece::Mention(n) => (true, n),
        })
        .collect();
    assert_eq!(
        shown,
        vec![
            (false, "hi ".to_string()),
            (true, "bob".to_string()),
            (false, " and ".to_string()),
            (true, "amy".to_string()),
            (false, "!".to_string()),
        ]
    );
}

#[test]
fn mentions_need_a_word_boundary_before() {
    let (pieces, users) = split_mentions("mail a@b.com");
    assert!(users.is_empty());
    assert_eq!(pieces.len(), 1);
    assert!(matches!(&pieces[0], MentionPiece::Text(t) if t == "mail a@b.com"));
    let (_, users) = split_mentions("@lead at start");
    assert_eq!(users, vec!["lead"]);
}

#[test]
fn mention_pieces_skip_empty_gaps() {
    let gaps = vec![String::new(), String::new()];
    let names = vec!["x".to_string()];
    let pieces = mention_pieces("@x", &gaps, &names);
    assert_eq!(pieces.len(), 1);
    assert!(matches!(&pieces[0], MentionPiece::Mention(n) if n == "x"));
}

#[test]
fn topic_creation_rules() {
    let mut n = node();
    assert_eq!(check_topic_creation(&n, false), Ok(()));
    n.moderator_access_required = true;
    assert_eq!(check_topic_creation(&n, false), Err(NodeRefusal::ModeratorOnly));
    assert_eq!(check_topic_creation(&n, true), Ok(()));
    n.access_only = true;
    assert_eq!(check_topic_creation(&n, true), Err(NodeRefusal::ReadOnly));
    assert_eq!(check_bot_topic(&n), Err(NodeRefusal::ReadOnly));
}

#[test]
fn reply_and_read_rules() {
    let mut n = node();
    n.isolated = true;
    assert_eq!(check_reply_node(&n, false), Err(NodeRefusal::Isolated));
    assert_eq!(check_reply_node(&n, true), Ok(()));
    assert_eq!(check_read(&n, false, true, true), Err(NodeRefusal::Isolated));
    n.isolated = false;
    n.member_access_required = true;
    assert_eq!(check_read(&n, false, false, false), Err(NodeRefusal::MemberOnly));
    assert_eq!(check_read(&n, false, false, true), Ok(()));
    assert_eq!(check_node_listing(&n, false, false), Err(NodeRefusal::MemberOnly));
    n.moderator_access_required = true;
    assert_eq!(check_read(&n, true, false, true), Err(NodeRefusal::ModeratorOnly));
    assert_eq!(check_node_listing(&n, false, true), Err(NodeRefusal::ModeratorOnly));
}

#[test]
fn standing_rules() {
    assert_eq!(check_standing(0, 100, 5), Err(StandingRefusal::AccountAbnormal));
    assert_eq!(check_standing(10, 3, -5), Err(StandingRefusal::CoinsInsufficient));
    assert_eq!(check_standing(10, 5, -5), Ok(()));
    assert_eq!(check_standing(10, 0, 5), Ok(()));
    assert_eq!(check_account_age(3600, Some(10)), Err(StandingRefusal::TooRecent(3600)));
    assert_eq!(check_account_age(3600, Some(3600)), Ok(()));
    assert_eq!(check_account_age(3600, None), Ok(()));
    assert_eq!(check_account_age(0, Some(0)), Ok(()));
}

#[test]
fn edit_window() {
    assert!(can_edit(1, 1, false, 3599, Some(9)));
    assert!(!can_edit(1, 2, false, 10, Some(0)));
    assert!(!can_edit(1, 1, true, 10, Some(0)));
    assert!(!can_edit(1, 1, false, 3600, Some(0)));
    assert!(!can_edit(1, 1, false, 10, Some(10)));
    assert!(!can_edit(1, 1, false, 10, None));
}

#[test]
fn offered_actions() {
    assert_eq!(topic_ops(true, true, false, false), vec!["edit", "delete", "lock"]);
    assert_eq!(topic_ops(true, false, true, false), vec!["delete"]);
    assert_eq!(topic_ops(true, false, true, true), vec!["delete", "lock", "pin"]);
    assert_eq!(topic_ops(false, false, false, true), vec!["super-delete", "lock", "pin"]);
    assert!(topic_ops(false, true, false, false).is_empty());
    assert_eq!(comment_ops(true, true), vec!["delete"]);
    assert_eq!(comment_ops(false, true), vec!["super-delete"]);
    assert!(comment_ops(false, false).is_empty());
    let ops = topic_ops(true, true, false, false);
    assert!(has_op(&ops, "edit"));
    assert!(!has_op(&ops, "pin"));
}

#[test]
fn locking_is_one_way_for_members() {
    assert_eq!(lock_toggle(false, true, false), Ok(true));
    assert_eq!(lock_toggle(true, true, false), Err(LockRefusal::AlreadyLocked));
    assert_eq!(lock_toggle(true, false, true), Ok(false));
    assert_eq!(lock_toggle(false, false, false), Err(LockRefusal::NoPermission));
    assert_eq!(check_lock_page(true, true, false), Err(LockRefusal::AlreadyLocked));
    assert_eq!(check_lock_page(false, false, false), Err(LockRefusal::NoPermission));
    assert_eq!(check_lock_page(true, false, true), Ok(()));
}

#[test]
fn removal_reasons() {
    assert_eq!(removal_reason("  "), None);
    assert_eq!(removal_reason(" spam "), Some(" spam "));
}

#[test]
fn topic_addresses() {
    assert_eq!(topic_url(42), "/t/42");
    assert_eq!(topic_page_url(42, 3), "/t/42?p=3");
    assert_eq!(user_url("bob"), "/u/bob");
}

#[test]
fn search_query_given_and_missing() {
    let given = SearchParams { q: Some("rust 入门".to_string()), username: None, node: None, p: Some(2) };
    assert_eq!(given.keywords(), Some("rust 入门".to_string()));
    assert_eq!(given.shown_query(), "rust 入门");
    let none = SearchParams { q: None, username: Some("bob".to_string()), node: None, p: None };
    assert_eq!(none.keywords(), None);
    assert_eq!(none.shown_query(), "");
}

#[test]
fn bake_renders_markdown_and_links_mentions() {
    let c = cfg();
    match bake(&c, Some("title"), "hi @bob and @amy, [@eve](/x) @bob") {
        Bake::Output(o) => {
            assert!(o.content_render.contains(r#"<a href="/u/bob">@bob</a>"#));
            assert!(o.content_render.contains(r#"<a href="/u/amy">@amy</a>"#));
            assert!(o.content_render.contains(r#"<a href="/x">@eve</a>"#));
            assert!(!o.content_render.contains("/u/eve"));
            assert_eq!(o.at_users, vec!["bob", "amy", "bob"]);
            assert!(o.content_plain.contains("hi"));
        }
        _ => panic!("expected output"),
    }
    match bake(&c, Some("title"), "**bold** text") {
        Bake::Output(o) => {
            assert_eq!(o.content_render, "<p><strong>bold</strong> text</p>\n");
            assert!(o.at_users.is_empty());
        }
        _ => panic!("expected output"),
    }
}

#[test]
fn mention_scan_agrees_with_the_pattern() {
    let re = regex::Regex::new(r"\B@(\w+)").unwrap();
    for text in [
        "",
        "plain",
        "@a",
        "@",
        "x@y @z",
        "hi @bob and @amy!",
        "@@bob",
        "@bob@amy",
        "中文 @用户名 好",
        "(@x_1) @é @-no",
        "end @",
    ] {
        let (gaps, names) = mention_scan(text);
        let want_gaps: Vec<String> = re.split(text).map(|p| p.to_string()).collect();
        let want_names: Vec<String> = re.captures_iter(text).map(|c| c[1].to_string()).collect();
        assert_eq!(gaps, want_gaps, "gaps of {:?}", text);
        assert_eq!(names, want_names, "names of {:?}", text);
        assert_eq!(gaps.len(), names.len() + 1);
    }
}
