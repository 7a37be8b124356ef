use nodecask::node::{
    check_attr_key, check_node_create, check_node_delete, check_node_update, is_protected_node,
    listed_nodes, set_attribute, Node, NodeEditError, NodeUpdate,
};

fn node_with(attrs: Vec<(&str, &str)>) -> Node {
    Node {
        id: 1,
        name: "日常".to_string(),
        slug: "daily".to_string(),
        description: String::new(),
        show_in_list: true,
        member_access_required: false,
        moderator_access_required: false,
        isolated: false,
        access_only: false,
        topic_reward: 0,
        comment_reward: 0,
        topic_count: 0,
        created_at: 0,
        attributes: attrs.into_iter().map(|(k, v)| (k.to_string(), v.to_string())).collect(),
    }
}

fn update(name: &str, slug: &str) -> NodeUpdate {
    NodeUpdate {
        name: name.to_string(),
        slug: slug.to_string(),
        description: String::new(),
        show_in_list: true,
        member_access_required: false,
        moderator_access_required: false,
        isolated: false,
        access_only: false,
        topic_reward: 0,
        comment_reward: 0,
    }
}

fn pairs(v: &[(String, String)]) -> Vec<(&str, &str)> {
    v.iter().map(|(k, v)| (k.as_str(), v.as_str())).collect()
}

#[test]
fn node_url_and_attributes() {
    let n = node_with(vec![("icon", ""), ("icon", "x.png"), ("nsfw", "yes"), ("ads", "0")]);
    assert_eq!(n.url(), "/go/daily");
    // The first attribute of a key decides, even when it is empty.
    assert_eq!(n.attr("icon"), None);
    assert_eq!(n.attr("nsfw"), Some("yes".to_string()));
    assert_eq!(n.attr("missing"), None);
    assert!(n.is_enabled("nsfw"));
    assert!(!n.is_enabled("ads"));
    assert!(!n.is_enabled("missing"));
    let m = node_with(vec![("a", "1"), ("b", "true"), ("c", "y"), ("d", "TRUE")]);
    assert!(m.is_enabled("a") && m.is_enabled("b") && m.is_enabled("c"));
    assert!(!m.is_enabled("d"));
}

#[test]
fn setting_attributes_sorts_and_replaces() {
    let attrs = vec![
        ("zeta".to_string(), "1".to_string()),
        ("alpha".to_string(), "2".to_string()),
        ("mid".to_string(), "3".to_string()),
    ];
    let r = set_attribute(attrs, "mid", Some("new"));
    assert_eq!(pairs(&r), vec![("alpha", "2"), ("mid", "new"), ("zeta", "1")]);
    let r2 = set_attribute(r, "zeta", None);
    assert_eq!(pairs(&r2), vec![("alpha", "2"), ("mid", "new")]);
    let r3 = set_attribute(r2, "beta", Some(""));
    assert_eq!(pairs(&r3), vec![("alpha", "2"), ("beta", ""), ("mid", "new")]);
}

#[test]
fn attribute_write_then_read() {
    let mut n = node_with(vec![("b", "old"), ("a", "1"), ("b", "older")]);
    n.attributes = set_attribute(n.attributes, "b", Some("new"));
    assert_eq!(n.attr("b"), Some("new".to_string()));
    assert_eq!(n.attr("a"), Some("1".to_string()));
    n.attributes = set_attribute(n.attributes, "b", None);
    assert_eq!(n.attr("b"), None);
    assert_eq!(n.attr("a"), Some("1".to_string()));
    n.attributes = set_attribute(n.attributes, "flag", Some("yes"));
    assert!(n.is_enabled("flag"));
}

#[test]
fn stable_order_of_equal_keys() {
    // Keys that appear twice keep their order.
    let attrs = vec![
        ("k".to_string(), "first".to_string()),
        ("a".to_string(), "x".to_string()),
        ("k".to_string(), "second".to_string()),
    ];
    let r = set_attribute(attrs, "other", None);
    assert_eq!(pairs(&r), vec![("a", "x"), ("k", "first"), ("k", "second")]);
}

#[test]
fn node_create_checks() {
    assert_eq!(check_node_create(&update("", "a"), false), Err(NodeEditError::EmptyName));
    assert_eq!(check_node_create(&update("n", ""), false), Err(NodeEditError::EmptySlug));
    assert_eq!(check_node_create(&update("n", "a"), true), Err(NodeEditError::SlugTaken));
    assert_eq!(check_node_create(&update("n", "a_b"), false), Ok(()));
}

#[test]
fn node_update_checks() {
    assert_eq!(check_node_update(&update("", "a"), 1, None), Err(NodeEditError::EmptyName));
    assert_eq!(check_node_update(&update("n", ""), 1, None), Err(NodeEditError::EmptySlug));
    assert_eq!(check_node_update(&update("n", "a_b"), 1, None), Err(NodeEditError::InvalidSlug));
    let long = "a".repeat(101);
    assert_eq!(check_node_update(&update("n", &long), 1, None), Err(NodeEditError::SlugTooLong));
    assert_eq!(check_node_update(&update("n", &"a".repeat(100)), 1, None), Ok(()));
    assert_eq!(check_node_update(&update("n", "tech"), 1, Some((2, "tech"))), Err(NodeEditError::SlugTaken));
    assert_eq!(
        check_node_update(&update("n", "trashed"), 3, Some((3, "trashed"))),
        Err(NodeEditError::ProtectedSlug)
    );
    assert_eq!(check_node_update(&update("n", "tech"), 1, Some((1, "tech"))), Ok(()));
}

#[test]
fn node_delete_checks() {
    assert!(is_protected_node("unclassified-protect"));
    assert!(!is_protected_node("tech"));
    assert_eq!(check_node_delete(4, "trashed", Some(2)), Err(NodeEditError::ProtectedNode));
    assert_eq!(check_node_delete(4, "tech", Some(2)), Ok(2));
    assert_eq!(check_node_delete(4, "tech", None), Ok(4));
    assert_eq!(check_attr_key(""), Err(NodeEditError::EmptyKey));
    assert_eq!(check_attr_key("k"), Ok(()));
}

#[test]
fn only_listed_nodes() {
    let mut hidden = node_with(vec![]);
    hidden.show_in_list = false;
    hidden.slug = "trashed".to_string();
    let shown = node_with(vec![]);
    let r = listed_nodes(vec![hidden, shown]);
    assert_eq!(r.len(), 1);
    assert_eq!(r[0].slug, "daily");
}
