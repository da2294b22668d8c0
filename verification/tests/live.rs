use thread_archive::canonical::Preferences;
use thread_archive::post::{
    build_comment, parse_comments, query_comments, thread_comments, RawComment,
};

fn raw(id: &str, author: &str, body: &str, replies: Vec<RawComment>) -> RawComment {
    RawComment {
        kind: "t1".to_string(),
        id: id.to_string(),
        author: author.to_string(),
        body: body.to_string(),
        body_rendered: format!("<div>{}</div>", body),
        flair_parts: Vec::new(),
        link_flair_text: "".to_string(),
        author_flair_background_color: "".to_string(),
        author_flair_text_color: "".to_string(),
        distinguished: "".to_string(),
        stickied: false,
        score_hidden: false,
        score_display: "1".to_string(),
        rel_time: "just now".to_string(),
        created: "Jan 1 2020".to_string(),
        edited: None,
        parent_id: "t3_123".to_string(),
        count: 0,
        awards: Vec::new(),
        replies,
    }
}

const BASE: &str = "undelete.pullpush.io";

fn build(node: &RawComment, filters: &Vec<String>, highlighted: &str) -> thread_archive::canonical::Comment {
    build_comment(
        node,
        Vec::new(),
        "/r/test/comments/123/",
        "original_poster",
        highlighted,
        filters,
        BASE,
        &Preferences::default(),
    )
}

#[test]
fn test_build_comment() {
    let filters: Vec<String> = Vec::new();

    // A normal comment.
    let mut node = raw("comment1", "test_user", "Test comment", vec![]);
    node.score_display = "42".to_string();
    let comment = build(&node, &filters, "abc123");
    assert_eq!(comment.id, "comment1");
    assert_eq!(comment.author.name, "test_user");
    assert_eq!(comment.score.0, "42");
    assert_eq!(comment.score.1, "");
    assert_eq!(comment.parent_kind, "t3");
    assert_eq!(comment.parent_id, "123");
    assert!(!comment.collapsed);
    assert!(!comment.is_filtered);
    assert!(!comment.highlighted);

    // A deleted comment gets the placeholder body with the archive link.
    let deleted = raw("deleted1", "[deleted]", "[removed]", vec![]);
    let comment = build(&deleted, &filters, "abc123");
    assert!(comment.body.contains("[removed]"));
    assert!(comment.body.contains("view removed comment"));
}

#[test]
fn test_removed_comment_link_targets_the_id() {
    let filters: Vec<String> = Vec::new();
    let deleted = raw("deleted1", "[deleted]", "[removed]", vec![]);
    let c = build(&deleted, &filters, "");
    assert!(c.body.contains("https://undelete.pullpush.io/r/test/comments/123/deleted1"));

    // The fixed removal notice triggers the rule regardless of the author.
    let notice = raw("r2", "normal_user", "[ Removed by Reddit ]", vec![]);
    let c2 = build(&notice, &filters, "");
    assert!(c2.body.contains("view removed comment"));

    // A normal comment keeps its rewritten content and no placeholder link.
    let normal = raw("n1", "normal_user", "hello", vec![]);
    let c3 = build(&normal, &filters, "");
    assert_eq!(c3.body, "<div>hello</div>");
    assert!(!c3.body.contains("view removed comment"));
}

#[test]
fn test_collapse_truth_table() {
    let filters: Vec<String> = Vec::new();
    let filtered: Vec<String> = vec!["u_bot".to_string()];

    let mut node = raw("a", "bot", "x", vec![]);
    node.distinguished = "moderator".to_string();
    node.stickied = true;
    let c = build(&node, &filters, "");
    assert!(c.collapsed);

    let mut node = raw("a", "bot", "x", vec![]);
    node.distinguished = "".to_string();
    node.stickied = true;
    let c = build(&node, &filters, "");
    assert!(!c.collapsed);

    let mut node = raw("a", "bot", "x", vec![]);
    node.distinguished = "moderator".to_string();
    node.stickied = false;
    let c = build(&node, &filtered, "");
    assert!(c.is_filtered);
    assert!(c.collapsed);

    let mut node = raw("a", "bot", "x", vec![]);
    node.distinguished = "".to_string();
    node.stickied = false;
    let c = build(&node, &filters, "");
    assert!(!c.collapsed);
}

#[test]
fn test_score_hidden_placeholder() {
    let filters: Vec<String> = Vec::new();
    let mut node = raw("a", "user", "x", vec![]);
    node.score_hidden = true;
    node.score_display = "9999".to_string();
    let c = build(&node, &filters, "");
    assert_eq!(c.score.0, "\u{2022}");
    assert_eq!(c.score.1, "Hidden");

    node = raw("a", "user", "x", vec![]);
    node.score_hidden = true;
    node.score_display = "1".to_string();
    let c = build(&node, &filters, "");
    assert_eq!(c.score.0, "\u{2022}");
    assert_eq!(c.score.1, "Hidden");
}

#[test]
fn test_highlighted_comment() {
    let filters: Vec<String> = Vec::new();
    let node = raw("abc123", "user", "x", vec![]);
    let c = build(&node, &filters, "abc123");
    assert!(c.highlighted);
}

#[test]
fn test_parse_comments_preserves_shape_and_order() {
    let filters: Vec<String> = Vec::new();
    let tree = vec![
        raw("a", "u1", "first", vec![raw("b", "u2", "child", vec![])]),
        raw("c", "u3", "second", vec![]),
    ];
    let cs = parse_comments(
        &tree,
        "/r/test/comments/123/",
        "original_poster",
        "",
        &filters,
        BASE,
        &Preferences::default(),
    );
    assert_eq!(cs.len(), 2);
    assert_eq!(cs[0].id, "a");
    assert_eq!(cs[0].replies.len(), 1);
    assert_eq!(cs[0].replies[0].id, "b");
    assert_eq!(cs[1].id, "c");
    assert!(cs[1].replies.is_empty());
}

#[test]
fn test_query_mode_flattens_matches() {
    // Exactly the nodes with ids "a" and "c" contain the substring "needle",
    // case-insensitively; the search is flat and post-order: a descendant
    // comes before its ancestor, and no result keeps children.
    let filters: Vec<String> = Vec::new();
    let tree = vec![
        raw(
            "b",
            "u1",
            "nothing here",
            vec![raw("a", "u2", "a Needle in a haystack", vec![])],
        ),
        raw("c", "u3", "another NEEDLE too", vec![]),
    ];
    let cs = query_comments(
        &tree,
        "/r/test/comments/123/",
        "original_poster",
        "",
        &filters,
        "NEEDLE",
        BASE,
        &Preferences::default(),
    );
    let ids: Vec<&str> = cs.iter().map(|c| c.id.as_str()).collect();
    assert_eq!(ids, vec!["a", "c"]);
    assert!(cs.iter().all(|c| c.replies.is_empty()));
}

#[test]
fn test_thread_comments_dispatches_on_the_url_query() {
    let filters: Vec<String> = Vec::new();
    let tree = vec![raw(
        "b",
        "u1",
        "nothing here",
        vec![raw("a", "u2", "a needle in a haystack", vec![])],
    )];

    // A URL without the search marker keeps the full hierarchy.
    let full = thread_comments(
        &tree,
        "/r/test/comments/123/",
        "original_poster",
        "",
        &filters,
        "https://x/r/test/comments/123",
        BASE,
        &Preferences::default(),
    );
    assert_eq!(full.len(), 1);
    assert_eq!(full[0].id, "b");
    assert_eq!(full[0].replies.len(), 1);

    // A URL with the search marker flattens to the matches.
    let found = thread_comments(
        &tree,
        "/r/test/comments/123/",
        "original_poster",
        "",
        &filters,
        "https://x/r/test/comments/123?q=needle&type=comment",
        BASE,
        &Preferences::default(),
    );
    assert_eq!(found.len(), 1);
    assert_eq!(found[0].id, "a");
    assert!(found[0].replies.is_empty());
}

#[test]
fn test_empty_listing_decodes_to_nothing() {
    let filters: Vec<String> = Vec::new();
    let empty: Vec<RawComment> = Vec::new();
    let full = parse_comments(
        &empty,
        "/r/test/comments/123/",
        "original_poster",
        "",
        &filters,
        BASE,
        &Preferences::default(),
    );
    assert!(full.is_empty());
    let found = query_comments(
        &empty,
        "/r/test/comments/123/",
        "original_poster",
        "",
        &filters,
        "needle",
        BASE,
        &Preferences::default(),
    );
    assert!(found.is_empty());
}

#[test]
fn test_empty_query_means_no_search() {
    // A URL whose marker carries an empty query reads as "no search active":
    // full hierarchical mode, not an all-matching search.
    let filters: Vec<String> = Vec::new();
    let tree = vec![raw(
        "b",
        "u1",
        "top",
        vec![raw("a", "u2", "child", vec![])],
    )];
    let r = thread_comments(
        &tree,
        "/r/test/comments/123/",
        "original_poster",
        "",
        &filters,
        "https://x/r/test/comments/123?q=&type=comment",
        BASE,
        &Preferences::default(),
    );
    assert_eq!(r.len(), 1);
    assert_eq!(r[0].id, "b");
    assert_eq!(r[0].replies.len(), 1);
}

#[test]
fn test_more_stub_count_is_carried_unvalidated() {
    let filters: Vec<String> = Vec::new();
    let mut node = raw("m1", "", "", vec![]);
    node.kind = "more".to_string();
    node.count = 25;
    let c = build(&node, &filters, "");
    assert_eq!(c.kind, "more");
    assert_eq!(c.more_count, 25);
}
