use thread_archive::canonical::Preferences;
use thread_archive::post::{comment_query, PostTemplate};

#[test]
fn test_comment_query() {
    let test_cases = vec![
        ("https://reddit.com/r/sub/comments/123?q=test&type=comment", "test"),
        ("https://reddit.com/r/sub/comments/123?q=hello%20world&type=comment", "hello world"),
        ("https://reddit.com/r/sub/comments/123?q=test+query&type=comment", "test query"),
        ("https://reddit.com/r/sub/comments/123", ""),
    ];

    for (url, expected) in test_cases {
        assert_eq!(comment_query(url), expected);
    }
}

#[test]
fn test_comment_query_percent_escapes() {
    // The captured text is form-decoded after the space substitutions.
    assert_eq!(
        comment_query("https://x/y?q=a%2Bb&type=comment"),
        "a+b"
    );
    // Multi-byte UTF-8 escape runs decode to the encoded character.
    assert_eq!(
        comment_query("https://x/y?q=caf%C3%A9&type=comment"),
        "caf\u{e9}"
    );
    assert_eq!(
        comment_query("https://x/y?q=%E2%82%AC1&type=comment"),
        "\u{20ac}1"
    );
    assert_eq!(
        comment_query("https://x/y?q=%F0%9F%98%80&type=comment"),
        "\u{1f600}"
    );
    // A malformed escape run passes through as literal text.
    assert_eq!(
        comment_query("https://x/y?q=a%C3x&type=comment"),
        "a%C3x"
    );
    // An overlong two-byte form is not decoded.
    assert_eq!(
        comment_query("https://x/y?q=%C0%80&type=comment"),
        "%C0%80"
    );
    // A marker pair in the wrong order carries no query.
    assert_eq!(comment_query("https://x/y&type=comment?q=z"), "");
    // The capture runs to the last marker, and the form decode then keeps
    // the value of the `q` key alone.
    assert_eq!(
        comment_query("https://x/y?q=one&type=comment&type=comment"),
        "one"
    );
}

#[test]
fn test_post_template_strips_query_suffix() {
    let entry = sample_entry();
    let post = entry.to_post().unwrap();
    let t = PostTemplate::new(
        post,
        Vec::new(),
        "new".to_string(),
        Preferences::default(),
        true,
        "https://x/y?q=test&type=comment".to_string(),
        "test".to_string(),
    );
    assert_eq!(t.url, "https://x/y?q=test&type=comment");
    assert_eq!(t.url_without_query, "https://x/y");
    assert_eq!(t.comment_query, "test");
    assert_eq!(t.sort, "new");
    assert!(t.single_thread);
}

#[test]
fn test_post_template_batch_convention() {
    // The batch path supplies empty context strings; the constructor must
    // produce a valid value all the same.
    let entry = sample_entry();
    let post = entry.to_post().unwrap();
    let t = PostTemplate::new(
        post,
        Vec::new(),
        "new".to_string(),
        Preferences::default(),
        true,
        "".to_string(),
        "".to_string(),
    );
    assert_eq!(t.url, "");
    assert_eq!(t.url_without_query, "");
    assert_eq!(t.comment_query, "");
}

fn sample_entry() -> thread_archive::bdfr::SubmissionArchiveEntry {
    thread_archive::bdfr::SubmissionArchiveEntry {
        title: "t".to_string(),
        name: "t3_1".to_string(),
        url: "https://x/y".to_string(),
        selftext: "b".to_string(),
        selftext_formatted: "b".to_string(),
        score: 1,
        upvote_ratio: 0,
        permalink: "/r/s/comments/1".to_string(),
        id: "1".to_string(),
        author: "a".to_string(),
        link_flair_text: "".to_string(),
        num_comments: 0,
        over_18: false,
        spoiler: false,
        pinned: false,
        locked: false,
        distinguished: None,
        created_utc: 0,
        comments: Vec::new(),
    }
}
