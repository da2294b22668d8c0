use thread_archive::bdfr::{CommentArchiveEntry, SubmissionArchiveEntry};
use thread_archive::canonical::CoreError;

fn reply(
    id: &str,
    author: &str,
    body: &str,
    score: i64,
    parent_id: &str,
    replies: Vec<CommentArchiveEntry>,
) -> CommentArchiveEntry {
    CommentArchiveEntry {
        author: author.to_string(),
        id: id.to_string(),
        score,
        author_flair: None,
        submission: "123".to_string(),
        stickied: false,
        body: body.to_string(),
        is_submitter: false,
        distinguished: None,
        created_utc: 0,
        parent_id: parent_id.to_string(),
        replies,
    }
}

fn submission(comments: Vec<CommentArchiveEntry>) -> SubmissionArchiveEntry {
    SubmissionArchiveEntry {
        title: "A title".to_string(),
        name: "t3_123".to_string(),
        url: "https://example.org/r/sub/comments/123".to_string(),
        selftext: "Some body text".to_string(),
        selftext_formatted: "<p>Some body text</p>".to_string(),
        score: 42,
        upvote_ratio: 0,
        permalink: "/r/sub/comments/123".to_string(),
        id: "123".to_string(),
        author: "poster".to_string(),
        link_flair_text: "flair".to_string(),
        num_comments: 2,
        over_18: false,
        spoiler: false,
        pinned: true,
        locked: false,
        distinguished: None,
        created_utc: 1600000000,
        comments,
    }
}

#[test]
fn test_to_post_fields() {
    let e = submission(vec![]);
    let p = e.to_post().expect("post decode never errors");
    assert_eq!(p.title, "A title");
    assert_eq!(p.ws_url, "https://example.org/r/sub/comments/123");
    assert_eq!(p.body, "<p>Some body text</p>");
    assert_eq!(p.score.0, "42");
    assert_eq!(p.score.1, "");
    assert_eq!(p.permalink, "/r/sub/comments/123");
    assert_eq!(p.id, "123");
    assert_eq!(p.community, "");
    assert_eq!(p.author.name, "poster");
    assert_eq!(p.author.distinguished, "");
    assert_eq!(p.link_title, "flair");
    assert_eq!(p.post_type, "link");
    assert!(!p.flags.nsfw);
    assert!(p.flags.stickied);
    assert_eq!(p.media.url, "https://example.org/r/sub/comments/123");
    assert_eq!(p.media.poster, "poster");
    assert_eq!(p.domain, "");
    assert_eq!(p.created_ts, 1600000000);
    // 1600000000 seconds after the epoch, rendered in the RFC 2822 form.
    assert_eq!(p.rel_time, "Sun, 13 Sep 2020 12:26:40 +0000");
    assert_eq!(p.created, "Sun, 13 Sep 2020 12:26:40 +0000");
    assert!(p.gallery.is_empty());
    assert!(p.awards.is_empty());
}

#[test]
fn test_to_post_time_fallback() {
    // A date before 1900 cannot be rendered in the RFC 2822 form, so the
    // display falls back to the raw decimal timestamp; this never errors.
    let mut e = submission(vec![]);
    e.created_utc = -3000000000;
    let p = e.to_post().expect("post decode never errors");
    assert_eq!(p.rel_time, "-3000000000");
    assert_eq!(p.created_ts, 0);
}

#[test]
fn test_to_comment_fields() {
    let child = reply("c2", "other", "inner", -3, "t1_c1", vec![]);
    let top = reply("c1", "someone", "outer", 7, "t3_123", vec![child]);
    let e = submission(vec![top]);
    let cs = e.comments().expect("well-formed parent ids decode");
    assert_eq!(cs.len(), 1);
    let c = &cs[0];
    assert_eq!(c.id, "c1");
    assert_eq!(c.kind, "t1");
    assert_eq!(c.parent_id, "t3_123");
    assert_eq!(c.parent_kind, "t3");
    assert_eq!(c.post_link, "/r/sub/comments/123");
    assert_eq!(c.post_author, "poster");
    assert_eq!(c.body, "outer");
    assert_eq!(c.score.0, "7");
    assert_eq!(c.score.1, "");
    assert_eq!(c.created, "");
    assert_eq!(c.edited.0, "");
    assert_eq!(c.edited.1, "");
    assert!(!c.highlighted);
    assert!(!c.collapsed);
    assert!(!c.is_filtered);
    assert_eq!(c.more_count, 0);
    assert_eq!(c.replies.len(), 1);
    let g = &c.replies[0];
    assert_eq!(g.id, "c2");
    assert_eq!(g.parent_kind, "t1");
    assert_eq!(g.score.0, "-3");
}

#[test]
fn test_to_comment_stickied_becomes_highlight() {
    let mut top = reply("c1", "someone", "outer", 7, "t3_123", vec![]);
    top.stickied = true;
    let e = submission(vec![top]);
    let cs = e.comments().expect("well-formed parent ids decode");
    assert!(cs[0].highlighted);
}

#[test]
fn test_to_comment_flair_and_distinguished() {
    let mut top = reply("c1", "someone", "outer", 7, "t3_123", vec![]);
    top.author_flair = Some("a flair".to_string());
    top.distinguished = Some("moderator".to_string());
    let e = submission(vec![top]);
    let cs = e.comments().expect("well-formed parent ids decode");
    assert_eq!(cs[0].author.flair.text, "a flair");
    assert_eq!(cs[0].author.distinguished, "moderator");
}

#[test]
fn test_malformed_parent_id_is_an_error_not_a_panic() {
    let bad = reply("c9", "someone", "text", 0, "nounderscore", vec![]);
    let e = submission(vec![bad]);
    assert_eq!(e.comments().unwrap_err(), CoreError::MalformedParentId);

    let nested_bad = reply(
        "c1",
        "someone",
        "outer",
        1,
        "t3_123",
        vec![reply("c2", "other", "inner", 2, "zz_123", vec![])],
    );
    let e2 = submission(vec![nested_bad]);
    assert_eq!(e2.comments().unwrap_err(), CoreError::MalformedParentId);
}

#[test]
fn test_archive_round_trip() {
    // Decode an archival record, encode the canonical values back, decode
    // again: every field the archival schema carries comes back unchanged.
    let child = reply("c2", "other", "inner body", -3, "t1_c1", vec![]);
    let mut top = reply("c1", "someone", "outer body", 7, "t3_123", vec![child]);
    top.author_flair = Some("green".to_string());
    top.distinguished = Some("moderator".to_string());
    top.stickied = true;
    let e = submission(vec![top]);

    let p = e.to_post().expect("post decode never errors");
    let cs = e.comments().expect("well-formed parent ids decode");

    let e2 = SubmissionArchiveEntry::from_post(&p, &cs);
    assert_eq!(e2.score, 42);
    assert_eq!(e2.name, "t3_123");
    assert_eq!(e2.created_utc, 1600000000);
    assert_eq!(e2.num_comments, 1);
    assert!(e2.comments[0].stickied);
    assert_eq!(e2.comments[0].author_flair, Some("green".to_string()));

    let p2 = e2.to_post().expect("post decode never errors");
    let cs2 = e2.comments().expect("well-formed parent ids decode");
    assert_eq!(p2, p);
    assert_eq!(cs2, cs);
}
