use thread_archive::canonical::{CoreError, Preferences};
use thread_archive::ssg::{output_path, template_prefs};
use thread_archive::template::{create_subreddit, InputFormat};

#[test]
fn test_output_path_swaps_extension() {
    assert_eq!(
        output_path("/input/dir/post.json", "out", "html".to_string()).unwrap(),
        "out/post.html"
    );
    assert_eq!(
        output_path("post.json", "out/", "html".to_string()).unwrap(),
        "out/post.html"
    );
    assert_eq!(
        output_path("a/b/c.tar.gz", "", "html".to_string()).unwrap(),
        "c.tar.html"
    );
    // A leading dot names a hidden file, not an extension.
    assert_eq!(
        output_path("/input/.json", "out", "html".to_string()).unwrap(),
        "out/.json.html"
    );
    // Trailing separators are ignored, as the platform path API ignores them.
    assert_eq!(
        output_path("/input/dir/", "out", "html".to_string()).unwrap(),
        "out/dir.html"
    );
}

#[test]
fn test_output_path_rejects_bad_names() {
    assert_eq!(
        output_path("/", "out", "html".to_string()).unwrap_err(),
        CoreError::InvalidFileName
    );
    assert_eq!(
        output_path("/input/..", "out", "html".to_string()).unwrap_err(),
        CoreError::InvalidFileName
    );
    assert_eq!(
        output_path("", "out", "html".to_string()).unwrap_err(),
        CoreError::InvalidFileName
    );
}

#[test]
fn test_template_prefs() {
    let p = template_prefs();
    assert_eq!(p.static_path, "static");
    assert_eq!(p.show_nsfw, "on");
    assert_eq!(p.disable_visit_reddit_confirmation, "on");
    assert_eq!(p.theme, "");
    assert_eq!(p.comment_sort, "");
}

#[test]
fn test_input_format_labels() {
    assert_eq!(InputFormat::BDFRSelfPost.label(), "bdfr-self-post");
    assert_eq!(InputFormat::RedditJson.label(), "reddit-json");
    assert!(InputFormat::BDFRSelfPost.is_supported());
    assert!(!InputFormat::RedditJson.is_supported());
    assert_eq!(CoreError::UnsupportedFormat, CoreError::UnsupportedFormat);
}

#[test]
fn test_create_subreddit() {
    let sub = create_subreddit(
        Vec::new(),
        "My Archive",
        "An archive of posts.",
        Preferences::default(),
    )
    .unwrap();
    assert_eq!(sub.sub.title, "My Archive");
    assert_eq!(sub.sub.description, "An archive of posts.");
    assert_eq!(sub.sub.name, "archive");
    assert!(sub.no_posts);
    assert!(!sub.is_filtered);
}
