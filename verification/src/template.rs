//! Input-format selection and the batch templating path: turning a decoded
//! archival document into the render-ready value, and assembling the
//! aggregate index document of a generated site.

use vstd::prelude::*;

use crate::bdfr::{comment_from_entry, parents_wellformed, post_from_entry, SubmissionArchiveEntry};
use crate::canonical::{CoreError, Post, Preferences, StrPair};
use crate::post::{comment_query, spec_comment_query, PostTemplate};
use crate::strings::spec_trim_end;

verus! {

/// Builders of render-ready values from one decoded input document.
pub trait PostTemplater {
    /// Assembles the render-ready value of this document, or reports the
    /// decode error of a malformed record.
    fn template(&self) -> Result<PostTemplate, CoreError>;
}

impl PostTemplater for SubmissionArchiveEntry {
    /// The archival document rendered as a single-thread page: its own URL
    /// as context, the search query extracted from that URL, fixed sort
    /// order, and default preferences. Fails exactly when some reply's
    /// parent id is not a well-formed fullname.
    fn template(&self) -> (r: Result<PostTemplate, CoreError>)
        ensures
            r is Ok <==> (forall|i: int|
                0 <= i < self.comments@.len() ==> parents_wellformed(#[trigger] self.comments@[i])),
            r is Ok ==> post_from_entry(r->Ok_0.post, *self),
            r is Ok ==> r->Ok_0.comments@.len() == self.comments@.len(),
            r is Ok ==> forall|i: int|
                0 <= i < self.comments@.len() ==> comment_from_entry(
                    #[trigger] r->Ok_0.comments@[i],
                    self.comments@[i],
                    *self,
                ),
            r is Ok ==> r->Ok_0.sort@ == "new"@,
            r is Ok ==> r->Ok_0.prefs.spec_is_default(),
            r is Ok ==> r->Ok_0.single_thread == true,
            r is Ok ==> r->Ok_0.url@ == self.url@,
            r is Ok ==> r->Ok_0.comment_query@ == spec_comment_query(self.url@),
            r is Ok ==> r->Ok_0.url_without_query@ == spec_trim_end(
                self.url@,
                "?q="@ + spec_comment_query(self.url@) + "&type=comment"@,
            ),
    {
        let post = match self.to_post() {
            Ok(p) => p,
            Err(e) => {
                return Err(e);
            },
        };
        let comments = match self.comments() {
            Ok(cs) => cs,
            Err(e) => {
                return Err(e);
            },
        };
        let query = comment_query(self.url.as_str());
        Ok(
            PostTemplate::new(
                post,
                comments,
                String::from_str("new"),
                Preferences::default(),
                true,
                self.url.clone(),
                query,
            ),
        )
    }
}

/// The recognized input formats of the batch generator.
#[derive(Debug, Clone, Copy, PartialEq, Eq, Structural)]
pub enum InputFormat {
    /// Flat archival JSON exports of the third-party bulk-downloader tool.
    BDFRSelfPost,
    /// Nested listing JSON of the live API.
    RedditJson,
}

impl InputFormat {
    /// The command-line label of this format.
    pub open spec fn spec_label(self) -> Seq<char> {
        match self {
            InputFormat::BDFRSelfPost => "bdfr-self-post"@,
            InputFormat::RedditJson => "reddit-json"@,
        }
    }

    /// The command-line label of this format.
    pub fn label(&self) -> (r: &'static str)
        ensures
            r@ == self.spec_label(),
    {
        match self {
            InputFormat::BDFRSelfPost => "bdfr-self-post",
            InputFormat::RedditJson => "reddit-json",
        }
    }

    /// Whether this build decodes the format. The live-API format is a
    /// recognized but unimplemented selector: a configuration-time error,
    /// reported once before any processing.
    pub fn is_supported(&self) -> (r: bool)
        ensures
            r == (*self is BDFRSelfPost),
    {
        match self {
            InputFormat::BDFRSelfPost => true,
            InputFormat::RedditJson => false,
        }
    }
}

/// The community header of a generated archive site.
#[derive(Debug, PartialEq)]
pub struct Subreddit {
    pub name: String,
    pub title: String,
    pub description: String,
    pub members: StrPair,
    pub info: String,
    pub icon: String,
    pub active: StrPair,
    pub wiki: bool,
    pub nsfw: bool,
}

/// The aggregate index document of a generated site: the community header
/// and every processed post. Opaque beyond construction; the external
/// renderer consumes its fields.
#[derive(Debug, PartialEq)]
pub struct SubredditTemplate {
    pub sub: Subreddit,
    pub url: String,
    pub posts: Vec<Post>,
    pub sort: StrPair,
    pub ends: StrPair,
    pub prefs: Preferences,
    pub redirect_url: String,
    pub is_filtered: bool,
    pub all_posts_filtered: bool,
    pub all_posts_hidden_nsfw: bool,
    pub no_posts: bool,
}

/// Assembles the aggregate index document for a static archive: the given
/// title and description over all processed posts, with placeholder URL
/// context and no filtering. This never errors.
pub fn create_subreddit(
    posts: Vec<Post>,
    title: &str,
    description: &str,
    prefs: Preferences,
) -> (r: Result<SubredditTemplate, CoreError>)
    ensures
        r is Ok,
        r->Ok_0.sub.name@ == "archive"@,
        r->Ok_0.sub.title@ == title@,
        r->Ok_0.sub.description@ == description@,
        r->Ok_0.sub.members.0@ == Seq::<char>::empty(),
        r->Ok_0.sub.members.1@ == Seq::<char>::empty(),
        r->Ok_0.sub.info@ == Seq::<char>::empty(),
        r->Ok_0.sub.icon@ == Seq::<char>::empty(),
        r->Ok_0.sub.active.0@ == Seq::<char>::empty(),
        r->Ok_0.sub.active.1@ == Seq::<char>::empty(),
        r->Ok_0.sub.wiki == false,
        r->Ok_0.sub.nsfw == false,
        r->Ok_0.url@ == "example.com"@,
        r->Ok_0.posts == posts,
        r->Ok_0.sort.0@ == Seq::<char>::empty(),
        r->Ok_0.sort.1@ == Seq::<char>::empty(),
        r->Ok_0.ends.0@ == Seq::<char>::empty(),
        r->Ok_0.ends.1@ == Seq::<char>::empty(),
        r->Ok_0.prefs == prefs,
        r->Ok_0.redirect_url@ == "redirect.example.com"@,
        r->Ok_0.is_filtered == false,
        r->Ok_0.all_posts_filtered == false,
        r->Ok_0.all_posts_hidden_nsfw == false,
        r->Ok_0.no_posts == (posts@.len() == 0),
{
    let no_posts = posts.is_empty();
    Ok(
        SubredditTemplate {
            sub: Subreddit {
                name: String::from_str("archive"),
                title: String::from_str(title),
                description: String::from_str(description),
                members: StrPair(String::new(), String::new()),
                info: String::new(),
                icon: String::new(),
                active: StrPair(String::new(), String::new()),
                wiki: false,
                nsfw: false,
            },
            url: String::from_str("example.com"),
            posts,
            sort: StrPair(String::new(), String::new()),
            ends: StrPair(String::new(), String::new()),
            prefs,
            redirect_url: String::from_str("redirect.example.com"),
            is_filtered: false,
            all_posts_filtered: false,
            all_posts_hidden_nsfw: false,
            no_posts,
        },
    )
}

} // verus!
