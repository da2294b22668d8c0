//! Archive adapter: bidirectional mapping between the flat archival JSON
//! schema of a third-party bulk-downloader export and the canonical model.
//! Decode turns an archival record into a `Post` plus a `Comment` tree;
//! encode is the lossy reverse conversion used for export.

use vstd::prelude::*;

use crate::canonical::{
    author_view_eq, flair_view_eq, media_view_eq, prefs_view_eq, Author, Comment, CoreError,
    Flags, Flair, Media, Post, Preferences, StrPair,
};
use crate::models::{Fullname, ThingKind};
use crate::strings::{
    i64_to_string, parse_i64_or_zero, spec_i64_digits, spec_parse_i64, spec_parse_i64_or_zero,
    str_eq,
};

verus! {

/// Whether the `time` crate can render the given Unix timestamp in the
/// RFC 2822 form; a function of the timestamp alone.
pub uninterp spec fn rfc2822_in_range(ts: int) -> bool;

/// The RFC 2822 rendering of the given Unix timestamp; a function of the
/// timestamp alone.
pub uninterp spec fn rfc2822_of(ts: int) -> Seq<char>;

/// Relies on `time::OffsetDateTime::from_unix_timestamp` and
/// `time::OffsetDateTime::format` with the RFC 2822 well-known description.
/// Both are deterministic in the timestamp: the first fails exactly for
/// timestamps outside the crate's representable date range, the second
/// exactly for dates the RFC 2822 form cannot carry (years before 1900).
#[verifier::external_body]
fn strtime(timestamp: i64) -> (r: Option<String>)
    ensures
        r is Some <==> rfc2822_in_range(timestamp as int),
        r is Some ==> r->0@ == rfc2822_of(timestamp as int),
{
    let odt = match time::OffsetDateTime::from_unix_timestamp(timestamp) {
        Ok(o) => o,
        Err(_) => return None,
    };
    match odt.format(&time::format_description::well_known::Rfc2822) {
        Ok(s) => Some(s),
        Err(_) => None,
    }
}

/// The display form of a Unix timestamp: its RFC 2822 rendering, or the
/// decimal timestamp itself when the renderer cannot carry the date.
pub open spec fn spec_time_display(ts: int) -> Seq<char> {
    if rfc2822_in_range(ts) {
        rfc2822_of(ts)
    } else {
        spec_i64_digits(ts)
    }
}

/// Renders a Unix timestamp for display, falling back to the raw decimal
/// value when date formatting fails; this never errors.
pub fn time_display(ts: i64) -> (r: String)
    ensures
        r@ == spec_time_display(ts as int),
{
    match strtime(ts) {
        Some(s) => s,
        None => i64_to_string(ts),
    }
}

/// The characters of an optional string: its contents, or empty for `None`.
pub open spec fn spec_opt_str(o: Option<String>) -> Seq<char> {
    match o {
        Some(s) => s@,
        None => Seq::empty(),
    }
}

/// True when the optional string is `Some` exactly for nonempty `s`, with
/// the same characters.
pub open spec fn opt_from_string(o: Option<String>, s: Seq<char>) -> bool {
    match o {
        Some(t) => s.len() > 0 && t@ == s,
        None => s.len() == 0,
    }
}

/// An archival submission record: the root post of a thread, with its
/// replies nested inside. Timestamps are whole seconds and the upvote ratio
/// is truncated to an integer, as the canonical model carries them; the
/// formatted body is computed by the external selftext-formatting
/// collaborator and handed in alongside the raw text.
#[derive(Debug, PartialEq)]
pub struct SubmissionArchiveEntry {
    pub title: String,
    /// Fullname of the post, e.g. `"t3_abcdef"`.
    pub name: String,
    /// Original URL of the post at its source.
    pub url: String,
    /// Post text body.
    pub selftext: String,
    /// The body after the external selftext-formatting step.
    pub selftext_formatted: String,
    /// Upvotes minus downvotes.
    pub score: i64,
    /// Upvote-to-downvote ratio, truncated.
    pub upvote_ratio: i64,
    /// Link to the post within the archive.
    pub permalink: String,
    pub id: String,
    /// Post author's username.
    pub author: String,
    /// Flair text attached to the post.
    pub link_flair_text: String,
    /// Number of comments on the post, including nested replies.
    pub num_comments: i64,
    /// Whether the post is marked as adult content.
    pub over_18: bool,
    /// Whether the post is marked as containing spoilers.
    pub spoiler: bool,
    /// Whether the post is pinned.
    pub pinned: bool,
    /// Whether the post's comment section was locked.
    pub locked: bool,
    pub distinguished: Option<String>,
    /// Creation instant, whole seconds since the Unix epoch.
    pub created_utc: i64,
    /// Post comments, threaded.
    pub comments: Vec<CommentArchiveEntry>,
}

/// An archival reply record.
#[derive(Debug, PartialEq)]
pub struct CommentArchiveEntry {
    /// Comment author's username.
    pub author: String,
    /// Id of the comment.
    pub id: String,
    /// Comment score: upvotes minus downvotes.
    pub score: i64,
    pub author_flair: Option<String>,
    /// Id of the root post of the thread.
    pub submission: String,
    /// Whether the comment is pinned.
    pub stickied: bool,
    /// Comment body.
    pub body: String,
    /// Whether the author is the root post's author.
    pub is_submitter: bool,
    pub distinguished: Option<String>,
    /// Creation instant, whole seconds since the Unix epoch.
    pub created_utc: i64,
    /// Fullname of the post or comment this replies to, e.g. `"t1_abcdef"`.
    pub parent_id: String,
    pub replies: Vec<CommentArchiveEntry>,
}

/// True when `m` is the media reference that decoding `e` yields: the entry's
/// URL with no dimensions, posted by the entry's author.
pub open spec fn media_from_entry(m: Media, e: SubmissionArchiveEntry) -> bool {
    &&& m.url@ == e.url@
    &&& m.alt_url@ == e.url@
    &&& m.width == 0
    &&& m.height == 0
    &&& m.poster@ == e.author@
    &&& m.download_name@ == Seq::<char>::empty()
}

/// True when `p` is the post that decoding `e` yields. Fields with no
/// archival equivalent (community, domain, comment-count display, gallery,
/// awards, author flair and distinguished marker) hold their defined
/// defaults; the body is the entry's text after the external
/// selftext-formatting step; the creation display is the formatted timestamp
/// with a raw decimal fallback.
pub open spec fn post_from_entry(p: Post, e: SubmissionArchiveEntry) -> bool {
    &&& p.title@ == e.title@
    &&& p.ws_url@ == e.url@
    &&& p.body@ == e.selftext_formatted@
    &&& p.score.0@ == spec_i64_digits(e.score as int)
    &&& p.score.1@ == Seq::<char>::empty()
    &&& p.upvote_ratio == e.upvote_ratio
    &&& p.permalink@ == e.permalink@
    &&& p.id@ == e.id@
    &&& p.community@ == Seq::<char>::empty()
    &&& p.author.name@ == e.author@
    &&& p.author.flair.spec_is_empty()
    &&& p.author.distinguished@ == Seq::<char>::empty()
    &&& p.link_title@ == e.link_flair_text@
    &&& p.post_type@ == "link"@
    &&& p.flags == (Flags { nsfw: e.over_18, spoiler: e.spoiler, stickied: e.pinned })
    &&& media_from_entry(p.thumbnail, e)
    &&& media_from_entry(p.media, e)
    &&& p.domain@ == Seq::<char>::empty()
    &&& p.rel_time@ == spec_time_display(e.created_utc as int)
    &&& p.created@ == spec_time_display(e.created_utc as int)
    &&& p.created_ts as int == if e.created_utc >= 0 {
        e.created_utc as int
    } else {
        0
    }
    &&& p.comments.0@ == Seq::<char>::empty()
    &&& p.comments.1@ == Seq::<char>::empty()
    &&& p.gallery@.len() == 0
    &&& p.awards@.len() == 0
}

/// True when every parent id in the entry and its nested replies is a
/// well-formed fullname. Decoding succeeds exactly on such entries.
pub open spec fn parents_wellformed(e: CommentArchiveEntry) -> bool
    decreases e,
{
    &&& Fullname::spec_parse(e.parent_id@) is Some
    &&& forall|i: int|
        0 <= i < e.replies@.len() ==> parents_wellformed(#[trigger] e.replies@[i])
}

/// True when `c` is the comment that decoding `e` within submission `subm`
/// yields: the parent kind is derived by the validating fullname parse, the
/// creation display is the formatted timestamp with a raw decimal fallback,
/// the pinned marker becomes the highlight hint, and fields with no archival
/// equivalent hold their defined defaults.
pub open spec fn comment_from_entry(
    c: Comment,
    e: CommentArchiveEntry,
    subm: SubmissionArchiveEntry,
) -> bool
    decreases e,
{
    &&& c.id@ == e.id@
    &&& c.kind@ == ThingKind::Comment.spec_tag()
    &&& c.parent_id@ == e.parent_id@
    &&& Fullname::spec_parse(e.parent_id@) is Some
    &&& c.parent_kind@ == Fullname::spec_parse(e.parent_id@).unwrap().0.spec_tag()
    &&& c.post_link@ == subm.permalink@
    &&& c.post_author@ == subm.author@
    &&& c.body@ == e.body@
    &&& c.author.name@ == e.author@
    &&& c.author.flair.flair_parts@.len() == 0
    &&& c.author.flair.text@ == spec_opt_str(e.author_flair)
    &&& c.author.flair.background_color@ == Seq::<char>::empty()
    &&& c.author.flair.foreground_color@ == Seq::<char>::empty()
    &&& c.author.distinguished@ == spec_opt_str(e.distinguished)
    &&& c.score.0@ == spec_i64_digits(e.score as int)
    &&& c.score.1@ == Seq::<char>::empty()
    &&& c.rel_time@ == spec_time_display(e.created_utc as int)
    &&& c.created@ == Seq::<char>::empty()
    &&& c.edited.0@ == Seq::<char>::empty()
    &&& c.edited.1@ == Seq::<char>::empty()
    &&& c.replies@.len() == e.replies@.len()
    &&& forall|i: int|
        0 <= i < e.replies@.len() ==> comment_from_entry(
            #[trigger] c.replies@[i],
            e.replies@[i],
            subm,
        )
    &&& c.highlighted == e.stickied
    &&& c.collapsed == false
    &&& c.is_filtered == false
    &&& c.awards@.len() == 0
    &&& c.more_count == 0
    &&& c.prefs.spec_is_default()
}

impl SubmissionArchiveEntry {
    /// The media reference of this entry: its URL, no dimensions.
    fn entry_media(&self) -> (m: Media)
        ensures
            media_from_entry(m, *self),
    {
        Media {
            url: self.url.clone(),
            alt_url: self.url.clone(),
            width: 0,
            height: 0,
            poster: self.author.clone(),
            download_name: String::new(),
        }
    }

    /// Decodes this archival submission into a canonical post. This never
    /// errors: a timestamp that cannot be rendered as a date falls back to
    /// its raw decimal form.
    pub fn to_post(&self) -> (r: Result<Post, CoreError>)
        ensures
            r is Ok,
            post_from_entry(r->Ok_0, *self),
    {
        let created_display = time_display(self.created_utc);
        let created_ts: u64 = if self.created_utc >= 0 {
            self.created_utc as u64
        } else {
            0
        };
        Ok(
            Post {
                title: self.title.clone(),
                ws_url: self.url.clone(),
                body: self.selftext_formatted.clone(),
                score: StrPair(i64_to_string(self.score), String::new()),
                upvote_ratio: self.upvote_ratio,
                permalink: self.permalink.clone(),
                id: self.id.clone(),
                community: String::new(),
                author: Author {
                    name: self.author.clone(),
                    flair: Flair::default(),
                    distinguished: String::new(),
                },
                link_title: self.link_flair_text.clone(),
                post_type: String::from_str("link"),
                flags: Flags { nsfw: self.over_18, spoiler: self.spoiler, stickied: self.pinned },
                thumbnail: self.entry_media(),
                media: self.entry_media(),
                domain: String::new(),
                rel_time: created_display.clone(),
                created: created_display,
                created_ts,
                comments: StrPair(String::new(), String::new()),
                gallery: Vec::new(),
                awards: Vec::new(),
            },
        )
    }

    /// Decodes the threaded replies of this entry. Fails, reporting the
    /// malformed record, exactly when some reply's parent id is not a
    /// well-formed fullname; one bad record never panics the decode.
    pub fn comments(&self) -> (r: Result<Vec<Comment>, CoreError>)
        ensures
            r is Ok <==> (forall|i: int|
                0 <= i < self.comments@.len() ==> parents_wellformed(#[trigger] self.comments@[i])),
            r is Ok ==> r->Ok_0@.len() == self.comments@.len(),
            r is Ok ==> forall|i: int|
                0 <= i < self.comments@.len() ==> comment_from_entry(
                    #[trigger] r->Ok_0@[i],
                    self.comments@[i],
                    *self,
                ),
    {
        let mut out: Vec<Comment> = Vec::new();
        let mut i: usize = 0;
        while i < self.comments.len()
            invariant
                i <= self.comments@.len(),
                out@.len() == i,
                forall|j: int| 0 <= j < i ==> parents_wellformed(#[trigger] self.comments@[j]),
                forall|j: int|
                    0 <= j < i ==> comment_from_entry(
                        #[trigger] out@[j],
                        self.comments@[j],
                        *self,
                    ),
            decreases self.comments@.len() - i,
        {
            match self.comments[i].to_comment(self) {
                Ok(c) => out.push(c),
                Err(err) => {
                    return Err(err);
                },
            }
            i += 1;
        }
        Ok(out)
    }
}

impl CommentArchiveEntry {
    /// Decodes this archival reply and all of its nested replies into a
    /// comment tree of matching shape. Fails, with an explicit error rather
    /// than a panic, exactly when a parent id in the tree is not a
    /// well-formed fullname.
    pub fn to_comment(&self, subm: &SubmissionArchiveEntry) -> (r: Result<Comment, CoreError>)
        ensures
            r is Ok <==> parents_wellformed(*self),
            r is Ok ==> comment_from_entry(r->Ok_0, *self, *subm),
        decreases *self,
    {
        let parent_kind = match Fullname::parse(self.parent_id.as_str()) {
            Some(f) => f.kind,
            None => {
                return Err(CoreError::MalformedParentId);
            },
        };
        let mut children: Vec<Comment> = Vec::new();
        let mut i: usize = 0;
        while i < self.replies.len()
            invariant
                i <= self.replies@.len(),
                children@.len() == i,
                forall|j: int| 0 <= j < i ==> parents_wellformed(#[trigger] self.replies@[j]),
                forall|j: int|
                    0 <= j < i ==> comment_from_entry(
                        #[trigger] children@[j],
                        self.replies@[j],
                        *subm,
                    ),
            decreases self.replies@.len() - i,
        {
            proof {
                assert(decreases_to!(self.replies@ => self.replies@[i as int]));
            }
            match self.replies[i].to_comment(subm) {
                Ok(c) => children.push(c),
                Err(err) => {
                    return Err(err);
                },
            }
            i += 1;
        }
        let flair_text = match &self.author_flair {
            Some(f) => f.clone(),
            None => String::new(),
        };
        let distinguished = match &self.distinguished {
            Some(d) => d.clone(),
            None => String::new(),
        };
        Ok(
            Comment {
                id: self.id.clone(),
                kind: String::from_str(ThingKind::Comment.tag()),
                parent_id: self.parent_id.clone(),
                parent_kind: String::from_str(parent_kind.tag()),
                post_link: subm.permalink.clone(),
                post_author: subm.author.clone(),
                body: self.body.clone(),
                author: Author {
                    name: self.author.clone(),
                    flair: Flair {
                        flair_parts: Vec::new(),
                        text: flair_text,
                        background_color: String::new(),
                        foreground_color: String::new(),
                    },
                    distinguished,
                },
                score: StrPair(i64_to_string(self.score), String::new()),
                rel_time: time_display(self.created_utc),
                created: String::new(),
                edited: StrPair(String::new(), String::new()),
                replies: children,
                highlighted: self.stickied,
                collapsed: false,
                is_filtered: false,
                awards: Vec::new(),
                more_count: 0,
                prefs: Preferences::default(),
            },
        )
    }
}

/// True when `e` is the archival reply record that encoding `c` within
/// `post` yields. Encoding is lossy: the creation instant is not recoverable
/// from a comment's display strings, so `created_utc` is zero; the score is
/// recovered by parsing the display value, defaulting to zero.
pub open spec fn entry_from_comment(e: CommentArchiveEntry, c: Comment, post: Post) -> bool
    decreases c,
{
    &&& e.author@ == c.author.name@
    &&& e.id@ == c.id@
    &&& e.score as int == spec_parse_i64_or_zero(c.score.0@)
    &&& opt_from_string(e.author_flair, c.author.flair.text@)
    &&& e.submission@ == post.id@
    &&& e.stickied == c.highlighted
    &&& e.body@ == c.body@
    &&& e.is_submitter == (c.author.name@ == post.author.name@)
    &&& opt_from_string(e.distinguished, c.author.distinguished@)
    &&& e.created_utc == 0
    &&& e.parent_id@ == c.parent_id@
    &&& e.replies@.len() == c.replies@.len()
    &&& forall|i: int|
        0 <= i < c.replies@.len() ==> entry_from_comment(
            #[trigger] e.replies@[i],
            c.replies@[i],
            post,
        )
}

/// True when `e` is the archival submission record that encoding `post` with
/// its comment list yields. Lossy: fields the archival schema cannot
/// represent are dropped; the raw selftext slot receives the already
/// formatted body, the formatting step not being invertible; the score is
/// recovered by parsing the display value, defaulting to zero; counts and
/// timestamps saturate at the 64-bit signed maximum.
pub open spec fn entry_from_post(e: SubmissionArchiveEntry, post: Post, cs: Seq<Comment>) -> bool {
    &&& e.title@ == post.title@
    &&& e.name@ == (Fullname { kind: ThingKind::Link, id: post.id }).spec_format()
    &&& e.url@ == post.ws_url@
    &&& e.selftext@ == post.body@
    &&& e.selftext_formatted@ == post.body@
    &&& e.score as int == spec_parse_i64_or_zero(post.score.0@)
    &&& e.upvote_ratio == post.upvote_ratio
    &&& e.permalink@ == post.permalink@
    &&& e.id@ == post.id@
    &&& e.author@ == post.author.name@
    &&& e.link_flair_text@ == post.link_title@
    &&& e.num_comments as int == if cs.len() > i64::MAX {
        i64::MAX as int
    } else {
        cs.len() as int
    }
    &&& e.over_18 == post.flags.nsfw
    &&& e.spoiler == post.flags.spoiler
    &&& e.pinned == post.flags.stickied
    &&& e.locked == false
    &&& opt_from_string(e.distinguished, post.author.distinguished@)
    &&& e.created_utc as int == if post.created_ts > i64::MAX {
        i64::MAX as int
    } else {
        post.created_ts as int
    }
    &&& e.comments@.len() == cs.len()
    &&& forall|i: int|
        0 <= i < cs.len() ==> entry_from_comment(#[trigger] e.comments@[i], cs[i], post)
}

impl CommentArchiveEntry {
    /// Encodes a canonical comment back into an archival reply record; the
    /// lossy reverse of decoding.
    pub fn from_comment(c: &Comment, post: &Post) -> (r: CommentArchiveEntry)
        ensures
            entry_from_comment(r, *c, *post),
        decreases *c,
    {
        let mut replies: Vec<CommentArchiveEntry> = Vec::new();
        let mut i: usize = 0;
        while i < c.replies.len()
            invariant
                i <= c.replies@.len(),
                replies@.len() == i,
                forall|j: int|
                    0 <= j < i ==> entry_from_comment(
                        #[trigger] replies@[j],
                        c.replies@[j],
                        *post,
                    ),
            decreases c.replies@.len() - i,
        {
            proof {
                assert(decreases_to!(c.replies@ => c.replies@[i as int]));
            }
            let entry = Self::from_comment(&c.replies[i], post);
            replies.push(entry);
            i += 1;
        }
        let author_flair = if c.author.flair.text.as_str().is_empty() {
            None
        } else {
            Some(c.author.flair.text.clone())
        };
        let distinguished = if c.author.distinguished.as_str().is_empty() {
            None
        } else {
            Some(c.author.distinguished.clone())
        };
        CommentArchiveEntry {
            author: c.author.name.clone(),
            id: c.id.clone(),
            score: parse_i64_or_zero(c.score.0.as_str()),
            author_flair,
            submission: post.id.clone(),
            stickied: c.highlighted,
            body: c.body.clone(),
            is_submitter: str_eq(c.author.name.as_str(), post.author.name.as_str()),
            distinguished,
            created_utc: 0,
            parent_id: c.parent_id.clone(),
            replies,
        }
    }
}

impl SubmissionArchiveEntry {
    /// Encodes a canonical post and its comment list back into an archival
    /// submission record; the lossy reverse of decoding.
    pub fn from_post(post: &Post, comments: &Vec<Comment>) -> (r: SubmissionArchiveEntry)
        ensures
            entry_from_post(r, *post, comments@),
    {
        let mut replies: Vec<CommentArchiveEntry> = Vec::new();
        let mut i: usize = 0;
        while i < comments.len()
            invariant
                i <= comments@.len(),
                replies@.len() == i,
                forall|j: int|
                    0 <= j < i ==> entry_from_comment(
                        #[trigger] replies@[j],
                        comments@[j],
                        *post,
                    ),
            decreases comments@.len() - i,
        {
            let entry = CommentArchiveEntry::from_comment(&comments[i], post);
            replies.push(entry);
            i += 1;
        }
        let num_comments: i64 = if comments.len() as u64 > i64::MAX as u64 {
            i64::MAX
        } else {
            comments.len() as i64
        };
        let created_utc: i64 = if post.created_ts > i64::MAX as u64 {
            i64::MAX
        } else {
            post.created_ts as i64
        };
        let name = (Fullname { kind: ThingKind::Link, id: post.id.clone() }).format();
        let distinguished = if post.author.distinguished.as_str().is_empty() {
            None
        } else {
            Some(post.author.distinguished.clone())
        };
        SubmissionArchiveEntry {
            title: post.title.clone(),
            name,
            url: post.ws_url.clone(),
            selftext: post.body.clone(),
            selftext_formatted: post.body.clone(),
            score: parse_i64_or_zero(post.score.0.as_str()),
            upvote_ratio: post.upvote_ratio,
            permalink: post.permalink.clone(),
            id: post.id.clone(),
            author: post.author.name.clone(),
            link_flair_text: post.link_title.clone(),
            num_comments,
            over_18: post.flags.nsfw,
            spoiler: post.flags.spoiler,
            pinned: post.flags.stickied,
            locked: false,
            distinguished,
            created_utc,
            comments: replies,
        }
    }
}

/// True when a post holds only what the archival schema can represent: a
/// canonical decimal score display with an empty qualifier, default values
/// for the fields the schema has no slot for, media built from the post's
/// own URL, and creation displays derived from the raw timestamp.
pub open spec fn post_archival_representable(p: Post) -> bool {
    &&& spec_parse_i64(p.score.0@) is Some
    &&& p.score.0@ == spec_i64_digits(spec_parse_i64(p.score.0@).unwrap())
    &&& p.score.1@ == Seq::<char>::empty()
    &&& p.community@ == Seq::<char>::empty()
    &&& p.author.flair.spec_is_empty()
    &&& p.author.distinguished@ == Seq::<char>::empty()
    &&& p.post_type@ == "link"@
    &&& p.media.url@ == p.ws_url@
    &&& p.media.alt_url@ == p.ws_url@
    &&& p.media.width == 0
    &&& p.media.height == 0
    &&& p.media.poster@ == p.author.name@
    &&& p.media.download_name@ == Seq::<char>::empty()
    &&& p.thumbnail.url@ == p.ws_url@
    &&& p.thumbnail.alt_url@ == p.ws_url@
    &&& p.thumbnail.width == 0
    &&& p.thumbnail.height == 0
    &&& p.thumbnail.poster@ == p.author.name@
    &&& p.thumbnail.download_name@ == Seq::<char>::empty()
    &&& p.domain@ == Seq::<char>::empty()
    &&& p.created_ts <= i64::MAX
    &&& p.rel_time@ == spec_time_display(p.created_ts as int)
    &&& p.created@ == spec_time_display(p.created_ts as int)
    &&& p.comments.0@ == Seq::<char>::empty()
    &&& p.comments.1@ == Seq::<char>::empty()
    &&& p.gallery@.len() == 0
    &&& p.awards@.len() == 0
}

/// True when a comment of `post` holds only what the archival reply schema
/// can represent: a plain comment kind, a well-formed parent fullname with
/// the matching kind tag, a canonical decimal score display, plain flair
/// text, and defaults everywhere the schema has no slot.
pub open spec fn comment_archival_representable(c: Comment, post: Post) -> bool
    decreases c,
{
    &&& c.kind@ == ThingKind::Comment.spec_tag()
    &&& Fullname::spec_parse(c.parent_id@) is Some
    &&& c.parent_kind@ == Fullname::spec_parse(c.parent_id@).unwrap().0.spec_tag()
    &&& c.post_link@ == post.permalink@
    &&& c.post_author@ == post.author.name@
    &&& spec_parse_i64(c.score.0@) is Some
    &&& c.score.0@ == spec_i64_digits(spec_parse_i64(c.score.0@).unwrap())
    &&& c.score.1@ == Seq::<char>::empty()
    &&& c.author.flair.flair_parts@.len() == 0
    &&& c.author.flair.background_color@ == Seq::<char>::empty()
    &&& c.author.flair.foreground_color@ == Seq::<char>::empty()
    &&& c.created@ == Seq::<char>::empty()
    &&& c.edited.0@ == Seq::<char>::empty()
    &&& c.edited.1@ == Seq::<char>::empty()
    &&& c.collapsed == false
    &&& c.is_filtered == false
    &&& c.more_count == 0
    &&& c.awards@.len() == 0
    &&& c.prefs.spec_is_default()
    &&& forall|i: int|
        0 <= i < c.replies@.len() ==> comment_archival_representable(
            #[trigger] c.replies@[i],
            post,
        )
}

/// Field-by-field view equality of two posts.
pub open spec fn post_view_eq(a: Post, b: Post) -> bool {
    &&& a.title@ == b.title@
    &&& a.ws_url@ == b.ws_url@
    &&& a.body@ == b.body@
    &&& a.score.0@ == b.score.0@
    &&& a.score.1@ == b.score.1@
    &&& a.upvote_ratio == b.upvote_ratio
    &&& a.permalink@ == b.permalink@
    &&& a.id@ == b.id@
    &&& a.community@ == b.community@
    &&& author_view_eq(a.author, b.author)
    &&& a.link_title@ == b.link_title@
    &&& a.post_type@ == b.post_type@
    &&& a.flags == b.flags
    &&& media_view_eq(a.thumbnail, b.thumbnail)
    &&& media_view_eq(a.media, b.media)
    &&& a.domain@ == b.domain@
    &&& a.rel_time@ == b.rel_time@
    &&& a.created@ == b.created@
    &&& a.created_ts == b.created_ts
    &&& a.comments.0@ == b.comments.0@
    &&& a.comments.1@ == b.comments.1@
    &&& a.gallery@.len() == b.gallery@.len()
    &&& a.awards@.len() == b.awards@.len()
}

/// Field-by-field view equality of two comment trees, except the relative
/// creation display: the archival schema keeps a comment's creation instant
/// only as a number, which the canonical model does not carry, so that one
/// display is not recoverable by the reverse conversion.
pub open spec fn comment_view_eq_except_time(a: Comment, b: Comment) -> bool
    decreases b,
{
    &&& a.id@ == b.id@
    &&& a.kind@ == b.kind@
    &&& a.parent_id@ == b.parent_id@
    &&& a.parent_kind@ == b.parent_kind@
    &&& a.post_link@ == b.post_link@
    &&& a.post_author@ == b.post_author@
    &&& a.body@ == b.body@
    &&& author_view_eq(a.author, b.author)
    &&& a.score.0@ == b.score.0@
    &&& a.score.1@ == b.score.1@
    &&& a.created@ == b.created@
    &&& a.edited.0@ == b.edited.0@
    &&& a.edited.1@ == b.edited.1@
    &&& a.replies@.len() == b.replies@.len()
    &&& forall|i: int|
        0 <= i < b.replies@.len() ==> comment_view_eq_except_time(
            #[trigger] a.replies@[i],
            b.replies@[i],
        )
    &&& a.highlighted == b.highlighted
    &&& a.collapsed == b.collapsed
    &&& a.is_filtered == b.is_filtered
    &&& a.awards@.len() == b.awards@.len()
    &&& a.more_count == b.more_count
    &&& prefs_view_eq(a.prefs, b.prefs)
}

/// Law: encoding a representable comment of `post` into an archival reply
/// record and decoding that record back yields the comment again on every
/// field the archival schema carries.
pub proof fn lemma_comment_round_trip(
    c: Comment,
    e: CommentArchiveEntry,
    c2: Comment,
    post: Post,
    subm: SubmissionArchiveEntry,
)
    requires
        comment_archival_representable(c, post),
        entry_from_comment(e, c, post),
        comment_from_entry(c2, e, subm),
        subm.permalink@ == post.permalink@,
        subm.author@ == post.author.name@,
    ensures
        comment_view_eq_except_time(c2, c),
    decreases c,
{
    if e.author_flair is None {
        assert(c.author.flair.text@ =~= Seq::<char>::empty());
    }
    if e.distinguished is None {
        assert(c.author.distinguished@ =~= Seq::<char>::empty());
    }
    assert forall|i: int| 0 <= i < c.replies@.len() implies comment_view_eq_except_time(
        #[trigger] c2.replies@[i],
        c.replies@[i],
    ) by {
        lemma_comment_round_trip(c.replies@[i], e.replies@[i], c2.replies@[i], post, subm);
    }
}

/// Law: encoding a post built purely from archival-representable fields,
/// together with its representable comments, and decoding the resulting
/// archival record back reproduces every field the archival schema carries:
/// the whole post, and each comment but for its relative-time display.
pub proof fn lemma_archive_round_trip(
    p: Post,
    cs: Seq<Comment>,
    e: SubmissionArchiveEntry,
    p2: Post,
    cs2: Seq<Comment>,
)
    requires
        post_archival_representable(p),
        forall|i: int| 0 <= i < cs.len() ==> comment_archival_representable(#[trigger] cs[i], p),
        entry_from_post(e, p, cs),
        post_from_entry(p2, e),
        cs2.len() == cs.len(),
        forall|i: int|
            0 <= i < cs.len() ==> comment_from_entry(#[trigger] cs2[i], e.comments@[i], e),
    ensures
        post_view_eq(p2, p),
        forall|i: int|
            0 <= i < cs.len() ==> comment_view_eq_except_time(#[trigger] cs2[i], cs[i]),
{
    assert(post_view_eq(p2, p));
    assert forall|i: int| 0 <= i < cs.len() implies comment_view_eq_except_time(
        #[trigger] cs2[i],
        cs[i],
    ) by {
        assert(entry_from_comment(e.comments@[i], cs[i], p));
        lemma_comment_round_trip(cs[i], e.comments@[i], cs2[i], p, e);
    }
}

} // verus!
