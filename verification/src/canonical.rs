//! Canonical model: the unified value types that both adapters produce and
//! that the tree query engine and the render adapter consume. Values are
//! immutable snapshots: adapters only build new ones, never mutate.

use vstd::prelude::*;

verus! {

/// Errors of the adapters and path helpers.
#[derive(Debug, Clone, Copy, PartialEq, Eq, Structural)]
pub enum CoreError {
    /// A parent id that is not a well-formed fullname.
    MalformedParentId,
    /// A path with no usable file name.
    InvalidFileName,
    /// A recognized input format that this build does not decode.
    UnsupportedFormat,
}

/// A pair of display strings, such as a score value with its qualifier or a
/// relative time with its absolute form.
#[derive(Debug, Clone, PartialEq)]
pub struct StrPair(pub String, pub String);

/// One part of a structured flair: its type tag and its value.
#[derive(Debug, Clone, PartialEq)]
pub struct FlairPart {
    pub flair_part_type: String,
    pub value: String,
}

/// Field-by-field view equality of two flair parts.
pub open spec fn flair_part_view_eq(a: FlairPart, b: FlairPart) -> bool {
    &&& a.flair_part_type@ == b.flair_part_type@
    &&& a.value@ == b.value@
}

/// Copies a list of flair parts, preserving every part's contents and order.
pub fn clone_flair_parts(v: &Vec<FlairPart>) -> (r: Vec<FlairPart>)
    ensures
        r@.len() == v@.len(),
        forall|i: int| 0 <= i < v@.len() ==> flair_part_view_eq(#[trigger] r@[i], v@[i]),
{
    let mut out: Vec<FlairPart> = Vec::new();
    let mut i: usize = 0;
    while i < v.len()
        invariant
            i <= v@.len(),
            out@.len() == i,
            forall|j: int| 0 <= j < i ==> flair_part_view_eq(#[trigger] out@[j], v@[j]),
        decreases v@.len() - i,
    {
        out.push(
            FlairPart {
                flair_part_type: v[i].flair_part_type.clone(),
                value: v[i].value.clone(),
            },
        );
        i += 1;
    }
    out
}

/// A flair: structured parts, plain text, and its two colors.
#[derive(Debug, Clone, PartialEq)]
pub struct Flair {
    pub flair_parts: Vec<FlairPart>,
    pub text: String,
    pub background_color: String,
    pub foreground_color: String,
}

impl Flair {
    /// True when the flair carries nothing: no parts, empty text and colors.
    pub open spec fn spec_is_empty(self) -> bool {
        &&& self.flair_parts@.len() == 0
        &&& self.text@ == Seq::<char>::empty()
        &&& self.background_color@ == Seq::<char>::empty()
        &&& self.foreground_color@ == Seq::<char>::empty()
    }
}

impl Default for Flair {
    /// An empty flair.
    fn default() -> (r: Flair)
        ensures
            r.spec_is_empty(),
    {
        Flair {
            flair_parts: Vec::new(),
            text: String::new(),
            background_color: String::new(),
            foreground_color: String::new(),
        }
    }
}

/// An author: name, flair, and distinguished marker (empty string = none).
#[derive(Debug, Clone, PartialEq)]
pub struct Author {
    pub name: String,
    pub flair: Flair,
    pub distinguished: String,
}

/// A media reference.
#[derive(Debug, Clone, PartialEq)]
pub struct Media {
    pub url: String,
    pub alt_url: String,
    pub width: i64,
    pub height: i64,
    pub poster: String,
    pub download_name: String,
}

/// One gallery item of a post.
#[derive(Debug, Clone, PartialEq)]
pub struct GalleryMedia {
    pub url: String,
    pub width: i64,
    pub height: i64,
    pub caption: String,
    pub outbound_url: String,
}

/// An award attached to a post or comment.
#[derive(Debug, Clone, PartialEq)]
pub struct Award {
    pub name: String,
    pub icon_url: String,
    pub description: String,
    pub count: i64,
}

/// Field-by-field view equality of two awards.
pub open spec fn award_view_eq(a: Award, b: Award) -> bool {
    &&& a.name@ == b.name@
    &&& a.icon_url@ == b.icon_url@
    &&& a.description@ == b.description@
    &&& a.count == b.count
}

/// Copies a list of awards, preserving every award's contents and order.
pub fn clone_awards(v: &Vec<Award>) -> (r: Vec<Award>)
    ensures
        r@.len() == v@.len(),
        forall|i: int| 0 <= i < v@.len() ==> award_view_eq(#[trigger] r@[i], v@[i]),
{
    let mut out: Vec<Award> = Vec::new();
    let mut i: usize = 0;
    while i < v.len()
        invariant
            i <= v@.len(),
            out@.len() == i,
            forall|j: int| 0 <= j < i ==> award_view_eq(#[trigger] out@[j], v@[j]),
        decreases v@.len() - i,
    {
        out.push(
            Award {
                name: v[i].name.clone(),
                icon_url: v[i].icon_url.clone(),
                description: v[i].description.clone(),
                count: v[i].count,
            },
        );
        i += 1;
    }
    out
}

/// Content flags of a post.
#[derive(Debug, Clone, Copy, PartialEq, Eq, Structural)]
pub struct Flags {
    pub nsfw: bool,
    pub spoiler: bool,
    pub stickied: bool,
}

/// A snapshot of view preferences, consumed by the external renderer.
#[derive(Debug, Clone, PartialEq)]
pub struct Preferences {
    pub theme: String,
    pub comment_sort: String,
    pub show_nsfw: String,
    pub blur_nsfw: String,
    pub hide_awards: String,
    pub static_path: String,
    pub disable_visit_reddit_confirmation: String,
}

impl Preferences {
    /// True when every preference holds its empty default.
    pub open spec fn spec_is_default(self) -> bool {
        &&& self.theme@ == Seq::<char>::empty()
        &&& self.comment_sort@ == Seq::<char>::empty()
        &&& self.show_nsfw@ == Seq::<char>::empty()
        &&& self.blur_nsfw@ == Seq::<char>::empty()
        &&& self.hide_awards@ == Seq::<char>::empty()
        &&& self.static_path@ == Seq::<char>::empty()
        &&& self.disable_visit_reddit_confirmation@ == Seq::<char>::empty()
    }
}

impl Default for Preferences {
    /// All preferences empty.
    fn default() -> (r: Preferences)
        ensures
            r.spec_is_default(),
    {
        Preferences {
            theme: String::new(),
            comment_sort: String::new(),
            show_nsfw: String::new(),
            blur_nsfw: String::new(),
            hide_awards: String::new(),
            static_path: String::new(),
            disable_visit_reddit_confirmation: String::new(),
        }
    }
}

/// The root item of a thread.
#[derive(Debug, Clone, PartialEq)]
pub struct Post {
    pub title: String,
    /// Canonical URL of the item at its source.
    pub ws_url: String,
    pub body: String,
    /// Score display pair: value, and a qualifier used when the score is
    /// hidden.
    pub score: StrPair,
    pub upvote_ratio: i64,
    /// Caller-assignable link to the post; the batch path overwrites it with
    /// the output file name.
    pub permalink: String,
    pub id: String,
    pub community: String,
    pub author: Author,
    /// Link flair text.
    pub link_title: String,
    /// Post type tag, e.g. `"link"`.
    pub post_type: String,
    pub flags: Flags,
    pub thumbnail: Media,
    pub media: Media,
    pub domain: String,
    /// Relative display form of the creation instant.
    pub rel_time: String,
    /// Absolute display form of the creation instant.
    pub created: String,
    /// Raw creation timestamp, seconds since the Unix epoch.
    pub created_ts: u64,
    /// Comment count display pair.
    pub comments: StrPair,
    pub gallery: Vec<GalleryMedia>,
    pub awards: Vec<Award>,
}

/// One threaded reply. Each comment exclusively owns its children; the
/// `parent_id`, `post_link` and `post_author` strings are denormalized data
/// copies, not live references.
#[derive(Debug, PartialEq)]
pub struct Comment {
    pub id: String,
    /// Kind tag of this node, e.g. `"t1"`, or `"more"` for a truncation stub.
    pub kind: String,
    pub parent_id: String,
    pub parent_kind: String,
    /// Permalink of the owning post.
    pub post_link: String,
    /// Author name of the owning post.
    pub post_author: String,
    pub body: String,
    pub author: Author,
    /// Score display pair: value, and a qualifier used when the score is
    /// hidden.
    pub score: StrPair,
    pub rel_time: String,
    pub created: String,
    /// Edited display pair; both parts empty when never edited.
    pub edited: StrPair,
    /// Child comments, in source order.
    pub replies: Vec<Comment>,
    pub highlighted: bool,
    pub collapsed: bool,
    pub is_filtered: bool,
    pub awards: Vec<Award>,
    /// Advisory count of unfetched descendants of a truncation stub; the
    /// source is known to sometimes misreport it, and it is never validated.
    pub more_count: i64,
    pub prefs: Preferences,
}

/// Field-by-field view equality of two flairs.
pub open spec fn flair_view_eq(a: Flair, b: Flair) -> bool {
    &&& a.flair_parts@.len() == b.flair_parts@.len()
    &&& a.text@ == b.text@
    &&& a.background_color@ == b.background_color@
    &&& a.foreground_color@ == b.foreground_color@
}

/// Field-by-field view equality of two authors.
pub open spec fn author_view_eq(a: Author, b: Author) -> bool {
    &&& a.name@ == b.name@
    &&& flair_view_eq(a.flair, b.flair)
    &&& a.distinguished@ == b.distinguished@
}

/// Field-by-field view equality of two media references.
pub open spec fn media_view_eq(a: Media, b: Media) -> bool {
    &&& a.url@ == b.url@
    &&& a.alt_url@ == b.alt_url@
    &&& a.width == b.width
    &&& a.height == b.height
    &&& a.poster@ == b.poster@
    &&& a.download_name@ == b.download_name@
}

/// Field-by-field view equality of two preference snapshots.
pub open spec fn prefs_view_eq(a: Preferences, b: Preferences) -> bool {
    &&& a.theme@ == b.theme@
    &&& a.comment_sort@ == b.comment_sort@
    &&& a.show_nsfw@ == b.show_nsfw@
    &&& a.blur_nsfw@ == b.blur_nsfw@
    &&& a.hide_awards@ == b.hide_awards@
    &&& a.static_path@ == b.static_path@
    &&& a.disable_visit_reddit_confirmation@ == b.disable_visit_reddit_confirmation@
}

/// Copies a preference snapshot, preserving every field.
pub fn clone_prefs(p: &Preferences) -> (r: Preferences)
    ensures
        prefs_view_eq(r, *p),
{
    Preferences {
        theme: p.theme.clone(),
        comment_sort: p.comment_sort.clone(),
        show_nsfw: p.show_nsfw.clone(),
        blur_nsfw: p.blur_nsfw.clone(),
        hide_awards: p.hide_awards.clone(),
        static_path: p.static_path.clone(),
        disable_visit_reddit_confirmation: p.disable_visit_reddit_confirmation.clone(),
    }
}

} // verus!
