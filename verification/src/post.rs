//! Live adapter and tree query engine: decodes one thread of the live nested
//! listing format — already lifted into the explicit `RawComment` schema —
//! into canonical comments, in full hierarchical mode or in flattened
//! substring-search mode, and assembles the render-ready value.

use vstd::prelude::*;

use crate::canonical::{
    award_view_eq, clone_awards, clone_flair_parts, clone_prefs, flair_part_view_eq,
    prefs_view_eq, Author, Award, Comment, Flair, FlairPart, Post, Preferences, StrPair,
};
use crate::strings::{
    find_char, find_first_sub, find_last_sub, lower_of, lowercase, replace_all,
    spec_contains_seq, spec_find_char, spec_find_first_sub, spec_find_last_sub, spec_replace,
    spec_split_char, spec_trim_end, split_char, str_contains, str_eq, substr_at,
    trim_end_matches,
};

verus! {

/// One node of the live nested listing, decoded against an explicit schema.
/// Absent fields hold their defaults: empty strings, `false`, zero, `None`,
/// empty lists; a leaf has no replies. The display fields (`body_rendered`,
/// `score_display`, `rel_time`, `created`, `edited`, `flair_parts`, `awards`)
/// are computed by the external collaborators — emote rewriting, score
/// abbreviation, relative-time formatting, flair and award parsing — and
/// handed in alongside the raw values the decode rules read.
#[derive(Debug, PartialEq)]
pub struct RawComment {
    /// Kind tag of the node, e.g. `"t1"`, or `"more"` for a truncation stub.
    pub kind: String,
    pub id: String,
    pub author: String,
    /// Raw body text, read by the removed-comment rule.
    pub body: String,
    /// The body after the external emote-rewriting step.
    pub body_rendered: String,
    /// Structured flair parts, parsed by the external collaborator.
    pub flair_parts: Vec<FlairPart>,
    pub link_flair_text: String,
    pub author_flair_background_color: String,
    pub author_flair_text_color: String,
    pub distinguished: String,
    pub stickied: bool,
    pub score_hidden: bool,
    /// Magnitude-abbreviated score, from the external collaborator.
    pub score_display: String,
    /// Relative display of the creation instant, from the external
    /// collaborator.
    pub rel_time: String,
    /// Absolute display of the creation instant, from the external
    /// collaborator.
    pub created: String,
    /// Display pair of the edit instant; `None` when the node was never
    /// edited.
    pub edited: Option<StrPair>,
    /// Fullname of the parent, e.g. `"t3_abc"`.
    pub parent_id: String,
    /// Advisory count carried by a truncation stub; zero when absent. The
    /// upstream value is known to sometimes misreport and is never validated.
    pub count: i64,
    /// Awards, parsed by the external collaborator.
    pub awards: Vec<Award>,
    /// Nested replies; empty for a leaf.
    pub replies: Vec<RawComment>,
}

/// True when the removed-comment rule applies to the node: the author reads
/// `"[deleted]"` with body `"[removed]"`, or the body is the fixed removal
/// notice.
pub open spec fn spec_is_removed(raw: RawComment) -> bool {
    (raw.author@ == "[deleted]"@ && raw.body@ == "[removed]"@) || raw.body@
        == "[ Removed by Reddit ]"@
}

/// The fixed placeholder body of a removed comment: a link into an external
/// archive viewer for the comment's id, built from the configured base
/// domain.
pub open spec fn spec_removed_body(base: Seq<char>, post_link: Seq<char>, id: Seq<char>) -> Seq<
    char,
> {
    "<div class=\"md\"><p>[removed] \u{2014} <a href=\"https://"@ + base + post_link + id
        + "\">view removed comment</a></p></div>"@
}

/// The decoded body of a node: the removal placeholder when the
/// removed-comment rule applies, the emote-rewritten body otherwise.
pub open spec fn spec_comment_body(raw: RawComment, base: Seq<char>, post_link: Seq<char>) -> Seq<
    char,
> {
    if spec_is_removed(raw) {
        spec_removed_body(base, post_link, raw.id@)
    } else {
        raw.body_rendered@
    }
}

/// The kind part of a naive underscore split of a parent fullname: the
/// characters before the first underscore, or empty when there is none (the
/// parent linkage is then unknown, and decode continues).
pub open spec fn spec_parent_kind(s: Seq<char>) -> Seq<char> {
    match spec_find_char(s, '_') {
        Some(i) => s.subrange(0, i),
        None => Seq::empty(),
    }
}

/// The id part of a naive underscore split of a parent fullname: the
/// characters between the first underscore and the second one or the end, or
/// empty when there is no underscore.
pub open spec fn spec_parent_id(s: Seq<char>) -> Seq<char> {
    match spec_find_char(s, '_') {
        Some(i) => {
            let rest = s.skip(i + 1);
            match spec_find_char(rest, '_') {
                Some(j) => rest.subrange(0, j),
                None => rest,
            }
        },
        None => Seq::empty(),
    }
}

/// True when some string in `v` holds exactly the characters `s`.
pub open spec fn spec_contains_string(v: Seq<String>, s: Seq<char>) -> bool {
    exists|i: int| 0 <= i < v.len() && #[trigger] v[i]@ == s
}

/// Membership test of a string in a filter list.
pub fn contains_string(v: &Vec<String>, s: &str) -> (r: bool)
    ensures
        r == spec_contains_string(v@, s@),
{
    let mut i: usize = 0;
    while i < v.len()
        invariant
            i <= v@.len(),
            forall|j: int| 0 <= j < i ==> #[trigger] v@[j]@ != s@,
        decreases v@.len() - i,
    {
        if str_eq(v[i].as_str(), s) {
            return true;
        }
        i += 1;
    }
    false
}

/// True when `c` is the comment that decoding the node `raw` yields, with
/// the given children: body by the removed-comment rule or the rewritten
/// body; score display a fixed glyph and the word `"Hidden"` when hidden,
/// else the abbreviated value with an empty qualifier; parent linkage by
/// naive underscore split; highlight when the node is the one navigated to;
/// filtering by the `"u_"`-prefixed author name; collapse for stickied
/// moderator comments and filtered ones.
pub open spec fn comment_built_from(
    c: Comment,
    raw: RawComment,
    children: Seq<Comment>,
    post_link: Seq<char>,
    post_author: Seq<char>,
    highlighted_comment: Seq<char>,
    filters: Seq<String>,
    archive_base: Seq<char>,
    prefs: Preferences,
) -> bool {
    &&& c.id@ == raw.id@
    &&& c.kind@ == raw.kind@
    &&& c.parent_kind@ == spec_parent_kind(raw.parent_id@)
    &&& c.parent_id@ == spec_parent_id(raw.parent_id@)
    &&& c.post_link@ == post_link
    &&& c.post_author@ == post_author
    &&& c.body@ == spec_comment_body(raw, archive_base, post_link)
    &&& c.author.name@ == raw.author@
    &&& c.author.flair.flair_parts@.len() == raw.flair_parts@.len()
    &&& forall|i: int|
        0 <= i < raw.flair_parts@.len() ==> flair_part_view_eq(
            #[trigger] c.author.flair.flair_parts@[i],
            raw.flair_parts@[i],
        )
    &&& c.author.flair.text@ == raw.link_flair_text@
    &&& c.author.flair.background_color@ == raw.author_flair_background_color@
    &&& c.author.flair.foreground_color@ == raw.author_flair_text_color@
    &&& c.author.distinguished@ == raw.distinguished@
    &&& (if raw.score_hidden {
        c.score.0@ == "\u{2022}"@ && c.score.1@ == "Hidden"@
    } else {
        c.score.0@ == raw.score_display@ && c.score.1@ == Seq::<char>::empty()
    })
    &&& c.rel_time@ == raw.rel_time@
    &&& c.created@ == raw.created@
    &&& (match raw.edited {
        Some(p) => c.edited.0@ == p.0@ && c.edited.1@ == p.1@,
        None => c.edited.0@ == Seq::<char>::empty() && c.edited.1@ == Seq::<char>::empty(),
    })
    &&& c.replies@ == children
    &&& c.highlighted == (raw.id@ == highlighted_comment)
    &&& c.is_filtered == spec_contains_string(filters, "u_"@ + raw.author@)
    &&& c.collapsed == ((raw.distinguished@ == "moderator"@ && raw.stickied) || c.is_filtered)
    &&& c.awards@.len() == raw.awards@.len()
    &&& forall|i: int|
        0 <= i < raw.awards@.len() ==> award_view_eq(#[trigger] c.awards@[i], raw.awards@[i])
    &&& c.more_count == raw.count
    &&& prefs_view_eq(c.prefs, prefs)
}

/// Decodes one node of the live listing into a comment, attaching the given
/// children.
pub fn build_comment(
    raw: &RawComment,
    replies: Vec<Comment>,
    post_link: &str,
    post_author: &str,
    highlighted_comment: &str,
    filters: &Vec<String>,
    archive_base: &str,
    prefs: &Preferences,
) -> (c: Comment)
    ensures
        comment_built_from(
            c,
            *raw,
            replies@,
            post_link@,
            post_author@,
            highlighted_comment@,
            filters@,
            archive_base@,
            *prefs,
        ),
{
    let removed = (str_eq(raw.author.as_str(), "[deleted]") && str_eq(
        raw.body.as_str(),
        "[removed]",
    )) || str_eq(raw.body.as_str(), "[ Removed by Reddit ]");
    let body = if removed {
        let mut b = String::from_str("<div class=\"md\"><p>[removed] \u{2014} <a href=\"https://");
        b.append(archive_base);
        b.append(post_link);
        b.append(raw.id.as_str());
        b.append("\">view removed comment</a></p></div>");
        proof {
            assert(b@ =~= spec_removed_body(archive_base@, post_link@, raw.id@));
        }
        b
    } else {
        raw.body_rendered.clone()
    };
    let pid = raw.parent_id.as_str();
    let pid_len = pid.unicode_len();
    let (parent_kind, parent_id) = match find_char(pid, '_') {
        Some(i) => {
            let kind_part = String::from_str(pid.substring_char(0, i));
            let rest = pid.substring_char(i + 1, pid_len);
            let id_part = match find_char(rest, '_') {
                Some(j) => String::from_str(rest.substring_char(0, j)),
                None => String::from_str(rest),
            };
            (kind_part, id_part)
        },
        None => (String::new(), String::new()),
    };
    let flair_parts = clone_flair_parts(&raw.flair_parts);
    let awards = clone_awards(&raw.awards);
    let highlighted = str_eq(raw.id.as_str(), highlighted_comment);
    let mut filter_key = String::from_str("u_");
    filter_key.append(raw.author.as_str());
    let is_filtered = contains_string(filters, filter_key.as_str());
    let is_moderator = str_eq(raw.distinguished.as_str(), "moderator");
    let collapsed = (is_moderator && raw.stickied) || is_filtered;
    let score = if raw.score_hidden {
        StrPair(String::from_str("\u{2022}"), String::from_str("Hidden"))
    } else {
        StrPair(raw.score_display.clone(), String::new())
    };
    let edited = match &raw.edited {
        Some(p) => StrPair(p.0.clone(), p.1.clone()),
        None => StrPair(String::new(), String::new()),
    };
    Comment {
        id: raw.id.clone(),
        kind: raw.kind.clone(),
        parent_id,
        parent_kind,
        post_link: String::from_str(post_link),
        post_author: String::from_str(post_author),
        body,
        author: Author {
            name: raw.author.clone(),
            flair: Flair {
                flair_parts,
                text: raw.link_flair_text.clone(),
                background_color: raw.author_flair_background_color.clone(),
                foreground_color: raw.author_flair_text_color.clone(),
            },
            distinguished: raw.distinguished.clone(),
        },
        score,
        rel_time: raw.rel_time.clone(),
        created: raw.created.clone(),
        edited,
        replies,
        highlighted,
        collapsed,
        is_filtered,
        awards,
        more_count: raw.count,
        prefs: clone_prefs(prefs),
    }
}

/// True when `c` is the full hierarchical decode of the node `raw`: the node
/// itself by the per-node rules, and its children, recursively and in source
/// order.
pub open spec fn comment_decoded_rec(
    c: Comment,
    raw: RawComment,
    post_link: Seq<char>,
    post_author: Seq<char>,
    highlighted_comment: Seq<char>,
    filters: Seq<String>,
    archive_base: Seq<char>,
    prefs: Preferences,
) -> bool
    decreases raw,
{
    &&& comment_built_from(
        c,
        raw,
        c.replies@,
        post_link,
        post_author,
        highlighted_comment,
        filters,
        archive_base,
        prefs,
    )
    &&& c.replies@.len() == raw.replies@.len()
    &&& forall|i: int|
        0 <= i < raw.replies@.len() ==> comment_decoded_rec(
            #[trigger] c.replies@[i],
            raw.replies@[i],
            post_link,
            post_author,
            highlighted_comment,
            filters,
            archive_base,
            prefs,
        )
}

/// Full hierarchical mode: decodes every node of the listing, recursively
/// building each node's children first and preserving source order at every
/// level.
pub fn parse_comments(
    raws: &Vec<RawComment>,
    post_link: &str,
    post_author: &str,
    highlighted_comment: &str,
    filters: &Vec<String>,
    archive_base: &str,
    prefs: &Preferences,
) -> (r: Vec<Comment>)
    ensures
        r@.len() == raws@.len(),
        forall|i: int|
            0 <= i < raws@.len() ==> comment_decoded_rec(
                #[trigger] r@[i],
                raws@[i],
                post_link@,
                post_author@,
                highlighted_comment@,
                filters@,
                archive_base@,
                *prefs,
            ),
    decreases raws@,
{
    let mut out: Vec<Comment> = Vec::new();
    let mut i: usize = 0;
    while i < raws.len()
        invariant
            i <= raws@.len(),
            out@.len() == i,
            forall|j: int|
                0 <= j < i ==> comment_decoded_rec(
                    #[trigger] out@[j],
                    raws@[j],
                    post_link@,
                    post_author@,
                    highlighted_comment@,
                    filters@,
                    archive_base@,
                    *prefs,
                ),
        decreases raws@.len() - i,
    {
        proof {
            assert(decreases_to!(raws@ => raws@[i as int]));
            assert(decreases_to!(raws@[i as int] => raws@[i as int].replies));
            assert(decreases_to!(raws@[i as int].replies => raws@[i as int].replies@));
        }
        let children = parse_comments(
            &raws[i].replies,
            post_link,
            post_author,
            highlighted_comment,
            filters,
            archive_base,
            prefs,
        );
        let c = build_comment(
            &raws[i],
            children,
            post_link,
            post_author,
            highlighted_comment,
            filters,
            archive_base,
            prefs,
        );
        out.push(c);
        i += 1;
    }
    out
}

/// True when the decoded body of the node, lower-cased, contains the
/// lower-cased query as a substring.
pub open spec fn node_matches(
    raw: RawComment,
    archive_base: Seq<char>,
    post_link: Seq<char>,
    query: Seq<char>,
) -> bool {
    spec_contains_seq(lower_of(spec_comment_body(raw, archive_base, post_link)), lower_of(query))
}

/// The flattened, post-order result of search mode on the nodes of `raws`
/// from position `i` on: each node's descendants are visited before the node
/// itself, and a node is kept exactly when its decoded body matches the
/// query.
pub open spec fn query_flatten(
    raws: Seq<RawComment>,
    i: int,
    archive_base: Seq<char>,
    post_link: Seq<char>,
    query: Seq<char>,
) -> Seq<RawComment>
    decreases raws, raws.len() - i,
{
    if i < 0 || i >= raws.len() {
        Seq::empty()
    } else {
        query_flatten(raws[i].replies@, 0, archive_base, post_link, query) + (if node_matches(
            raws[i],
            archive_base,
            post_link,
            query,
        ) {
            seq![raws[i]]
        } else {
            Seq::empty()
        }) + query_flatten(raws, i + 1, archive_base, post_link, query)
    }
}

/// Law: every node that search mode keeps has a matching body.
pub proof fn lemma_query_flatten_all_match(
    raws: Seq<RawComment>,
    i: int,
    archive_base: Seq<char>,
    post_link: Seq<char>,
    query: Seq<char>,
)
    ensures
        forall|k: int|
            0 <= k < query_flatten(raws, i, archive_base, post_link, query).len() ==> node_matches(
                #[trigger] query_flatten(raws, i, archive_base, post_link, query)[k],
                archive_base,
                post_link,
                query,
            ),
    decreases raws, raws.len() - i,
{
    if i < 0 || i >= raws.len() {
    } else {
        lemma_query_flatten_all_match(raws[i].replies@, 0, archive_base, post_link, query);
        lemma_query_flatten_all_match(raws, i + 1, archive_base, post_link, query);
        let sub = query_flatten(raws[i].replies@, 0, archive_base, post_link, query);
        let mid = if node_matches(raws[i], archive_base, post_link, query) {
            seq![raws[i]]
        } else {
            Seq::<RawComment>::empty()
        };
        let rest = query_flatten(raws, i + 1, archive_base, post_link, query);
        let whole = query_flatten(raws, i, archive_base, post_link, query);
        assert(whole == sub + mid + rest);
        assert forall|k: int| 0 <= k < whole.len() implies node_matches(
            #[trigger] whole[k],
            archive_base,
            post_link,
            query,
        ) by {
            if k < sub.len() {
                assert(whole[k] == sub[k]);
            } else if k < sub.len() + mid.len() {
                assert(whole[k] == raws[i]);
            } else {
                assert(whole[k] == rest[k - sub.len() - mid.len()]);
            }
        }
    }
}

/// True when the node `x` stands in the forest `raws` at or after position
/// `i`, at any depth.
pub open spec fn tree_contains(raws: Seq<RawComment>, i: int, x: RawComment) -> bool
    decreases raws, raws.len() - i,
{
    if i < 0 || i >= raws.len() {
        false
    } else {
        ||| x == raws[i]
        ||| tree_contains(raws[i].replies@, 0, x)
        ||| tree_contains(raws, i + 1, x)
    }
}

/// Law: search mode misses no matching node: every node of the tree whose
/// decoded body matches the query stands in the flattened result that
/// `query_comments` returns, node for node.
pub proof fn lemma_query_flatten_complete(
    raws: Seq<RawComment>,
    i: int,
    archive_base: Seq<char>,
    post_link: Seq<char>,
    query: Seq<char>,
    x: RawComment,
)
    requires
        tree_contains(raws, i, x),
        node_matches(x, archive_base, post_link, query),
    ensures
        query_flatten(raws, i, archive_base, post_link, query).contains(x),
    decreases raws, raws.len() - i,
{
    let whole = query_flatten(raws, i, archive_base, post_link, query);
    let sub = query_flatten(raws[i].replies@, 0, archive_base, post_link, query);
    let mid = if node_matches(raws[i], archive_base, post_link, query) {
        seq![raws[i]]
    } else {
        Seq::<RawComment>::empty()
    };
    let rest = query_flatten(raws, i + 1, archive_base, post_link, query);
    assert(whole == sub + mid + rest);
    if x == raws[i] {
        assert(whole[sub.len() as int] == x);
        assert(whole.contains(x));
    } else if tree_contains(raws[i].replies@, 0, x) {
        lemma_query_flatten_complete(raws[i].replies@, 0, archive_base, post_link, query, x);
        let j = choose|j: int| 0 <= j < sub.len() && sub[j] == x;
        assert(whole[j] == x);
        assert(whole.contains(x));
    } else {
        lemma_query_flatten_complete(raws, i + 1, archive_base, post_link, query, x);
        let j = choose|j: int| 0 <= j < rest.len() && rest[j] == x;
        assert(whole[sub.len() + mid.len() + j] == x);
        assert(whole.contains(x));
    }
}

/// Search mode: descends into every node's replies before the node itself,
/// and keeps a node — with its children forced empty, since matches are
/// presented flat — exactly when its decoded body, lower-cased, contains the
/// lower-cased query. The result is a flattened post-order sequence in which
/// descendants of a node come before the node itself.
pub fn query_comments(
    raws: &Vec<RawComment>,
    post_link: &str,
    post_author: &str,
    highlighted_comment: &str,
    filters: &Vec<String>,
    query: &str,
    archive_base: &str,
    prefs: &Preferences,
) -> (r: Vec<Comment>)
    ensures
        r@.len() == query_flatten(raws@, 0, archive_base@, post_link@, query@).len(),
        forall|k: int|
            0 <= k < r@.len() ==> comment_built_from(
                #[trigger] r@[k],
                query_flatten(raws@, 0, archive_base@, post_link@, query@)[k],
                Seq::empty(),
                post_link@,
                post_author@,
                highlighted_comment@,
                filters@,
                archive_base@,
                *prefs,
            ),
        forall|k: int| 0 <= k < r@.len() ==> (#[trigger] r@[k]).replies@.len() == 0,
        forall|k: int|
            0 <= k < r@.len() ==> spec_contains_seq(
                lower_of((#[trigger] r@[k]).body@),
                lower_of(query@),
            ),
    decreases raws@,
{
    let ghost full = query_flatten(raws@, 0, archive_base@, post_link@, query@);
    let q_low = lowercase(query);
    let mut results: Vec<Comment> = Vec::new();
    let ghost mut done: Seq<RawComment> = Seq::empty();
    let mut i: usize = 0;
    proof {
        assert(full =~= done + query_flatten(raws@, 0, archive_base@, post_link@, query@));
    }
    while i < raws.len()
        invariant
            i <= raws@.len(),
            q_low@ == lower_of(query@),
            full == query_flatten(raws@, 0, archive_base@, post_link@, query@),
            full == done + query_flatten(
                raws@,
                i as int,
                archive_base@,
                post_link@,
                query@,
            ),
            results@.len() == done.len(),
            forall|k: int|
                0 <= k < done.len() ==> comment_built_from(
                    #[trigger] results@[k],
                    done[k],
                    Seq::empty(),
                    post_link@,
                    post_author@,
                    highlighted_comment@,
                    filters@,
                    archive_base@,
                    *prefs,
                ),
        decreases raws@.len() - i,
    {
        proof {
            assert(decreases_to!(raws@ => raws@[i as int]));
            assert(decreases_to!(raws@[i as int] => raws@[i as int].replies));
            assert(decreases_to!(raws@[i as int].replies => raws@[i as int].replies@));
        }
        let ghost sub_flat = query_flatten(
            raws@[i as int].replies@,
            0,
            archive_base@,
            post_link@,
            query@,
        );
        let mut sub = query_comments(
            &raws[i].replies,
            post_link,
            post_author,
            highlighted_comment,
            filters,
            query,
            archive_base,
            prefs,
        );
        results.append(&mut sub);
        proof {
            done = done + sub_flat;
        }
        let c = build_comment(
            &raws[i],
            Vec::new(),
            post_link,
            post_author,
            highlighted_comment,
            filters,
            archive_base,
            prefs,
        );
        let body_low = lowercase(c.body.as_str());
        let matched = str_contains(body_low.as_str(), q_low.as_str());
        proof {
            assert(matched == node_matches(
                raws@[i as int],
                archive_base@,
                post_link@,
                query@,
            ));
        }
        if matched {
            results.push(c);
            proof {
                done = done + seq![raws@[i as int]];
            }
        }
        proof {
            let ghost mid = if node_matches(raws@[i as int], archive_base@, post_link@, query@) {
                seq![raws@[i as int]]
            } else {
                Seq::<RawComment>::empty()
            };
            assert(query_flatten(raws@, i as int, archive_base@, post_link@, query@) == sub_flat
                + mid + query_flatten(raws@, i + 1, archive_base@, post_link@, query@));
            assert(full =~= done + query_flatten(
                raws@,
                i + 1,
                archive_base@,
                post_link@,
                query@,
            ));
        }
        i += 1;
    }
    proof {
        assert(query_flatten(raws@, i as int, archive_base@, post_link@, query@)
            =~= Seq::<RawComment>::empty());
        assert(full =~= done);
        lemma_query_flatten_all_match(raws@, 0, archive_base@, post_link@, query@);
        assert forall|k: int| 0 <= k < results@.len() implies spec_contains_seq(
            lower_of((#[trigger] results@[k]).body@),
            lower_of(query@),
        ) by {
            assert(comment_built_from(
                results@[k],
                full[k],
                Seq::empty(),
                post_link@,
                post_author@,
                highlighted_comment@,
                filters@,
                archive_base@,
                *prefs,
            ));
            assert(node_matches(full[k], archive_base@, post_link@, query@));
        }
    }
    results
}

/// The value of a hexadecimal digit character, if it is one.
pub open spec fn spec_hex_val(c: char) -> Option<int> {
    let v = c as u32;
    if 48 <= v <= 57 {
        Some((v - 48) as int)
    } else if 97 <= v <= 102 {
        Some((v - 97 + 10) as int)
    } else if 65 <= v <= 70 {
        Some((v - 65 + 10) as int)
    } else {
        None
    }
}

/// The value of a hexadecimal digit character, if it is one.
fn hex_val(c: char) -> (r: Option<u32>)
    ensures
        r is Some <==> spec_hex_val(c) is Some,
        r is Some ==> r->0 as int == spec_hex_val(c).unwrap(),
{
    let v = c as u32;
    if 48 <= v && v <= 57 {
        Some(v - 48)
    } else if 97 <= v && v <= 102 {
        Some(v - 97 + 10)
    } else if 65 <= v && v <= 70 {
        Some(v - 65 + 10)
    } else {
        None
    }
}

/// Relies on std's `char::from_u32`: `Some` exactly for Unicode scalar
/// values (codepoints outside the surrogate range and at most 0x10FFFF),
/// and then the character with that codepoint.
pub assume_specification[ char::from_u32 ](i: u32) -> (r: Option<char>)
    ensures
        r is Some <==> (i < 0xD800 || (0xE000 <= i && i <= 0x10FFFF)),
        r is Some ==> r->0 as u32 == i,
;

/// The byte denoted by a percent escape at position `i` of `s`, if one
/// stands there.
pub open spec fn spec_esc_byte(s: Seq<char>, i: int) -> Option<int> {
    if 0 <= i && i + 3 <= s.len() && s[i] == '%' && spec_hex_val(s[i + 1]) is Some
        && spec_hex_val(s[i + 2]) is Some {
        Some(spec_hex_val(s[i + 1]).unwrap() * 16 + spec_hex_val(s[i + 2]).unwrap())
    } else {
        None
    }
}

/// True when `b` is a UTF-8 continuation byte.
pub open spec fn spec_is_cont(b: int) -> bool {
    0x80 <= b <= 0xBF
}

/// The allowed second byte of a three-byte UTF-8 sequence: narrowed after
/// 0xE0 to rule out overlong forms, and after 0xED to rule out surrogates.
pub open spec fn spec_cont3_ok(b0: int, b1: int) -> bool {
    if b0 == 0xE0 {
        0xA0 <= b1 <= 0xBF
    } else if b0 == 0xED {
        0x80 <= b1 <= 0x9F
    } else {
        spec_is_cont(b1)
    }
}

/// The allowed second byte of a four-byte UTF-8 sequence: narrowed after
/// 0xF0 to rule out overlong forms, and after 0xF4 to stay at or below the
/// last codepoint.
pub open spec fn spec_cont4_ok(b0: int, b1: int) -> bool {
    if b0 == 0xF0 {
        0x90 <= b1 <= 0xBF
    } else if b0 == 0xF4 {
        0x80 <= b1 <= 0x8F
    } else {
        spec_is_cont(b1)
    }
}

/// The codepoint of a two-byte UTF-8 sequence.
pub open spec fn spec_cp2(b0: int, b1: int) -> int {
    (b0 - 0xC0) * 0x40 + (b1 - 0x80)
}

/// The codepoint of a three-byte UTF-8 sequence.
pub open spec fn spec_cp3(b0: int, b1: int, b2: int) -> int {
    (b0 - 0xE0) * 0x1000 + (b1 - 0x80) * 0x40 + (b2 - 0x80)
}

/// The codepoint of a four-byte UTF-8 sequence.
pub open spec fn spec_cp4(b0: int, b1: int, b2: int, b3: int) -> int {
    (b0 - 0xF0) * 0x40000 + (b1 - 0x80) * 0x1000 + (b2 - 0x80) * 0x40 + (b3 - 0x80)
}

/// URL-form decoding at the character level: `+` becomes a space, and a run
/// of percent escapes denoting a well-formed UTF-8 sequence — one ASCII
/// byte, or a two-, three- or four-byte sequence with no overlong form,
/// no surrogate and no codepoint beyond 0x10FFFF — becomes the character it
/// encodes. Any other character, and any escape run that is malformed,
/// passes through unchanged rather than becoming a replacement character.
pub open spec fn spec_form_decode(s: Seq<char>) -> Seq<char>
    decreases s.len(),
{
    if s.len() == 0 {
        Seq::empty()
    } else if s[0] == '+' {
        seq![' '] + spec_form_decode(s.skip(1))
    } else {
        let b0 = spec_esc_byte(s, 0);
        let b1 = spec_esc_byte(s, 3);
        let b2 = spec_esc_byte(s, 6);
        let b3 = spec_esc_byte(s, 9);
        if b0 is Some && b0.unwrap() <= 0x7F {
            seq![((b0.unwrap() as u8) as char)] + spec_form_decode(s.skip(3))
        } else if b0 is Some && 0xC2 <= b0.unwrap() <= 0xDF && b1 is Some && spec_is_cont(
            b1.unwrap(),
        ) {
            seq![(spec_cp2(b0.unwrap(), b1.unwrap()) as char)] + spec_form_decode(s.skip(6))
        } else if b0 is Some && 0xE0 <= b0.unwrap() <= 0xEF && b1 is Some && spec_cont3_ok(
            b0.unwrap(),
            b1.unwrap(),
        ) && b2 is Some && spec_is_cont(b2.unwrap()) {
            seq![(spec_cp3(b0.unwrap(), b1.unwrap(), b2.unwrap()) as char)] + spec_form_decode(
                s.skip(9),
            )
        } else if b0 is Some && 0xF0 <= b0.unwrap() <= 0xF4 && b1 is Some && spec_cont4_ok(
            b0.unwrap(),
            b1.unwrap(),
        ) && b2 is Some && spec_is_cont(b2.unwrap()) && b3 is Some && spec_is_cont(b3.unwrap()) {
            seq![(spec_cp4(b0.unwrap(), b1.unwrap(), b2.unwrap(), b3.unwrap()) as char)]
                + spec_form_decode(s.skip(12))
        } else {
            seq![s[0]] + spec_form_decode(s.skip(1))
        }
    }
}

/// The byte denoted by a percent escape at position `i`, if one stands
/// there.
fn esc_byte(s: &str, i: usize) -> (r: Option<u32>)
    ensures
        r is Some <==> spec_esc_byte(s@, i as int) is Some,
        r is Some ==> r->0 as int == spec_esc_byte(s@, i as int).unwrap(),
{
    let n = s.unicode_len();
    if n < 3 || i > n - 3 {
        return None;
    }
    if s.get_char(i) != '%' {
        return None;
    }
    let h1 = match hex_val(s.get_char(i + 1)) {
        Some(v) => v,
        None => {
            return None;
        },
    };
    let h2 = match hex_val(s.get_char(i + 2)) {
        Some(v) => v,
        None => {
            return None;
        },
    };
    Some(h1 * 16 + h2)
}

/// Appends `c` and the form-decode of `s` from position `from` on.
fn decoded_with_tail(c: char, s: &str, from: usize) -> (r: String)
    requires
        from <= s@.len(),
    ensures
        r@ == seq![c] + spec_form_decode(s@.skip(from as int)),
    decreases s@.len() - from, 1int,
{
    let n = s.unicode_len();
    let mut out = String::new();
    crate::strings::push_char(&mut out, c);
    let tail = form_decode(s.substring_char(from, n));
    out.append(tail.as_str());
    proof {
        assert(s@.subrange(from as int, n as int) =~= s@.skip(from as int));
        assert(out@ =~= seq![c] + spec_form_decode(s@.skip(from as int)));
    }
    out
}

/// URL-form decodes a string at the character level.
pub fn form_decode(s: &str) -> (r: String)
    ensures
        r@ == spec_form_decode(s@),
    decreases s@.len(), 0int,
{
    let n = s.unicode_len();
    if n == 0 {
        return String::new();
    }
    let c = s.get_char(0);
    if c == '+' {
        proof {
            reveal_strlit(" ");
        }
        return decoded_with_tail(' ', s, 1);
    }
    if let Some(b0) = esc_byte(s, 0) {
        if b0 <= 0x7F {
            return decoded_with_tail((b0 as u8) as char, s, 3);
        }
        if 0xC2 <= b0 && b0 <= 0xDF {
            if let Some(b1) = esc_byte(s, 3) {
                if 0x80 <= b1 && b1 <= 0xBF {
                    let cp: u32 = (b0 - 0xC0) * 0x40 + (b1 - 0x80);
                    let ch = char::from_u32(cp).unwrap();
                    proof {
                        vstd::utf8::char_u32_cast(ch, cp);
                    }
                    return decoded_with_tail(ch, s, 6);
                }
            }
        } else if 0xE0 <= b0 && b0 <= 0xEF {
            if let Some(b1) = esc_byte(s, 3) {
                let ok1 = if b0 == 0xE0 {
                    0xA0 <= b1 && b1 <= 0xBF
                } else if b0 == 0xED {
                    0x80 <= b1 && b1 <= 0x9F
                } else {
                    0x80 <= b1 && b1 <= 0xBF
                };
                if ok1 {
                    if let Some(b2) = esc_byte(s, 6) {
                        if 0x80 <= b2 && b2 <= 0xBF {
                            let cp: u32 = (b0 - 0xE0) * 0x1000 + (b1 - 0x80) * 0x40 + (b2 - 0x80);
                            let ch = char::from_u32(cp).unwrap();
                            proof {
                                vstd::utf8::char_u32_cast(ch, cp);
                            }
                            return decoded_with_tail(ch, s, 9);
                        }
                    }
                }
            }
        } else if 0xF0 <= b0 && b0 <= 0xF4 {
            if let Some(b1) = esc_byte(s, 3) {
                let ok1 = if b0 == 0xF0 {
                    0x90 <= b1 && b1 <= 0xBF
                } else if b0 == 0xF4 {
                    0x80 <= b1 && b1 <= 0x8F
                } else {
                    0x80 <= b1 && b1 <= 0xBF
                };
                if ok1 {
                    if let Some(b2) = esc_byte(s, 6) {
                        if 0x80 <= b2 && b2 <= 0xBF {
                            if let Some(b3) = esc_byte(s, 9) {
                                if 0x80 <= b3 && b3 <= 0xBF {
                                    let cp: u32 = (b0 - 0xF0) * 0x40000 + (b1 - 0x80) * 0x1000 + (
                                    b2 - 0x80) * 0x40 + (b3 - 0x80);
                                    let ch = char::from_u32(cp).unwrap();
                                    proof {
                                        vstd::utf8::char_u32_cast(ch, cp);
                                    }
                                    return decoded_with_tail(ch, s, 12);
                                }
                            }
                        }
                    }
                }
            }
        }
    }
    decoded_with_tail(c, s, 1)
}

/// The key of a form segment: the characters before the first `=`, or the
/// whole segment when it has none.
pub open spec fn spec_key_of(seg: Seq<char>) -> Seq<char> {
    match spec_find_char(seg, '=') {
        Some(i) => seg.subrange(0, i),
        None => seg,
    }
}

/// The value of a form segment: the characters after the first `=`, or empty
/// when it has none.
pub open spec fn spec_val_of(seg: Seq<char>) -> Seq<char> {
    match spec_find_char(seg, '=') {
        Some(i) => seg.skip(i + 1),
        None => Seq::empty(),
    }
}

/// The key of a form segment.
fn key_of(seg: &str) -> (r: String)
    ensures
        r@ == spec_key_of(seg@),
{
    match find_char(seg, '=') {
        Some(i) => String::from_str(seg.substring_char(0, i)),
        None => String::from_str(seg),
    }
}

/// The value of a form segment.
fn val_of(seg: &str) -> (r: String)
    ensures
        r@ == spec_val_of(seg@),
{
    let n = seg.unicode_len();
    match find_char(seg, '=') {
        Some(i) => {
            let r = String::from_str(seg.substring_char(i + 1, n));
            proof {
                assert(seg@.subrange(i + 1, n as int) =~= seg@.skip(i + 1));
            }
            r
        },
        None => String::new(),
    }
}

/// The views of a list of strings.
pub open spec fn seq_views(v: Seq<String>) -> Seq<Seq<char>> {
    v.map_values(|x: String| x@)
}

/// The decoded value of the last form segment whose decoded key is `"q"`, or
/// empty when no segment has that key.
pub open spec fn spec_q_value(segs: Seq<Seq<char>>) -> Seq<char>
    decreases segs.len(),
{
    if segs.len() == 0 {
        Seq::empty()
    } else if spec_form_decode(spec_key_of(segs.last())) == "q"@ {
        spec_form_decode(spec_val_of(segs.last()))
    } else {
        spec_q_value(segs.drop_last())
    }
}

/// Extracts the decoded value of the last `q` key among the form segments.
fn q_value(segs: &Vec<String>) -> (r: String)
    ensures
        r@ == spec_q_value(seq_views(segs@)),
{
    let ghost views = seq_views(segs@);
    let mut idx: usize = segs.len();
    proof {
        assert(views.take(idx as int) =~= views);
    }
    while idx > 0
        invariant
            idx <= segs@.len(),
            views == seq_views(segs@),
            views.len() == segs@.len(),
            spec_q_value(views) == spec_q_value(views.take(idx as int)),
        decreases idx,
    {
        idx -= 1;
        let key = key_of(segs[idx].as_str());
        let key_decoded = form_decode(key.as_str());
        proof {
            assert(views[idx as int] == segs@[idx as int]@);
            assert(views.take(idx + 1).last() == views[idx as int]);
            assert(views.take(idx + 1).drop_last() =~= views.take(idx as int));
        }
        if str_eq(key_decoded.as_str(), "q") {
            let v = val_of(segs[idx].as_str());
            let out = form_decode(v.as_str());
            proof {
                assert(spec_q_value(views.take(idx + 1)) == spec_form_decode(
                    spec_val_of(views[idx as int]),
                ));
            }
            return out;
        }
    }
    proof {
        assert(views.take(0) =~= Seq::<Seq<char>>::empty());
    }
    String::new()
}

/// The search query carried by a page URL. The query is the text between the
/// first `?q=` marker and the last `&type=comment` marker after it; its
/// percent-escaped and plus-escaped spaces are decoded, and the result is
/// URL-form decoded to recover the literal search string. A URL without the
/// two markers carries the empty query, which callers read as "no search
/// active".
pub open spec fn spec_comment_query(url: Seq<char>) -> Seq<char> {
    match spec_find_last_sub(url, "&type=comment"@) {
        Some(l) => match spec_find_first_sub(url, "?q="@) {
            Some(p) => {
                if p + "?q="@.len() <= l {
                    let cap = url.subrange(p + "?q="@.len(), l);
                    let cleaned = spec_replace(spec_replace(cap, "%20"@, " "@), "+"@, " "@);
                    let t = "q="@ + cleaned + "&type=comment"@;
                    spec_q_value(spec_split_char(t, '&'))
                } else {
                    Seq::empty()
                }
            },
            None => Seq::empty(),
        },
        None => Seq::empty(),
    }
}

/// Extracts the comment search query from a page URL; a URL without the
/// `q=...&type=comment` marker yields the empty string.
pub fn comment_query(url: &str) -> (r: String)
    ensures
        r@ == spec_comment_query(url@),
{
    let n = url.unicode_len();
    proof {
        reveal_strlit("?q=");
        reveal_strlit("&type=comment");
        reveal_strlit("%20");
        reveal_strlit("+");
        reveal_strlit(" ");
        reveal_strlit("q=");
    }
    let l = match find_last_sub(url, "&type=comment") {
        Some(l) => l,
        None => {
            return String::new();
        },
    };
    let p = match find_first_sub(url, "?q=") {
        Some(p) => p,
        None => {
            return String::new();
        },
    };
    proof {
        let pk = choose|k: int| crate::strings::first_substr_at(url@, "?q="@, k);
        assert(pk == p as int);
        assert(substr_at(url@, "?q="@, p as int));
        assert(p + 3 <= url@.len());
        let lk = choose|k: int| crate::strings::last_substr_at(url@, "&type=comment"@, k);
        assert(lk == l as int);
        assert(substr_at(url@, "&type=comment"@, l as int));
        assert(l <= url@.len());
    }
    if p + 3 <= l {
        let cap = url.substring_char(p + 3, l);
        let cleaned_a = replace_all(cap, "%20", " ");
        let cleaned = replace_all(cleaned_a.as_str(), "+", " ");
        let mut t = String::from_str("q=");
        t.append(cleaned.as_str());
        t.append("&type=comment");
        let segs = split_char(t.as_str(), '&');
        let out = q_value(&segs);
        proof {
            assert(t@ =~= "q="@ + cleaned@ + "&type=comment"@);
            assert(seq_views(segs@) =~= spec_split_char(t@, '&'));
        }
        out
    } else {
        String::new()
    }
}

/// One thread's comment forest from the live listing, as the single-request
/// path builds it: flattened search mode when the page URL carries a search
/// query, full hierarchical mode otherwise ("no search active").
pub fn thread_comments(
    raws: &Vec<RawComment>,
    post_link: &str,
    post_author: &str,
    highlighted_comment: &str,
    filters: &Vec<String>,
    url: &str,
    archive_base: &str,
    prefs: &Preferences,
) -> (r: Vec<Comment>)
    ensures
        spec_comment_query(url@).len() == 0 ==> r@.len() == raws@.len(),
        spec_comment_query(url@).len() == 0 ==> forall|i: int|
            0 <= i < raws@.len() ==> comment_decoded_rec(
                #[trigger] r@[i],
                raws@[i],
                post_link@,
                post_author@,
                highlighted_comment@,
                filters@,
                archive_base@,
                *prefs,
            ),
        spec_comment_query(url@).len() > 0 ==> r@.len() == query_flatten(
            raws@,
            0,
            archive_base@,
            post_link@,
            spec_comment_query(url@),
        ).len(),
        spec_comment_query(url@).len() > 0 ==> forall|k: int|
            0 <= k < r@.len() ==> comment_built_from(
                #[trigger] r@[k],
                query_flatten(raws@, 0, archive_base@, post_link@, spec_comment_query(url@))[k],
                Seq::empty(),
                post_link@,
                post_author@,
                highlighted_comment@,
                filters@,
                archive_base@,
                *prefs,
            ),
{
    let query = comment_query(url);
    if query.as_str().unicode_len() == 0 {
        parse_comments(
            raws,
            post_link,
            post_author,
            highlighted_comment,
            filters,
            archive_base,
            prefs,
        )
    } else {
        query_comments(
            raws,
            post_link,
            post_author,
            highlighted_comment,
            filters,
            query.as_str(),
            archive_base,
            prefs,
        )
    }
}

/// The render-ready value: a post, its comment forest from either traversal
/// mode, a sort-order tag, view preferences, the single-thread flag, and the
/// URL context strings. Opaque beyond construction: the external renderer is
/// the only consumer of its fields. The live path supplies real request URL
/// context; the batch path supplies empty context fields and fixed
/// sort and flags.
#[derive(Debug)]
pub struct PostTemplate {
    pub comments: Vec<Comment>,
    pub post: Post,
    pub sort: String,
    pub prefs: Preferences,
    pub single_thread: bool,
    pub url: String,
    pub url_without_query: String,
    pub comment_query: String,
}

impl PostTemplate {
    /// Assembles the render-ready value. The URL without its query is the
    /// URL with every trailing `?q={comment_query}&type=comment` suffix
    /// stripped.
    pub fn new(
        post: Post,
        comments: Vec<Comment>,
        sort: String,
        prefs: Preferences,
        single_thread: bool,
        url: String,
        comment_query: String,
    ) -> (r: PostTemplate)
        ensures
            r.post == post,
            r.comments == comments,
            r.sort == sort,
            r.prefs == prefs,
            r.single_thread == single_thread,
            r.url == url,
            r.comment_query == comment_query,
            r.url_without_query@ == spec_trim_end(
                url@,
                "?q="@ + comment_query@ + "&type=comment"@,
            ),
    {
        let mut suffix = String::from_str("?q=");
        suffix.append(comment_query.as_str());
        suffix.append("&type=comment");
        proof {
            assert(suffix@ =~= "?q="@ + comment_query@ + "&type=comment"@);
        }
        let url_without_query = trim_end_matches(url.as_str(), suffix.as_str());
        PostTemplate {
            post,
            comments,
            sort,
            prefs,
            single_thread,
            url,
            url_without_query,
            comment_query,
        }
    }
}

} // verus!
