//! Path and preference helpers of the batch static-site path: deterministic
//! output-path resolution, and the fixed view preferences of a generated
//! site.

use vstd::prelude::*;

use crate::canonical::{CoreError, Preferences};
use crate::strings::{
    find_last_sub, last_substr_at, spec_find_last_sub, spec_trim_end, str_ends_with, str_eq,
    substr_at, trim_end_matches,
};

verus! {

/// The file-name part of a slash-separated path: the characters after the
/// last `/`, or the whole path when it holds none.
pub open spec fn spec_file_name(p: Seq<char>) -> Seq<char> {
    match spec_find_last_sub(p, "/"@) {
        Some(i) => p.skip(i + 1),
        None => p,
    }
}

/// True when a file-name part can name an output file: it is nonempty and
/// names no directory, neither the current one nor the parent.
pub open spec fn spec_valid_file_name(name: Seq<char>) -> bool {
    name.len() > 0 && name != "."@ && name != ".."@
}

/// The stem of a file name: the characters before the last `.`, except that
/// a leading `.` starts a hidden file's name rather than an extension.
pub open spec fn spec_file_stem(name: Seq<char>) -> Seq<char> {
    match spec_find_last_sub(name, "."@) {
        Some(i) => {
            if i > 0 {
                name.subrange(0, i)
            } else {
                name
            }
        },
        None => name,
    }
}

/// A directory joined with a file name: a `/` stands between them unless the
/// directory is empty or already ends in one.
pub open spec fn spec_join(dir: Seq<char>, name: Seq<char>) -> Seq<char> {
    if dir.len() == 0 {
        name
    } else if dir.last() == '/' {
        dir + name
    } else {
        dir + "/"@ + name
    }
}

/// The output path of a processed input file: the output directory joined
/// with the input's file stem, the extension swapped for the given one; or
/// nothing when the input path has no usable file name. Trailing path
/// separators are ignored, as the platform path API ignores them.
/// Collisions between two inputs sharing a stem are not detected.
pub open spec fn spec_output_path(input: Seq<char>, out_dir: Seq<char>, ext: Seq<char>) -> Option<
    Seq<char>,
> {
    let name = spec_file_name(spec_trim_end(input, "/"@));
    if spec_valid_file_name(name) {
        if ext.len() == 0 {
            Some(spec_join(out_dir, spec_file_stem(name)))
        } else {
            Some(spec_join(out_dir, spec_file_stem(name)) + "."@ + ext)
        }
    } else {
        None
    }
}

/// Resolves the output path for a file being processed: the output directory
/// joined with the input's file stem, the extension swapped for `extension`.
/// Fails, rather than panicking, on a path with no usable file name.
pub fn output_path(input_path: &str, out_dir: &str, extension: String) -> (r: Result<
    String,
    CoreError,
>)
    ensures
        r is Ok <==> spec_output_path(input_path@, out_dir@, extension@) is Some,
        r is Ok ==> r->Ok_0@ == spec_output_path(input_path@, out_dir@, extension@).unwrap(),
{
    proof {
        reveal_strlit("/");
        reveal_strlit(".");
        reveal_strlit("..");
    }
    let trimmed_owned = trim_end_matches(input_path, "/");
    let trimmed = trimmed_owned.as_str();
    let n = trimmed.unicode_len();
    let name = match find_last_sub(trimmed, "/") {
        Some(i) => {
            proof {
                let k = choose|k: int| last_substr_at(trimmed@, "/"@, k);
                assert(k == i as int);
                assert(substr_at(trimmed@, "/"@, i as int));
                assert(trimmed@.subrange(i + 1, n as int) =~= trimmed@.skip(i + 1));
            }
            trimmed.substring_char(i + 1, n)
        },
        None => trimmed,
    };
    if name.unicode_len() == 0 || str_eq(name, ".") || str_eq(name, "..") {
        proof {
            assert(name@.len() == 0 || name@ == "."@ || name@ == ".."@);
        }
        return Err(CoreError::InvalidFileName);
    }
    let stem = match find_last_sub(name, ".") {
        Some(i) => {
            if i > 0 {
                name.substring_char(0, i)
            } else {
                name
            }
        },
        None => name,
    };
    let mut out = String::from_str(out_dir);
    if out_dir.unicode_len() > 0 && !str_ends_with(out_dir, "/") {
        out.append("/");
    }
    out.append(stem);
    if extension.as_str().unicode_len() > 0 {
        out.append(".");
        out.append(extension.as_str());
    }
    proof {
        if out_dir@.len() > 0 {
            assert(out_dir@.subrange(out_dir@.len() - 1, out_dir@.len() as int) =~= seq![
                out_dir@.last()]);
            if out_dir@.last() == '/' {
                assert(seq![out_dir@.last()] =~= "/"@);
            } else {
                assert(seq![out_dir@.last()] != "/"@) by {
                    if seq![out_dir@.last()] == "/"@ {
                        assert("/"@[0] == out_dir@.last());
                    }
                }
            }
        }
        assert(stem@ == spec_file_stem(name@));
        assert(out@ =~= spec_join(out_dir@, spec_file_stem(name@)) + (if extension@.len() == 0 {
            Seq::<char>::empty()
        } else {
            "."@ + extension@
        }));
        if extension@.len() == 0 {
            assert(out@ =~= spec_join(out_dir@, spec_file_stem(name@)));
        }
        assert(out@ =~= spec_output_path(input_path@, out_dir@, extension@).unwrap());
    }
    Ok(out)
}

/// The fixed view preferences of a generated archive site: local static
/// assets, adult content shown, and no leave-confirmation page; everything
/// else at its default.
pub fn template_prefs() -> (r: Preferences)
    ensures
        r.theme@ == Seq::<char>::empty(),
        r.comment_sort@ == Seq::<char>::empty(),
        r.show_nsfw@ == "on"@,
        r.blur_nsfw@ == Seq::<char>::empty(),
        r.hide_awards@ == Seq::<char>::empty(),
        r.static_path@ == "static"@,
        r.disable_visit_reddit_confirmation@ == "on"@,
{
    let mut prefs = Preferences::default();
    prefs.static_path = String::from_str("static");
    prefs.show_nsfw = String::from_str("on");
    prefs.disable_visit_reddit_confirmation = String::from_str("on");
    prefs
}

} // verus!
