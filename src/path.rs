//! Joining of path segments as a Unix `PathBuf::push` does, and the glob
//! expression that finds the kernel images.
use vstd::prelude::*;
use vstd::string::{StrSliceExecFns, StringExecFns};

verus! {

/// `part` appended to `base` as a path: an absolute `part` replaces `base`;
/// otherwise a `/` stands between them unless `base` is empty or ends in one.
pub open spec fn path_join(base: Seq<char>, part: Seq<char>) -> Seq<char> {
    if part.len() > 0 && part[0] == '/' {
        part
    } else if base.len() == 0 || base.last() == '/' {
        base + part
    } else {
        base + seq!['/'] + part
    }
}

/// The glob expression `<dir>/<subdir>/<prefix>*<suffix>`.
pub open spec fn glob_expr(
    dir: Seq<char>,
    subdir: Seq<char>,
    prefix: Seq<char>,
    suffix: Seq<char>,
) -> Seq<char> {
    path_join(path_join(dir, subdir), prefix) + seq!['*'] + suffix
}

/// Joins `part` onto `base` as a path.
pub fn join_path(base: &str, part: &str) -> (r: String)
    ensures
        r@ == path_join(base@, part@),
{
    let part_len = part.unicode_len();
    if part_len > 0 && part.get_char(0) == '/' {
        return String::from_str(part);
    }
    let base_len = base.unicode_len();
    let mut r = String::from_str(base);
    if base_len > 0 && base.get_char(base_len - 1) != '/' {
        r.append("/");
        proof {
            reveal_strlit("/");
        }
        assert(r@ =~= base@ + seq!['/']);
    }
    r.append(part);
    r
}

/// The glob expression that lists the files of `subdir` under `dir` whose
/// names begin with `prefix` and end with `suffix`.
pub fn glob_pattern(dir: &str, subdir: &str, prefix: &str, suffix: &str) -> (r: String)
    ensures
        r@ == glob_expr(dir@, subdir@, prefix@, suffix@),
{
    let images = join_path(dir, subdir);
    let mut r = join_path(images.as_str(), prefix);
    let ghost head = r@;
    r.append("*");
    proof {
        reveal_strlit("*");
    }
    assert(r@ =~= head + seq!['*']);
    r.append(suffix);
    r
}

} // verus!
