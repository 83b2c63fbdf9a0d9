//! Paths under the user's home directory. Reading the environment for the
//! home directory and creating directories are left to the caller.
use vstd::prelude::*;
use crate::text::{chars_of, extend, slice, starts_with, starts_with_str, string_of};

verus! {

/// `rest` joined onto `base` as a Unix path: an absolute `rest` replaces
/// `base`; otherwise a `/` separates them unless `base` is empty or
/// already ends in one.
pub open spec fn path_join(base: Seq<char>, rest: Seq<char>) -> Seq<char> {
    if rest.len() > 0 && rest[0] == '/' {
        rest
    } else if base.len() == 0 || base.last() == '/' {
        base + rest
    } else {
        base + seq!['/'] + rest
    }
}

/// Joins `rest` onto `base`.
fn join_exec(base: &Vec<char>, rest: &Vec<char>) -> (r: Vec<char>)
    ensures
        r@ == path_join(base@, rest@),
{
    if rest.len() > 0 && rest[0] == '/' {
        return rest.clone();
    }
    let mut r = base.clone();
    if base.len() > 0 && base[base.len() - 1] != '/' {
        r.push('/');
    }
    extend(&mut r, rest);
    r
}

/// `rest` joined onto the path `base`.
pub fn join_paths(base: &str, rest: &str) -> (r: String)
    ensures
        r@ == path_join(base@, rest@),
{
    let b = chars_of(base);
    let t = chars_of(rest);
    let r = join_exec(&b, &t);
    string_of(&r)
}

/// `path` with a leading `~/` replaced by the home directory, when there is
/// one.
pub open spec fn expanded(path: Seq<char>, home: Option<Seq<char>>) -> Seq<char> {
    match home {
        Some(h) => if starts_with(path, "~/"@) {
            path_join(h, path.skip(2))
        } else {
            path
        },
        None => path,
    }
}

/// `path` with a leading `~/` replaced by `home`, the user's home
/// directory if it is known.
pub fn expand_tilde(path: &str, home: Option<&str>) -> (r: String)
    ensures
        r@ == expanded(path@, match home {
            Some(h) => Some(h@),
            None => None,
        }),
{
    let p = chars_of(path);
    match home {
        Some(h) => {
            if starts_with_str(&p, "~/") {
                proof {
                    reveal_strlit("~/");
                }
                let rest = slice(&p, 2, p.len());
                assert(rest@ =~= p@.skip(2));
                let hv = chars_of(h);
                let r = join_exec(&hv, &rest);
                string_of(&r)
            } else {
                string_of(&p)
            }
        },
        None => string_of(&p),
    }
}

/// The application's data directory: `.torot` under the home directory,
/// or `.torot` in the working directory when the home is unknown.
pub fn data_dir(home: Option<&str>) -> (r: String)
    ensures
        r@ == match home {
            Some(h) => path_join(h@, ".torot"@),
            None => ".torot"@,
        },
{
    let name = chars_of(".torot");
    match home {
        Some(h) => {
            let hv = chars_of(h);
            proof {
                reveal_strlit(".torot");
            }
            let r = join_exec(&hv, &name);
            string_of(&r)
        },
        None => string_of(&name),
    }
}

} // verus!
