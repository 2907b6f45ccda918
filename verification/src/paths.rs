//! Paths as text, joined by the rules of Unix paths.

use vstd::prelude::*;
use vstd::string::StringExecFns;

verus! {

/// The path of `name` inside the directory `dir`.
///
/// An absolute `name` stands for itself. Otherwise `name` follows `dir`,
/// with one `/` between them unless `dir` is empty or already ends in `/`.
/// This is what `std::path::Path::join` yields on Unix.
pub open spec fn joined_path(dir: Seq<char>, name: Seq<char>) -> Seq<char> {
    if name.len() > 0 && name[0] == '/' {
        name
    } else if dir.len() == 0 || dir.last() == '/' {
        dir + name
    } else {
        dir + seq!['/'] + name
    }
}

/// Joins a directory and a name.
pub fn join(dir: &str, name: &str) -> (path: String)
    ensures
        path@ == joined_path(dir@, name@),
{
    if !name.is_empty() && name.get_char(0) == '/' {
        return String::from_str(name);
    }
    let n = dir.unicode_len();
    let mut path = String::from_str(dir);
    if n > 0 && dir.get_char(n - 1) != '/' {
        proof {
            reveal_strlit("/");
            assert("/"@ =~= seq!['/']);
        }
        path.append("/");
    }
    path.append(name);
    path
}

} // verus!
