//! Places in the file system, held as text.

use vstd::prelude::*;

verus! {

/// `name` below the directory `base`: the two texts with one `/` between
/// them. An empty `base` leaves `name` as it is, and so does a `name` that
/// starts at the root.
pub open spec fn path_join(base: Seq<char>, name: Seq<char>) -> Seq<char> {
    if base.len() == 0 || (name.len() > 0 && name[0] == '/') {
        name
    } else if base.last() == '/' {
        base + name
    } else {
        base + seq!['/'] + name
    }
}

/// The directory where the user's files are kept if `home` names one, else
/// `/tmp`.
pub open spec fn home_or_tmp(home: Option<Seq<char>>) -> Seq<char> {
    match home {
        Some(dir) => dir,
        None => "/tmp"@,
    }
}

/// Asks `dirs::home_dir` for the home directory of the current user. Nothing
/// is said of the answer, which depends on the machine and on who runs the
/// program. A directory whose name is not valid Unicode counts as none.
#[verifier::external_body]
pub(crate) fn home_directory() -> (r: Option<String>) {
    dirs::home_dir().and_then(|dir| dir.into_os_string().into_string().ok())
}

/// Puts `name` below the directory `base`.
pub fn join_path(base: &str, name: &str) -> (r: String)
    ensures
        r@ == path_join(base@, name@),
{
    let n = base.unicode_len();
    if n == 0 || (name.unicode_len() > 0 && name.get_char(0) == '/') {
        name.to_owned()
    } else if base.get_char(n - 1) == '/' {
        let mut out = base.to_owned();
        out.append(name);
        out
    } else {
        let mut out = base.to_owned();
        proof {
            reveal_strlit("/");
        }
        out.append("/");
        out.append(name);
        out
    }
}

/// The home directory if there is one, else `/tmp`.
pub fn base_directory(home: Option<String>) -> (r: String)
    ensures
        r@ == home_or_tmp(home.deep_view()),
{
    match home {
        Some(dir) => dir,
        None => "/tmp".to_owned(),
    }
}

/// Whether two texts are the same.
pub fn same_text(a: &str, b: &str) -> (r: bool)
    ensures
        r == (a@ == b@),
{
    let left = a.to_owned();
    let right = b.to_owned();
    left == right
}

} // verus!
