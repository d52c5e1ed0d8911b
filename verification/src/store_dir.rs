//! Where the store lies: under the user's home directory, unless the
//! variable `PASSWORD_STORE_DIR` names another place.

use vstd::prelude::*;
use vstd::string::*;

use crate::text::{chars_of, has_prefix, starts_with};

verus! {

/// A path that begins at the root.
pub open spec fn is_absolute(path: Seq<char>) -> bool {
    path.len() > 0 && path[0] == '/'
}

/// `path` without the slashes and the components `.` that it begins with.
pub open spec fn trimmed(path: Seq<char>) -> Seq<char>
    decreases path.len(),
{
    if path.len() > 0 && (path[0] == '/' || (path[0] == '.' && (path.len() == 1 || path[1] == '/'))) {
        trimmed(path.drop_first())
    } else {
        path
    }
}

/// `path` without the slashes and the components `.` that it ends with.
pub open spec fn trimmed_end(path: Seq<char>) -> Seq<char>
    decreases path.len(),
{
    if path.len() > 0 && (path.last() == '/' || (path.last() == '.' && (path.len() == 1
        || path[path.len() - 2] == '/'))) {
        trimmed_end(path.drop_last())
    } else {
        path
    }
}

/// What follows the component `first` in `path`, trimmed at both ends,
/// where `path` begins with this component; `None` where it begins with
/// another.
pub open spec fn after_component(path: Seq<char>, first: Seq<char>) -> Option<Seq<char>> {
    if has_prefix(path, first) && (path.len() == first.len() || path[first.len() as int] == '/') {
        Some(trimmed_end(trimmed(path.skip(first.len() as int))))
    } else {
        None
    }
}

/// The relative path `rest` under the directory `base`.
pub open spec fn under(base: Seq<char>, rest: Seq<char>) -> Seq<char> {
    if base.len() == 0 || base.last() == '/' {
        base + rest
    } else {
        base + seq!['/'] + rest
    }
}

/// The directory of the store, for a user whose home directory is `home`
/// and whose `PASSWORD_STORE_DIR` is `configured`, or is not set.
///
/// An absolute path is taken as it is. One that begins with the component
/// `$HOME` or `~` is taken under the home directory. Any other, and none,
/// gives `.password-store` under the home directory.
pub open spec fn store_dir(home: Seq<char>, configured: Option<Seq<char>>) -> Seq<char> {
    match configured {
        Some(path) => if is_absolute(path) {
            path
        } else {
            match after_component(path, "$HOME"@) {
                Some(rest) => under(home, rest),
                None => match after_component(path, "~"@) {
                    Some(rest) => under(home, rest),
                    None => under(home, ".password-store"@),
                },
            }
        },
        None => under(home, ".password-store"@),
    }
}

/// What follows the component `first` in `path`.
pub fn strip_component<'a>(path: &'a str, first: &str) -> (rest: Option<&'a str>)
    ensures
        match rest {
            Some(found) => after_component(path@, first@) == Some(found@),
            None => after_component(path@, first@) is None,
        },
{
    if !starts_with(path, first) {
        return None;
    }
    let chars = chars_of(path);
    let len = chars.len();
    let start = first.unicode_len();
    if len > start && chars[start] != '/' {
        return None;
    }
    let mut i: usize = start;
    while i < len && (chars[i] == '/' || (chars[i] == '.' && (i + 1 == len || chars[i + 1] == '/')))
        invariant
            start <= i <= len,
            len == chars@.len(),
            chars@ == path@,
            trimmed(path@.skip(start as int)) == trimmed(path@.skip(i as int)),
        decreases len - i,
    {
        assert(path@.skip(i as int).drop_first() =~= path@.skip(i + 1));
        i += 1;
    }
    let mut j: usize = len;
    assert(path@.subrange(i as int, len as int) =~= path@.skip(i as int));
    while j > i && (chars[j - 1] == '/' || (chars[j - 1] == '.' && (j - 1 == i || chars[j - 2]
        == '/')))
        invariant
            i <= j <= len,
            len == chars@.len(),
            chars@ == path@,
            trimmed_end(path@.skip(i as int)) == trimmed_end(path@.subrange(i as int, j as int)),
        decreases j,
    {
        assert(path@.subrange(i as int, j as int).drop_last() =~= path@.subrange(
            i as int,
            j - 1,
        ));
        j -= 1;
    }
    Some(path.substring_char(i, j))
}

/// The relative path `rest` under the directory `base`.
pub fn join_under(base: &str, rest: &str) -> (path: String)
    ensures
        path@ == under(base@, rest@),
{
    let chars = chars_of(base);
    if chars.len() == 0 || chars[chars.len() - 1] == '/' {
        base.to_owned().concat(rest)
    } else {
        proof {
            reveal_strlit("/");
            assert("/"@ =~= seq!['/']);
        }
        base.to_owned().concat("/").concat(rest)
    }
}

/// The directory of the store, from the user's home directory and the value
/// of `PASSWORD_STORE_DIR`, where it is set.
pub fn resolve(home: &str, configured: Option<&str>) -> (dir: String)
    ensures
        dir@ == store_dir(
            home@,
            match configured {
                Some(path) => Some(path@),
                None => None,
            },
        ),
{
    match configured {
        Some(path) => {
            let chars = chars_of(path);
            if chars.len() > 0 && chars[0] == '/' {
                return path.to_owned();
            }
            match strip_component(path, "$HOME") {
                Some(rest) => {
                    return join_under(home, rest);
                },
                None => {},
            }
            match strip_component(path, "~") {
                Some(rest) => {
                    return join_under(home, rest);
                },
                None => {},
            }
        },
        None => {},
    }
    join_under(home, ".password-store")
}

} // verus!
