//! Where the working files go: names joined to the project's working
//! directory the way `PathBuf::join` joins a relative file name.
use crate::ffmpeg::Platform;
use vstd::prelude::*;

verus! {

/// `c` separates path components on `platform` (`/`, and also `\` on
/// Windows).
pub open spec fn is_separator(c: char, platform: Platform) -> bool {
    c == '/' || (platform == Platform::Windows && c == '\\')
}

/// `dir` is a bare Windows drive such as `C:`, to which a relative name is
/// joined without a separator.
pub open spec fn is_bare_drive(dir: Seq<char>, platform: Platform) -> bool {
    &&& platform == Platform::Windows
    &&& dir.len() == 2
    &&& dir[1] == ':'
    &&& (('a' <= dir[0] && dir[0] <= 'z') || ('A' <= dir[0] && dir[0] <= 'Z'))
}

/// The separator `PathBuf::join` inserts on `platform`.
pub open spec fn main_separator(platform: Platform) -> Seq<char> {
    if platform == Platform::Windows {
        "\\"@
    } else {
        "/"@
    }
}

/// The relative file name `name` joined to the directory `dir`: a separator
/// goes between them unless `dir` is empty, already ends with one, or is a
/// bare drive.
pub open spec fn join_path(dir: Seq<char>, name: Seq<char>, platform: Platform) -> Seq<char> {
    if dir.len() == 0 || is_separator(dir.last(), platform) || is_bare_drive(dir, platform) {
        dir + name
    } else {
        dir + main_separator(platform) + name
    }
}

fn is_separator_exec(c: char, platform: Platform) -> (b: bool)
    ensures
        b == is_separator(c, platform),
{
    c == '/' || (matches!(platform, Platform::Windows) && c == '\\')
}

/// Joins the relative file name `name` to the directory `dir`.
pub fn join_path_exec(dir: &str, name: &str, platform: Platform) -> (p: String)
    ensures
        p@ == join_path(dir@, name@, platform),
{
    let v = crate::text::chars_of(dir);
    let n = v.len();
    let windows = matches!(platform, Platform::Windows);
    let no_sep = if n == 0 {
        true
    } else if is_separator_exec(v[n - 1], platform) {
        true
    } else {
        windows && n == 2 && v[1] == ':' && (('a' <= v[0] && v[0] <= 'z') || ('A' <= v[0] && v[0]
            <= 'Z'))
    };
    assert(n > 0 ==> v@.last() == v@[n - 1]);
    let mut p = String::new();
    p.append(dir);
    if !no_sep {
        if windows {
            p.append("\\");
        } else {
            p.append("/");
        }
    }
    p.append(name);
    p
}

} // verus!
