use crate::text::chars_of;
use vstd::prelude::*;
use vstd::string::*;

verus! {

/// The character that separates the components of a path.
pub open spec fn is_separator(c: char) -> bool {
    c == '/'
}

/// A path that starts with the home-directory marker `~`.
pub open spec fn is_home_relative(path: Seq<char>) -> bool {
    path.len() > 0 && path[0] == '~'
}

/// A path that starts at the root of the file system.
pub open spec fn is_absolute(path: Seq<char>) -> bool {
    path.len() > 0 && is_separator(path[0])
}

/// A path that starts with the current-directory marker `./`.
pub open spec fn has_current_dir_marker(path: Seq<char>) -> bool {
    path.len() >= 2 && path[0] == '.' && is_separator(path[1])
}

/// `rest` placed below `base`: an absolute `rest` stands for itself, any
/// other follows `base`, with a separator between them unless `base` is
/// empty or already ends in one.
pub open spec fn joined(base: Seq<char>, rest: Seq<char>) -> Seq<char> {
    if is_absolute(rest) {
        rest
    } else if base.len() > 0 && !is_separator(base.last()) {
        base + seq!['/'] + rest
    } else {
        base + rest
    }
}

/// A relative path without its leading `./`, if it has one.
pub open spec fn without_current_dir_marker(path: Seq<char>) -> Seq<char> {
    if has_current_dir_marker(path) {
        path.skip(2)
    } else {
        path
    }
}

/// The absolute form of `path`, given the home directory (if one is known)
/// and the working directory.
///
/// A home-relative path is the home directory followed by what stands after
/// the `~`; without a home directory it has no absolute form. An absolute
/// path is itself. Any other path is joined to the working directory, after
/// a leading `./` is dropped.
pub open spec fn resolved(path: Seq<char>, home: Option<Seq<char>>, cwd: Seq<char>) -> Option<
    Seq<char>,
> {
    if is_home_relative(path) {
        match home {
            Some(h) => Some(h + path.skip(1)),
            None => None,
        }
    } else if is_absolute(path) {
        Some(path)
    } else {
        Some(joined(cwd, without_current_dir_marker(path)))
    }
}

/// A `..` component of `path` starts at index `i`.
pub open spec fn is_parent_component_at(path: Seq<char>, i: int) -> bool {
    &&& 0 <= i
    &&& i + 2 <= path.len()
    &&& path[i] == '.'
    &&& path[i + 1] == '.'
    &&& (i == 0 || is_separator(path[i - 1]))
    &&& (i + 2 == path.len() || is_separator(path[i + 2]))
}

/// One of the components of `path` is `..`.
pub open spec fn has_parent_component(path: Seq<char>) -> bool {
    exists|i: int| is_parent_component_at(path, i)
}

/// A path that can be placed below a directory without leaving it: it is
/// not empty, not absolute, and none of its components is `..`.
pub open spec fn is_safe_relative(path: Seq<char>) -> bool {
    path.len() > 0 && !is_absolute(path) && !has_parent_component(path)
}

/// The index of the last separator of `path`, or -1 if it has none.
pub open spec fn last_separator(path: Seq<char>) -> int
    decreases path.len(),
{
    if path.len() == 0 {
        -1
    } else if is_separator(path.last()) {
        path.len() - 1
    } else {
        last_separator(path.drop_last())
    }
}

/// The directory that holds `path`: what stands before its last separator,
/// the root itself where that separator comes first, and nothing where
/// `path` has no separator.
pub open spec fn parent_of(path: Seq<char>) -> Seq<char> {
    let i = last_separator(path);
    if i < 0 {
        Seq::empty()
    } else if i == 0 {
        path.take(1)
    } else {
        path.take(i)
    }
}

/// A home-relative path resolves to the home directory followed by what
/// stands after the `~`.
pub proof fn lemma_resolved_home(rest: Seq<char>, home: Seq<char>, cwd: Seq<char>)
    ensures
        resolved(seq!['~'] + rest, Some(home), cwd) == Some(home + rest),
{
}

/// An absolute path resolves to itself.
pub proof fn lemma_resolved_absolute(path: Seq<char>, home: Option<Seq<char>>, cwd: Seq<char>)
    requires
        is_absolute(path),
    ensures
        resolved(path, home, cwd) == Some(path),
{
}

/// A relative path resolves to the same with and without a leading `./`:
/// to the path joined to the working directory.
pub proof fn lemma_resolved_relative(path: Seq<char>, home: Option<Seq<char>>, cwd: Seq<char>)
    requires
        !is_home_relative(path),
        !is_absolute(path),
        !has_current_dir_marker(path),
    ensures
        resolved(path, home, cwd) == Some(joined(cwd, path)),
        resolved(seq!['.', '/'] + path, home, cwd) == Some(joined(cwd, path)),
{
}

/// Below a working directory that is not empty and does not end in a
/// separator, a relative path resolves to the directory, a separator and
/// the path.
pub proof fn lemma_resolved_below_cwd(path: Seq<char>, home: Option<Seq<char>>, cwd: Seq<char>)
    requires
        !is_home_relative(path),
        !is_absolute(path),
        !has_current_dir_marker(path),
        cwd.len() > 0,
        !is_separator(cwd.last()),
    ensures
        resolved(path, home, cwd) == Some(cwd + seq!['/'] + path),
        resolved(seq!['.', '/'] + path, home, cwd) == Some(cwd + seq!['/'] + path),
{
    lemma_resolved_relative(path, home, cwd);
}

/// With an absolute working directory, and an absolute home directory if
/// there is one, every path that resolves resolves to an absolute path.
pub proof fn lemma_resolved_is_absolute(path: Seq<char>, home: Option<Seq<char>>, cwd: Seq<char>)
    requires
        is_absolute(cwd),
        home matches Some(h) ==> is_absolute(h),
    ensures
        resolved(path, home, cwd) matches Some(full) ==> is_absolute(full),
{
}

/// The characters of an optional string.
pub open spec fn text_of(s: Option<&str>) -> Option<Seq<char>> {
    match s {
        Some(t) => Some(t@),
        None => None,
    }
}

/// The characters of an optional owned string.
pub open spec fn string_of(s: Option<String>) -> Option<Seq<char>> {
    match s {
        Some(t) => Some(t@),
        None => None,
    }
}

/// Joins `rest` to `base` as [`joined`] describes.
pub fn join(base: &str, rest: &str) -> (path: String)
    ensures
        path@ == joined(base@, rest@),
{
    let rest_len = rest.unicode_len();
    if rest_len > 0 && rest.get_char(0) == '/' {
        return String::from_str(rest);
    }
    let base_len = base.unicode_len();
    let mut path = String::from_str(base);
    if base_len > 0 && base.get_char(base_len - 1) != '/' {
        proof {
            reveal_strlit("/");
        }
        path.append("/");
    }
    path.append(rest);
    path
}

/// Tells whether `path` is resolved against the working directory: it is
/// neither home-relative nor absolute.
pub fn needs_working_directory(path: &str) -> (r: bool)
    ensures
        r == (!is_home_relative(path@) && !is_absolute(path@)),
{
    let len = path.unicode_len();
    !(len > 0 && (path.get_char(0) == '~' || path.get_char(0) == '/'))
}

/// Resolves `path` against the given home and working directories.
///
/// Returns `None` exactly when `path` is home-relative and no home directory
/// is given; otherwise the path that [`resolved`] describes.
pub fn resolve(path: &str, home: Option<&str>, cwd: &str) -> (r: Option<String>)
    ensures
        string_of(r) == resolved(path@, text_of(home), cwd@),
{
    let len = path.unicode_len();
    if len > 0 && path.get_char(0) == '~' {
        match home {
            Some(h) => {
                let mut full = String::from_str(h);
                full.append(path.substring_char(1, len));
                Some(full)
            },
            None => None,
        }
    } else if len > 0 && path.get_char(0) == '/' {
        Some(String::from_str(path))
    } else if len >= 2 && path.get_char(0) == '.' && path.get_char(1) == '/' {
        let rest = path.substring_char(2, len);
        Some(join(cwd, rest))
    } else {
        Some(join(cwd, path))
    }
}

/// Tells whether `path` can be placed below a directory without leaving it.
pub fn is_safe_relative_path(path: &str) -> (r: bool)
    ensures
        r == is_safe_relative(path@),
{
    let chars = chars_of(path);
    let n = chars.len();
    if n == 0 || chars[0] == '/' {
        return false;
    }
    let mut i: usize = 0;
    while i < n
        invariant
            i <= n == chars@.len(),
            chars@ == path@,
            forall|j: int| 0 <= j < i ==> !is_parent_component_at(path@, j),
        decreases n - i,
    {
        if n - i >= 2 && chars[i] == '.' && chars[i + 1] == '.' && (i == 0 || chars[i - 1] == '/')
            && (i + 2 == n || chars[i + 2] == '/') {
            assert(is_parent_component_at(path@, i as int));
            return false;
        }
        i += 1;
    }
    true
}

/// The directory that holds `path`, as [`parent_of`] describes.
pub fn parent_directory(path: &str) -> (dir: String)
    ensures
        dir@ == parent_of(path@),
{
    let chars = chars_of(path);
    let n = chars.len();
    let mut end: usize = n;
    assert(path@.take(n as int) =~= path@);
    while end > 0 && chars[end - 1] != '/'
        invariant
            end <= n == chars@.len(),
            chars@ == path@,
            last_separator(path@) == last_separator(path@.take(end as int)),
        decreases end,
    {
        assert(path@.take(end as int).drop_last() =~= path@.take(end - 1));
        end -= 1;
    }
    if end == 0 {
        String::new()
    } else if end == 1 {
        String::from_str(path.substring_char(0, 1))
    } else {
        String::from_str(path.substring_char(0, end - 1))
    }
}

/// Asks `home::home_dir` for the home directory of the current user.
///
/// The answer comes from the environment of the process, so nothing is
/// claimed about it. A home directory that is not valid Unicode cannot be
/// held as text and is reported like one that is not known.
#[verifier::external_body]
fn home_directory() -> (home: Option<String>) {
    home::home_dir().and_then(|dir| dir.into_os_string().into_string().ok())
}

/// Resolves `path` for the current user: like [`resolve`], with the home
/// directory looked up when, and only when, `path` is home-relative.
///
/// A path that is not home-relative resolves to exactly what [`resolved`]
/// gives for it. A home-relative path resolves against whatever home
/// directory the environment reports, and to `None` if it reports none.
pub fn expand_path(path: &str, cwd: &str) -> (r: Option<String>)
    ensures
        !is_home_relative(path@) ==> string_of(r) == resolved(path@, None, cwd@),
        is_home_relative(path@) ==> exists|home: Option<Seq<char>>|
            string_of(r) == #[trigger] resolved(path@, home, cwd@),
{
    let len = path.unicode_len();
    if len > 0 && path.get_char(0) == '~' {
        match home_directory() {
            Some(home) => resolve(path, Some(home.as_str()), cwd),
            None => resolve(path, None, cwd),
        }
    } else {
        resolve(path, None, cwd)
    }
}

} // verus!
