//! Paths as text.
//!
//! A path is a string whose components are separated by `/`. The functions
//! here take such a string apart (file name, stem, extension, parent) and put
//! two of them together. What stands at the end of a path without naming
//! anything is left out first: separators, and a `.` behind a separator, so
//! that `a/`, `a//` and `a/.` all have the file name `a`. A `..` is not
//! resolved: `a/..` has no file name, and its parent is `a`. None of the
//! functions looks at a disk: what a path names there is told to the library
//! as a `PathStatus`.

use vstd::prelude::*;
use crate::errors::{AppError, AppErrorView};
use crate::seqs::opt_view;
use crate::text::{chars_of, find_last, last_index_of, lemma_last_index_of, slice_of};

verus! {

/// What a path names on disk, as found by whoever looked.
#[derive(Clone, Copy, Debug, PartialEq, Eq, Structural)]
pub enum PathStatus {
    /// Nothing is there.
    Missing,
    /// A regular file.
    File,
    /// A directory.
    Directory,
    /// Something else.
    Other,
}

/// The text after the last separator of `path`: all of it when it has none.
pub open spec fn last_component(path: Seq<char>) -> Seq<char> {
    path.skip(last_index_of(path, '/') + 1)
}

/// `name` is `.` or `..`, which name a directory by its place and not a file.
pub open spec fn is_dots(name: Seq<char>) -> bool {
    ||| name.len() == 1 && name[0] == '.'
    ||| name.len() == 2 && name[0] == '.' && name[1] == '.'
}

/// How much of `path` is left when what names nothing at its end is cut
/// off: separators, and each `.` that stands behind a separator.
pub open spec fn trimmed_len(path: Seq<char>) -> int
    decreases path.len(),
{
    if path.len() == 0 {
        0
    } else if path.last() == '/' {
        trimmed_len(path.drop_last())
    } else if path.len() >= 2 && path.last() == '.' && path[path.len() - 2] == '/' {
        trimmed_len(path.take(path.len() - 2))
    } else {
        path.len() as int
    }
}

/// `path` without what names nothing at its end.
pub open spec fn trimmed(path: Seq<char>) -> Seq<char> {
    path.take(trimmed_len(path))
}

/// The last component of `text` as a name: none where it is empty, `.` or
/// `..`.
pub open spec fn last_name(text: Seq<char>) -> Option<Seq<char>> {
    let name = last_component(text);
    if name.len() == 0 || is_dots(name) {
        None
    } else {
        Some(name)
    }
}

/// The file name of `path`: the last component of what is left of it when
/// its end is trimmed, unless that is empty, `.` or `..`.
pub open spec fn spec_file_name(path: Seq<char>) -> Option<Seq<char>> {
    last_name(trimmed(path))
}

/// The extension of `path`: what follows the last dot of its file name. A file
/// name without a dot, or whose only dot is its first character, has none.
pub open spec fn spec_extension(path: Seq<char>) -> Option<Seq<char>> {
    match spec_file_name(path) {
        None => None,
        Some(name) => {
            let dot = last_index_of(name, '.');
            if dot <= 0 {
                None
            } else {
                Some(name.skip(dot + 1))
            }
        },
    }
}

/// The stem of `path`: its file name without the extension and its dot.
pub open spec fn spec_file_stem(path: Seq<char>) -> Option<Seq<char>> {
    match spec_file_name(path) {
        None => None,
        Some(name) => {
            let dot = last_index_of(name, '.');
            if dot <= 0 {
                Some(name)
            } else {
                Some(name.take(dot))
            }
        },
    }
}

/// `path` starts at the root.
pub open spec fn spec_is_absolute(path: Seq<char>) -> bool {
    path.len() > 0 && path[0] == '/'
}

/// The parent of `path`: the path without its last component, trimmed in
/// its turn, but never less than the root. A path of one component that does
/// not start at the root has the empty parent; the empty path and the root
/// have none.
pub open spec fn spec_parent(path: Seq<char>) -> Option<Seq<char>> {
    let rest = trimmed(path);
    let sep = last_index_of(rest, '/');
    if rest.len() == 0 {
        None
    } else if sep < 0 {
        Some(Seq::<char>::empty())
    } else {
        let head = rest.take(sep + 1);
        if trimmed_len(head) == 0 {
            Some(head.take(1))
        } else {
            Some(trimmed(head))
        }
    }
}

/// The directory that holds `path`: its parent, or the empty path where it
/// has none.
pub open spec fn dir_of(path: Seq<char>) -> Seq<char> {
    match spec_parent(path) {
        Some(dir) => dir,
        None => Seq::<char>::empty(),
    }
}

/// The file name of `path`, or the empty text for a path without one.
pub open spec fn file_name_of(path: Seq<char>) -> Seq<char> {
    match spec_file_name(path) {
        Some(name) => name,
        None => Seq::<char>::empty(),
    }
}

/// `rel` seen from `base`: `rel` itself when it is absolute, else `base`, a
/// separator unless `base` is empty or ends in one, and `rel`.
pub open spec fn spec_join(base: Seq<char>, rel: Seq<char>) -> Seq<char> {
    if spec_is_absolute(rel) {
        rel
    } else if base.len() == 0 || base.last() == '/' {
        base + rel
    } else {
        base + seq!['/'] + rel
    }
}

/// A component `..` starts at position `i` of `path`.
pub open spec fn goes_up_at(path: Seq<char>, i: int) -> bool {
    &&& 0 <= i && i + 2 <= path.len()
    &&& path[i] == '.' && path[i + 1] == '.'
    &&& (i == 0 || path[i - 1] == '/')
    &&& (i + 2 == path.len() || path[i + 2] == '/')
}

/// `path` holds a component `..`, by which it may lead out of the directory
/// it is seen from.
pub open spec fn goes_up(path: Seq<char>) -> bool {
    exists|i: int| goes_up_at(path, i)
}

/// The directory `dir` as the start of a path: `.` for the empty path.
pub open spec fn base_of(dir: Seq<char>) -> Seq<char> {
    if dir.len() == 0 {
        seq!['.']
    } else {
        dir
    }
}

/// `rel` put below `dir` as text: the directory, a separator, and `rel` as
/// it is written, whether or not it starts at the root.
pub open spec fn spec_below(dir: Seq<char>, rel: Seq<char>) -> Seq<char> {
    base_of(dir) + seq!['/'] + rel
}

/// `ext` is `md`, in either case of each letter.
pub open spec fn is_markdown_extension(ext: Seq<char>) -> bool {
    ext.len() == 2 && (ext[0] == 'm' || ext[0] == 'M') && (ext[1] == 'd' || ext[1] == 'D')
}

/// `path` names a markdown file: its extension is `md`, whatever the case.
pub open spec fn spec_is_markdown_file(path: Seq<char>) -> bool {
    match spec_extension(path) {
        Some(ext) => is_markdown_extension(ext),
        None => false,
    }
}

/// The length of what is left of the first `upto` characters of `v` when their
/// end is trimmed.
fn trimmed_length(v: &Vec<char>, upto: usize) -> (n: usize)
    requires
        upto <= v.len(),
    ensures
        n == trimmed_len(v@.take(upto as int)),
        n <= upto,
{
    let mut n: usize = upto;
    loop
        invariant
            n <= upto <= v.len(),
            trimmed_len(v@.take(upto as int)) == trimmed_len(v@.take(n as int)),
        decreases n,
    {
        let ghost left = v@.take(n as int);
        if n > 0 && v[n - 1] == '/' {
            assert(left.drop_last() =~= v@.take(n - 1));
            n -= 1;
        } else if n >= 2 && v[n - 1] == '.' && v[n - 2] == '/' {
            assert(left.take(left.len() - 2) =~= v@.take(n - 2));
            n -= 2;
        } else {
            assert(left.len() == n);
            if n > 0 {
                assert(left.last() == v@[n - 1]);
            }
            if n >= 2 {
                assert(left[left.len() - 2] == v@[n - 2]);
            }
            return n;
        }
    }
}

/// The last component of `text` as a name.
fn name_at_end(text: &str) -> (name: Option<String>)
    ensures
        opt_view(name) == last_name(text@),
{
    let v = chars_of(text);
    let start: usize = match find_last(&v, '/') {
        Some(i) => i + 1,
        None => 0,
    };
    let len: usize = v.len();
    let n: usize = len - start;
    proof {
        lemma_last_index_of(text@, '/');
    }
    let ghost name = last_component(text@);
    assert(name.len() == n);
    if n == 0 {
        return None;
    }
    assert(name[0] == v@[start as int]);
    if n == 1 && v[start] == '.' {
        return None;
    }
    if n == 2 {
        assert(name[1] == v@[start + 1]);
        if v[start] == '.' && v[start + 1] == '.' {
            return None;
        }
    }
    Some(slice_of(text, start, len))
}

/// `path` without what names nothing at its end.
pub fn trim_end(path: &str) -> (rest: String)
    ensures
        rest@ == trimmed(path@),
{
    let v = chars_of(path);
    let n = trimmed_length(&v, v.len());
    assert(v@.take(v.len() as int) =~= v@);
    slice_of(path, 0, n)
}

/// The file name of `path`, if it has one.
pub fn file_name(path: &str) -> (name: Option<String>)
    ensures
        opt_view(name) == spec_file_name(path@),
{
    name_at_end(trim_end(path).as_str())
}

/// The extension of `path`, if it has one.
pub fn extension(path: &str) -> (ext: Option<String>)
    ensures
        opt_view(ext) == spec_extension(path@),
{
    match file_name(path) {
        None => None,
        Some(name) => {
            let v = chars_of(name.as_str());
            proof {
                lemma_last_index_of(name@, '.');
            }
            match find_last(&v, '.') {
                None => None,
                Some(dot) => {
                    if dot == 0 {
                        None
                    } else {
                        Some(slice_of(name.as_str(), dot + 1, v.len()))
                    }
                },
            }
        },
    }
}

/// The stem of `path`, if it has a file name.
pub fn file_stem(path: &str) -> (stem: Option<String>)
    ensures
        opt_view(stem) == spec_file_stem(path@),
{
    match file_name(path) {
        None => None,
        Some(name) => {
            let v = chars_of(name.as_str());
            proof {
                lemma_last_index_of(name@, '.');
            }
            match find_last(&v, '.') {
                None => Some(name),
                Some(dot) => {
                    if dot == 0 {
                        Some(name)
                    } else {
                        Some(slice_of(name.as_str(), 0, dot))
                    }
                },
            }
        },
    }
}

/// Tells whether `path` starts at the root.
pub fn is_absolute(path: &str) -> (r: bool)
    ensures
        r == spec_is_absolute(path@),
{
    let v = chars_of(path);
    v.len() > 0 && v[0] == '/'
}

/// The parent of `path`, if it has one.
pub fn parent(path: &str) -> (dir: Option<String>)
    ensures
        opt_view(dir) == spec_parent(path@),
{
    let rest = trim_end(path);
    let v = chars_of(rest.as_str());
    if v.len() == 0 {
        return None;
    }
    proof {
        lemma_last_index_of(rest@, '/');
    }
    match find_last(&v, '/') {
        None => Some(slice_of(rest.as_str(), 0, 0)),
        Some(sep) => {
            let n = trimmed_length(&v, sep + 1);
            let ghost head = rest@.take(sep + 1);
            assert(trimmed(head) =~= rest@.subrange(0, n as int));
            if n == 0 {
                assert(head.take(1) =~= rest@.subrange(0, 1));
                Some(slice_of(rest.as_str(), 0, 1))
            } else {
                Some(slice_of(rest.as_str(), 0, n))
            }
        },
    }
}

/// The directory that holds `path`.
pub fn dir_name(path: &str) -> (dir: String)
    ensures
        dir@ == dir_of(path@),
{
    match parent(path) {
        Some(dir) => dir,
        None => String::new(),
    }
}

/// `rel` seen from `base`.
pub fn join(base: &str, rel: &str) -> (path: String)
    ensures
        path@ == spec_join(base@, rel@),
{
    if is_absolute(rel) {
        return rel.to_owned();
    }
    let b = chars_of(base);
    let mut path = base.to_owned();
    if b.len() > 0 && b[b.len() - 1] != '/' {
        proof {
            reveal_strlit("/");
            assert("/"@ =~= seq!['/']);
        }
        path.append("/");
    }
    path.append(rel);
    path
}

/// Tells whether `path` holds a component `..`.
pub fn holds_way_up(path: &str) -> (r: bool)
    ensures
        r == goes_up(path@),
{
    let v = chars_of(path);
    let len = v.len();
    if len < 2 {
        return false;
    }
    let mut i: usize = 0;
    while i <= len - 2
        invariant
            2 <= len == v.len(),
            v@ == path@,
            forall|j: int| 0 <= j < i ==> !goes_up_at(path@, j),
        decreases len - i,
    {
        if v[i] == '.' && v[i + 1] == '.' && (i == 0 || v[i - 1] == '/') && (i + 2 == len || v[i + 2]
            == '/') {
            assert(goes_up_at(path@, i as int));
            return true;
        }
        i += 1;
    }
    false
}

/// `rel` put below `dir` as text.
pub fn below(dir: &str, rel: &str) -> (path: String)
    ensures
        path@ == spec_below(dir@, rel@),
{
    proof {
        reveal_strlit(".");
        reveal_strlit("/");
        assert("."@ =~= seq!['.']);
        assert("/"@ =~= seq!['/']);
    }
    let mut path = if chars_of(dir).len() == 0 {
        ".".to_owned()
    } else {
        dir.to_owned()
    };
    path.append("/");
    path.append(rel);
    path
}

/// Checks if the file at the given path has an extension of `md`, in any case.
pub fn is_markdown_file(path: &str) -> (r: bool)
    ensures
        r == spec_is_markdown_file(path@),
{
    match extension(path) {
        None => false,
        Some(ext) => {
            let v = chars_of(ext.as_str());
            v.len() == 2 && (v[0] == 'm' || v[0] == 'M') && (v[1] == 'd' || v[1] == 'D')
        },
    }
}

/// All of `paths` have a file name.
pub open spec fn all_have_file_names(paths: Seq<String>) -> bool {
    forall|i: int| 0 <= i < paths.len() ==> spec_file_name(#[trigger] paths[i]@) is Some
}

/// Takes a list of file paths, and only returns their file names (with
/// extensions). Fails when one of the paths has no file name.
pub fn grab_file_names_from_path_bufs(paths: &Vec<String>) -> (r: Result<Vec<String>, AppError>)
    ensures
        match r {
            Ok(names) => {
                &&& all_have_file_names(paths@)
                &&& names.len() == paths.len()
                &&& forall|i: int|
                    0 <= i < names.len() ==> spec_file_name(paths[i]@) == Some(
                        (#[trigger] names[i])@,
                    )
            },
            Err(e) => {
                &&& !all_have_file_names(paths@)
                &&& e@ == (AppErrorView {
                    error_kind: "App Error"@,
                    description: "Could not get file name from path"@,
                })
            },
        },
{
    let mut names: Vec<String> = Vec::new();
    let mut i: usize = 0;
    while i < paths.len()
        invariant
            i <= paths.len(),
            names.len() == i,
            forall|j: int| 0 <= j < i ==> spec_file_name(paths[j]@) == Some((#[trigger] names[j])@),
        decreases paths.len() - i,
    {
        match file_name(paths[i].as_str()) {
            Some(name) => {
                names.push(name);
            },
            None => {
                assert(spec_file_name(paths@[i as int]@) is None);
                return Err(AppError::new("Could not get file name from path"));
            },
        }
        i += 1;
    }
    assert forall|j: int| 0 <= j < paths.len() implies spec_file_name(
        #[trigger] paths@[j]@,
    ) is Some by {
        assert(spec_file_name(paths[j]@) == Some(names[j]@));
    }
    Ok(names)
}

/// The message of `validate_file_path` for a path that names nothing.
pub open spec fn missing_file_message(path: Seq<char>) -> Seq<char> {
    "File "@ + path + " does not exist"@
}

/// The message of `validate_file_path` for a path that names no file.
pub open spec fn not_a_file_message(path: Seq<char>) -> Seq<char> {
    path + " is not a file"@
}

/// The message of `validate_dir_path` for a path that names nothing.
pub open spec fn missing_dir_message(path: Seq<char>) -> Seq<char> {
    "Directory "@ + path + " does not exist"@
}

/// The message of `validate_dir_path` for a path that names no directory.
pub open spec fn not_a_dir_message(path: Seq<char>) -> Seq<char> {
    path + " is not a directory"@
}

/// Checks whether the given path exists and is a file, going by `status`,
/// which is what the path was found to name.
pub fn validate_file_path(s: &str, status: PathStatus) -> (r: Result<String, String>)
    ensures
        match r {
            Ok(path) => status == PathStatus::File && path@ == s@,
            Err(message) => {
                &&& status != PathStatus::File
                &&& message@ == if status == PathStatus::Missing {
                    missing_file_message(s@)
                } else {
                    not_a_file_message(s@)
                }
            },
        },
{
    match status {
        PathStatus::Missing => {
            let mut message = "File ".to_owned();
            message.append(s);
            message.append(" does not exist");
            Err(message)
        },
        PathStatus::File => Ok(s.to_owned()),
        _ => {
            let mut message = s.to_owned();
            message.append(" is not a file");
            Err(message)
        },
    }
}

/// Checks whether the given path is a directory and if it exists, going by
/// `status`, which is what the path was found to name.
pub fn validate_dir_path(s: &str, status: PathStatus) -> (r: Result<String, String>)
    ensures
        match r {
            Ok(path) => status == PathStatus::Directory && path@ == s@,
            Err(message) => {
                &&& status != PathStatus::Directory
                &&& message@ == if status == PathStatus::Missing {
                    missing_dir_message(s@)
                } else {
                    not_a_dir_message(s@)
                }
            },
        },
{
    match status {
        PathStatus::Missing => {
            let mut message = "Directory ".to_owned();
            message.append(s);
            message.append(" does not exist");
            Err(message)
        },
        PathStatus::Directory => Ok(s.to_owned()),
        _ => {
            let mut message = s.to_owned();
            message.append(" is not a directory");
            Err(message)
        },
    }
}

/// A file name holds no separator.
pub proof fn lemma_file_name_has_no_separator(path: Seq<char>)
    requires
        spec_file_name(path) is Some,
    ensures
        !spec_file_name(path)->0.contains('/'),
{
    let rest = trimmed(path);
    lemma_last_index_of(rest, '/');
    let name = last_component(rest);
    let start = last_index_of(rest, '/') + 1;
    if name.contains('/') {
        let i = choose|i: int| 0 <= i < name.len() && name[i] == '/';
        assert(rest[start + i] == '/');
    }
}

} // verus!
