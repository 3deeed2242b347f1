//! Path texts: how a configured entry becomes a glob, and how a match is
//! made relative to the current directory.

use vstd::prelude::*;
use vstd::string::StrSliceExecFns;
use vstd::string::StringExecFns;

verus! {

/// `path` without the separators and current-directory components it
/// starts with.
pub open spec fn skip_cur_dirs(path: Seq<char>) -> Seq<char>
    decreases path.len(),
{
    if path.len() >= 1 && path[0] == '/' {
        skip_cur_dirs(path.skip(1))
    } else if path.len() >= 2 && path[0] == '.' && path[1] == '/' {
        skip_cur_dirs(path.skip(2))
    } else if path.len() == 1 && path[0] == '.' {
        Seq::empty()
    } else {
        path
    }
}

/// Whether the first component of `path` is the current directory.
pub open spec fn starts_in_cur_dir(path: Seq<char>) -> bool {
    path.len() >= 1 && path[0] == '.' && (path.len() == 1 || path[1] == '/')
}

/// `path` relative to the current directory: a leading `./` is dropped,
/// with the separators and further `.` components that follow it. Any other
/// path stays as it is.
pub open spec fn relative_path(path: Seq<char>) -> Seq<char> {
    if starts_in_cur_dir(path) {
        skip_cur_dirs(path.skip(1))
    } else {
        path
    }
}

/// What is left after skipping begins with neither a separator nor a
/// current-directory component.
pub proof fn lemma_skipped_is_bare(path: Seq<char>)
    ensures
        !starts_in_cur_dir(skip_cur_dirs(path)),
        skip_cur_dirs(path).len() >= 1 ==> skip_cur_dirs(path)[0] != '/',
    decreases path.len(),
{
    if path.len() >= 1 && path[0] == '/' {
        lemma_skipped_is_bare(path.skip(1));
    } else if path.len() >= 2 && path[0] == '.' && path[1] == '/' {
        lemma_skipped_is_bare(path.skip(2));
    }
}

/// A relative path is relative already: making it relative once more
/// changes nothing.
pub proof fn lemma_relative_path_is_stable(path: Seq<char>)
    ensures
        relative_path(relative_path(path)) == relative_path(path),
{
    if starts_in_cur_dir(path) {
        lemma_skipped_is_bare(path.skip(1));
    }
}

/// Makes `path` relative to the current directory.
pub fn relativize(path: &str) -> (relative: String)
    ensures
        relative@ == relative_path(path@),
{
    let n: usize = path.unicode_len();
    if n == 0 || path.get_char(0) != '.' {
        return String::from_str(path);
    }
    if n >= 2 && path.get_char(1) != '/' {
        return String::from_str(path);
    }
    let mut i: usize = 1;
    let mut scanning: bool = true;
    while scanning
        invariant
            1 <= i <= n,
            n == path@.len(),
            scanning ==> skip_cur_dirs(path@.skip(1)) == skip_cur_dirs(path@.skip(i as int)),
            !scanning ==> skip_cur_dirs(path@.skip(1)) == path@.skip(i as int),
        decreases (n - i) + (if scanning { 1int } else { 0int }),
    {
        let ghost rest = path@.skip(i as int);
        if i < n && path.get_char(i) == '/' {
            assert(rest[0] == '/');
            assert(rest.skip(1) =~= path@.skip(i + 1));
            i += 1;
        } else if i < n && n - i >= 2 && path.get_char(i) == '.' && path.get_char(i + 1) == '/' {
            assert(rest[0] == '.' && rest[1] == '/');
            assert(rest.skip(2) =~= path@.skip(i + 2));
            i += 2;
        } else if i < n && n - i == 1 && path.get_char(i) == '.' {
            assert(rest.len() == 1 && rest[0] == '.');
            assert(path@.skip(n as int) =~= Seq::<char>::empty());
            i = n;
            scanning = false;
        } else {
            assert(skip_cur_dirs(rest) == rest) by {
                if rest.len() >= 1 {
                    assert(rest[0] == path@[i as int]);
                }
                if rest.len() >= 2 {
                    assert(rest[1] == path@[i + 1]);
                }
            }
            scanning = false;
        }
    }
    assert(path@.skip(i as int) =~= path@.subrange(i as int, n as int));
    String::from_str(path.substring_char(i, n))
}

/// The glob that stands for one configured entry: everything beneath it, at
/// any depth, where a run is recursive and the entry is a directory;
/// otherwise the entry itself.
pub open spec fn expanded_entry(recursive: bool, entry: Seq<char>, is_dir: bool) -> Seq<char> {
    if recursive && is_dir {
        entry + "/**/*"@
    } else {
        entry
    }
}

/// Turns one configured entry into the glob to expand. `is_dir` says
/// whether the entry names an existing directory.
pub fn entry_pattern(recursive: bool, entry: &str, is_dir: bool) -> (pattern: String)
    ensures
        pattern@ == expanded_entry(recursive, entry@, is_dir),
{
    if recursive && is_dir {
        String::from_str(entry).concat("/**/*")
    } else {
        String::from_str(entry)
    }
}

} // verus!
