//! What a run is asked to do.

use vstd::prelude::*;
use vstd::string::StrSliceExecFns;

verus! {

/// The settings of one run. `paths` holds files, directories and globs, in
/// the order in which they are processed; `ignore_patterns` holds the
/// exclusion patterns.
#[derive(Debug, PartialEq, Eq)]
pub struct Config {
    pub recursive: bool,
    pub verbose: bool,
    pub ignore_patterns: Vec<String>,
    pub paths: Vec<String>,
}

/// Whether `c` is white space: a character with the Unicode property
/// `White_Space`.
pub open spec fn is_white_space(c: char) -> bool {
    let code = c as u32;
    ||| 0x09 <= code <= 0x0d
    ||| code == 0x20
    ||| code == 0x85
    ||| code == 0xa0
    ||| code == 0x1680
    ||| 0x2000 <= code <= 0x200a
    ||| code == 0x2028
    ||| code == 0x2029
    ||| code == 0x202f
    ||| code == 0x205f
    ||| code == 0x3000
}

/// Whether a line holds nothing but white space.
pub open spec fn is_blank(line: Seq<char>) -> bool {
    forall|i: int| 0 <= i < line.len() ==> is_white_space(#[trigger] line[i])
}

/// The lines that are not blank, in order.
pub open spec fn non_blank(lines: Seq<Seq<char>>) -> Seq<Seq<char>>
    decreases lines.len(),
{
    if lines.len() == 0 {
        Seq::empty()
    } else if is_blank(lines.last()) {
        non_blank(lines.drop_last())
    } else {
        non_blank(lines.drop_last()).push(lines.last())
    }
}

/// Tells whether `c` is white space.
pub fn white_space(c: char) -> (white: bool)
    ensures
        white == is_white_space(c),
{
    let code: u32 = c as u32;
    (0x09 <= code && code <= 0x0d) || code == 0x20 || code == 0x85 || code == 0xa0 || code
        == 0x1680 || (0x2000 <= code && code <= 0x200a) || code == 0x2028 || code == 0x2029
        || code == 0x202f || code == 0x205f || code == 0x3000
}

/// Tells whether a line holds nothing but white space.
pub fn blank_line(line: &str) -> (blank: bool)
    ensures
        blank == is_blank(line@),
{
    let n: usize = line.unicode_len();
    let mut i: usize = 0;
    while i < n
        invariant
            i <= n,
            n == line@.len(),
            forall|j: int| 0 <= j < i ==> is_white_space(#[trigger] line@[j]),
        decreases n - i,
    {
        if !white_space(line.get_char(i)) {
            return false;
        }
        i += 1;
    }
    true
}

/// Joins the paths given as arguments with those read from an input
/// stream, one per line: the arguments first, then every line that is not
/// blank, each as it was read.
pub fn merge_paths(arguments: Vec<String>, lines: &Vec<String>) -> (paths: Vec<String>)
    ensures
        paths.deep_view() == arguments.deep_view() + non_blank(lines.deep_view()),
{
    let ghost given = arguments.deep_view();
    let ghost read = lines.deep_view();
    let mut paths = arguments;
    let mut i: usize = 0;
    assert(read.take(0) =~= Seq::<Seq<char>>::empty());
    assert(given + non_blank(read.take(0)) =~= given);
    while i < lines.len()
        invariant
            i <= lines.len(),
            read == lines.deep_view(),
            paths.deep_view() == given + non_blank(read.take(i as int)),
        decreases lines.len() - i,
    {
        let ghost before = paths.deep_view();
        assert(read.take(i + 1).drop_last() =~= read.take(i as int));
        assert(read.take(i + 1).last() == lines[i as int]@);
        if !blank_line(lines[i].as_str()) {
            paths.push(lines[i].clone());
            assert(paths.deep_view() =~= before.push(lines[i as int]@));
            assert(paths.deep_view() =~= given + non_blank(read.take(i + 1)));
        }
        i += 1;
    }
    assert(read.take(i as int) =~= read);
    paths
}

} // verus!
