//! File discovery: from what was found on disk for each configured entry
//! to the ordered list of files that a run covers.

use crate::config::Config;
use crate::error::Error;
use crate::paths::{entry_pattern, expanded_entry, relative_path, relativize};
use crate::pattern::{excluded_by, is_excluded, CompiledPattern};
use vstd::prelude::*;

verus! {

/// What the version-control system said about one path.
#[derive(Debug, Clone, Copy, PartialEq, Eq, Structural)]
pub enum VcsAnswer {
    /// No working tree encloses the current directory.
    NoRepository,
    /// The path is not ignored.
    NotIgnored,
    /// The path is ignored.
    Ignored,
    /// The query itself failed.
    QueryFailed,
}

/// Tells whether a path is left out on account of version control. Only a
/// definite answer leaves it out: without a repository nothing is ignored,
/// and a failed query counts as "not ignored".
pub fn is_ignored_by_git(answer: VcsAnswer) -> (ignored: bool)
    ensures
        ignored == (answer is Ignored),
{
    match answer {
        VcsAnswer::Ignored => true,
        VcsAnswer::NoRepository => false,
        VcsAnswer::NotIgnored => false,
        VcsAnswer::QueryFailed => false,
    }
}

/// One path that a glob expansion produced, with what is known of it.
/// `vcs` is the answer for the path made relative.
#[derive(Debug, PartialEq, Eq)]
pub struct Candidate {
    pub path: String,
    pub is_file: bool,
    pub vcs: VcsAnswer,
}

/// One item of a glob expansion: a path, or the report that a path could
/// not be examined.
#[derive(Debug, PartialEq, Eq)]
pub enum GlobEntry {
    Found(Candidate),
    Unreadable(String),
}

/// What was found on disk for one configured entry. `is_dir` is about the
/// entry itself. `is_file` tells whether the entry's glob names a regular
/// file directly, and `vcs` is then the answer for it. `expansion` is what
/// expanding the entry's glob gave: its items in the order in which they
/// were enumerated, or the message of the refusal where the glob is
/// malformed.
#[derive(Debug, PartialEq, Eq)]
pub struct EntryScan {
    pub is_dir: bool,
    pub is_file: bool,
    pub vcs: VcsAnswer,
    pub expansion: Result<Vec<GlobEntry>, String>,
}

/// What becomes of a candidate.
#[derive(Debug, Clone, Copy, PartialEq, Eq, Structural)]
pub enum Verdict {
    /// It is no regular file.
    NotAFile,
    /// Its relative path was found before.
    Duplicate,
    /// An exclusion pattern matches its relative path.
    ExcludedByPattern,
    /// Version control ignores it.
    ExcludedByVcs,
    /// It joins the files found.
    Included,
}

/// What becomes of a candidate, given the files found so far. The tests
/// are made in this order, and the first that applies decides.
pub open spec fn verdict(
    patterns: Seq<Seq<char>>,
    seen: Seq<Seq<char>>,
    path: Seq<char>,
    is_file: bool,
    vcs: VcsAnswer,
) -> Verdict {
    if !is_file {
        Verdict::NotAFile
    } else if seen.contains(relative_path(path)) {
        Verdict::Duplicate
    } else if excluded_by(patterns, relative_path(path)) {
        Verdict::ExcludedByPattern
    } else if vcs is Ignored {
        Verdict::ExcludedByVcs
    } else {
        Verdict::Included
    }
}

/// Whether a candidate joins the files found so far: it is a regular file,
/// its relative path was not found before, no exclusion pattern matches
/// that path, and version control does not ignore it.
pub open spec fn admitted(
    patterns: Seq<Seq<char>>,
    seen: Seq<Seq<char>>,
    path: Seq<char>,
    is_file: bool,
    vcs: VcsAnswer,
) -> bool {
    &&& is_file
    &&& !seen.contains(relative_path(path))
    &&& !excluded_by(patterns, relative_path(path))
    &&& !(vcs is Ignored)
}

/// The files found once one candidate has been considered.
pub open spec fn with_candidate(
    patterns: Seq<Seq<char>>,
    seen: Seq<Seq<char>>,
    path: Seq<char>,
    is_file: bool,
    vcs: VcsAnswer,
) -> Seq<Seq<char>> {
    if admitted(patterns, seen, path, is_file, vcs) {
        seen.push(relative_path(path))
    } else {
        seen
    }
}

/// The files found once the items of an expansion have been considered in
/// order. An item that could not be examined is passed over.
pub open spec fn with_matches(
    patterns: Seq<Seq<char>>,
    seen: Seq<Seq<char>>,
    matches: Seq<GlobEntry>,
) -> Seq<Seq<char>>
    decreases matches.len(),
{
    if matches.len() == 0 {
        seen
    } else {
        let before = with_matches(patterns, seen, matches.drop_last());
        match matches.last() {
            GlobEntry::Found(candidate) => with_candidate(
                patterns,
                before,
                candidate.path@,
                candidate.is_file,
                candidate.vcs,
            ),
            GlobEntry::Unreadable(_) => before,
        }
    }
}

/// The files found once one entry has been processed, or the message of
/// the refusal that stops the run. An entry whose glob names a regular file
/// is that one candidate, and its expansion is not looked at. Any other
/// entry contributes its expansion, and stops the run where it has none.
pub open spec fn with_entry(
    recursive: bool,
    patterns: Seq<Seq<char>>,
    seen: Seq<Seq<char>>,
    entry: Seq<char>,
    scan: EntryScan,
) -> Result<Seq<Seq<char>>, Seq<char>> {
    if scan.is_file {
        Ok(
            with_candidate(
                patterns,
                seen,
                expanded_entry(recursive, entry, scan.is_dir),
                true,
                scan.vcs,
            ),
        )
    } else {
        match scan.expansion {
            Ok(matches) => Ok(with_matches(patterns, seen, matches@)),
            Err(cause) => Err(cause@),
        }
    }
}

/// The outcome of processing the first `n` entries in order: the files
/// found, or the message of the first refusal, after which nothing more is
/// processed.
pub open spec fn discovered(
    recursive: bool,
    patterns: Seq<Seq<char>>,
    entries: Seq<Seq<char>>,
    scans: Seq<EntryScan>,
    n: int,
) -> Result<Seq<Seq<char>>, Seq<char>>
    decreases n,
{
    if n <= 0 {
        Ok(Seq::empty())
    } else {
        match discovered(recursive, patterns, entries, scans, n - 1) {
            Ok(seen) => with_entry(recursive, patterns, seen, entries[n - 1], scans[n - 1]),
            Err(cause) => Err(cause),
        }
    }
}

/// Whether `files` holds no path twice and no path that a pattern excludes.
pub open spec fn clean(patterns: Seq<Seq<char>>, files: Seq<Seq<char>>) -> bool {
    &&& files.no_duplicates()
    &&& forall|i: int| 0 <= i < files.len() ==> !excluded_by(patterns, #[trigger] files[i])
}

/// Considering a candidate keeps a list free of duplicates and of excluded
/// paths.
pub proof fn lemma_candidate_keeps_clean(
    patterns: Seq<Seq<char>>,
    seen: Seq<Seq<char>>,
    path: Seq<char>,
    is_file: bool,
    vcs: VcsAnswer,
)
    requires
        clean(patterns, seen),
    ensures
        clean(patterns, with_candidate(patterns, seen, path, is_file, vcs)),
{
}

/// Considering an expansion keeps a list free of duplicates and of excluded
/// paths.
pub proof fn lemma_matches_keep_clean(
    patterns: Seq<Seq<char>>,
    seen: Seq<Seq<char>>,
    matches: Seq<GlobEntry>,
)
    requires
        clean(patterns, seen),
    ensures
        clean(patterns, with_matches(patterns, seen, matches)),
    decreases matches.len(),
{
    if matches.len() > 0 {
        lemma_matches_keep_clean(patterns, seen, matches.drop_last());
        let before = with_matches(patterns, seen, matches.drop_last());
        match matches.last() {
            GlobEntry::Found(candidate) => {
                lemma_candidate_keeps_clean(
                    patterns,
                    before,
                    candidate.path@,
                    candidate.is_file,
                    candidate.vcs,
                );
            },
            GlobEntry::Unreadable(_) => {},
        }
    }
}

/// However the entries overlap in what they match, every file is
/// discovered at most once, and no discovered path is one that an exclusion
/// pattern matches.
pub proof fn lemma_discovered_is_clean(
    recursive: bool,
    patterns: Seq<Seq<char>>,
    entries: Seq<Seq<char>>,
    scans: Seq<EntryScan>,
    n: int,
)
    ensures
        discovered(recursive, patterns, entries, scans, n) matches Ok(files) ==> {
            &&& files.no_duplicates()
            &&& forall|i: int| 0 <= i < files.len() ==> !excluded_by(patterns, #[trigger] files[i])
        },
    decreases n,
{
    if n > 0 {
        lemma_discovered_is_clean(recursive, patterns, entries, scans, n - 1);
        if let Ok(before) = discovered(recursive, patterns, entries, scans, n - 1) {
            let scan = scans[n - 1];
            assert(clean(patterns, before));
            lemma_candidate_keeps_clean(
                patterns,
                before,
                expanded_entry(recursive, entries[n - 1], scan.is_dir),
                true,
                scan.vcs,
            );
            if let Ok(matches) = scan.expansion {
                lemma_matches_keep_clean(patterns, before, matches@);
            }
            if let Ok(files) = discovered(recursive, patterns, entries, scans, n) {
                assert(clean(patterns, files));
            }
        }
    }
}

/// Once an entry has stopped the run, the entries after it change nothing.
pub proof fn lemma_failure_lasts(
    recursive: bool,
    patterns: Seq<Seq<char>>,
    entries: Seq<Seq<char>>,
    scans: Seq<EntryScan>,
    n: int,
    m: int,
)
    requires
        0 <= n <= m,
        discovered(recursive, patterns, entries, scans, n) is Err,
    ensures
        discovered(recursive, patterns, entries, scans, m) == discovered(
            recursive,
            patterns,
            entries,
            scans,
            n,
        ),
    decreases m - n,
{
    if n < m {
        lemma_failure_lasts(recursive, patterns, entries, scans, n, m - 1);
    }
}

/// Tells whether `path` is among `files`.
fn holds(files: &Vec<String>, path: &String) -> (found: bool)
    ensures
        found == files.deep_view().contains(path@),
{
    let mut k: usize = 0;
    while k < files.len()
        invariant
            k <= files.len(),
            forall|j: int| 0 <= j < k ==> files.deep_view()[j] != path@,
        decreases files.len() - k,
    {
        assert(files.deep_view()[k as int] == files[k as int]@);
        if files[k] == *path {
            return true;
        }
        k += 1;
    }
    false
}

/// Considers one candidate: appends its relative path to `files` where it
/// is admitted, and says what became of it.
pub fn consider(
    matchers: &Vec<CompiledPattern>,
    files: &mut Vec<String>,
    path: &str,
    is_file: bool,
    vcs: VcsAnswer,
) -> (outcome: Verdict)
    ensures
        outcome == verdict(matchers.deep_view(), old(files).deep_view(), path@, is_file, vcs),
        (outcome is Included) == admitted(
            matchers.deep_view(),
            old(files).deep_view(),
            path@,
            is_file,
            vcs,
        ),
        final(files).deep_view() == with_candidate(
            matchers.deep_view(),
            old(files).deep_view(),
            path@,
            is_file,
            vcs,
        ),
{
    if !is_file {
        return Verdict::NotAFile;
    }
    let relative = relativize(path);
    if holds(files, &relative) {
        return Verdict::Duplicate;
    }
    if is_excluded(matchers, relative.as_str()) {
        return Verdict::ExcludedByPattern;
    }
    if is_ignored_by_git(vcs) {
        return Verdict::ExcludedByVcs;
    }
    let ghost before = files.deep_view();
    files.push(relative);
    assert(files.deep_view() =~= before.push(relative@));
    Verdict::Included
}

/// Expands the configured entries into the files of a run: relative paths,
/// each once, in the order in which they were first found. `scans` holds
/// what was found on disk for each entry of `config.paths`, in the same
/// order.
///
/// The run stops with an error at the first entry whose glob neither names
/// a regular file nor could be expanded; the error carries the message of
/// the refusal.
pub fn discover(
    config: &Config,
    matchers: &Vec<CompiledPattern>,
    scans: &Vec<EntryScan>,
) -> (found: Result<Vec<String>, Error>)
    requires
        scans.len() == config.paths.len(),
    ensures
        match found {
            Ok(files) => discovered(
                config.recursive,
                matchers.deep_view(),
                config.paths.deep_view(),
                scans@,
                scans.len() as int,
            ) == Ok::<Seq<Seq<char>>, Seq<char>>(files.deep_view()),
            Err(error) => error matches Error::GlobPattern(cause) && discovered(
                config.recursive,
                matchers.deep_view(),
                config.paths.deep_view(),
                scans@,
                scans.len() as int,
            ) == Err::<Seq<Seq<char>>, Seq<char>>(cause@),
        },
        found matches Ok(files) ==> clean(matchers.deep_view(), files.deep_view()),
{
    let ghost entries = config.paths.deep_view();
    let ghost patterns = matchers.deep_view();
    let mut files: Vec<String> = Vec::new();
    let mut i: usize = 0;
    assert(files.deep_view() =~= Seq::<Seq<char>>::empty());
    while i < scans.len()
        invariant
            i <= scans.len(),
            scans.len() == config.paths.len(),
            entries == config.paths.deep_view(),
            patterns == matchers.deep_view(),
            discovered(config.recursive, patterns, entries, scans@, i as int) == Ok::<
                Seq<Seq<char>>,
                Seq<char>,
            >(files.deep_view()),
        decreases scans.len() - i,
    {
        let scan = &scans[i];
        assert(entries[i as int] == config.paths[i as int]@);
        if scan.is_file {
            let pattern = entry_pattern(config.recursive, config.paths[i].as_str(), scan.is_dir);
            consider(matchers, &mut files, pattern.as_str(), true, scan.vcs);
        } else {
            match &scan.expansion {
                Ok(matches) => {
                    let ghost before = files.deep_view();
                    let mut k: usize = 0;
                    assert(matches@.take(0) =~= Seq::<GlobEntry>::empty());
                    while k < matches.len()
                        invariant
                            k <= matches.len(),
                            patterns == matchers.deep_view(),
                            files.deep_view() == with_matches(
                                patterns,
                                before,
                                matches@.take(k as int),
                            ),
                        decreases matches.len() - k,
                    {
                        assert(matches@.take(k + 1).drop_last() =~= matches@.take(k as int));
                        assert(matches@.take(k + 1).last() == matches@[k as int]);
                        match &matches[k] {
                            GlobEntry::Found(candidate) => {
                                consider(
                                    matchers,
                                    &mut files,
                                    candidate.path.as_str(),
                                    candidate.is_file,
                                    candidate.vcs,
                                );
                            },
                            GlobEntry::Unreadable(_) => {},
                        }
                        k += 1;
                    }
                    assert(matches@.take(k as int) =~= matches@);
                },
                Err(cause) => {
                    proof {
                        lemma_failure_lasts(
                            config.recursive,
                            patterns,
                            entries,
                            scans@,
                            i + 1,
                            scans.len() as int,
                        );
                    }
                    return Err(Error::GlobPattern(cause.clone()));
                },
            }
        }
        i += 1;
    }
    proof {
        lemma_discovered_is_clean(config.recursive, patterns, entries, scans@, scans.len() as int);
    }
    Ok(files)
}

} // verus!
