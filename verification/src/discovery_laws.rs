//! What holds of every discovery: nothing that passes the filters is lost,
//! nothing is found that was not offered, and what is found stays in the
//! order in which it was first found.

use crate::discovery::{
    admitted, discovered, with_candidate, with_matches, EntryScan, GlobEntry, VcsAnswer,
};
use crate::paths::{expanded_entry, relative_path};
use crate::pattern::excluded_by;
use vstd::prelude::*;

verus! {

/// Whether `longer` begins with all of `shorter`, in the same order.
pub open spec fn extends(longer: Seq<Seq<char>>, shorter: Seq<Seq<char>>) -> bool {
    &&& shorter.len() <= longer.len()
    &&& forall|i: int| 0 <= i < shorter.len() ==> longer[i] == #[trigger] shorter[i]
}

/// Whether a candidate passes every filter: it is a regular file that no
/// exclusion pattern matches and that version control does not ignore.
pub open spec fn passes(
    patterns: Seq<Seq<char>>,
    path: Seq<char>,
    is_file: bool,
    vcs: VcsAnswer,
) -> bool {
    &&& is_file
    &&& !excluded_by(patterns, relative_path(path))
    &&& !(vcs is Ignored)
}

/// Considering a candidate only ever appends, and a candidate that passes
/// every filter is among the files afterwards.
pub proof fn lemma_candidate_is_kept(
    patterns: Seq<Seq<char>>,
    seen: Seq<Seq<char>>,
    path: Seq<char>,
    is_file: bool,
    vcs: VcsAnswer,
)
    ensures
        extends(with_candidate(patterns, seen, path, is_file, vcs), seen),
        passes(patterns, path, is_file, vcs) ==> with_candidate(
            patterns,
            seen,
            path,
            is_file,
            vcs,
        ).contains(relative_path(path)),
{
    let after = with_candidate(patterns, seen, path, is_file, vcs);
    if admitted(patterns, seen, path, is_file, vcs) {
        assert(after[seen.len() as int] == relative_path(path));
    }
}

/// What `shorter` holds, a list that begins with it holds too.
pub proof fn lemma_extension_contains(
    longer: Seq<Seq<char>>,
    shorter: Seq<Seq<char>>,
    path: Seq<char>,
)
    requires
        extends(longer, shorter),
        shorter.contains(path),
    ensures
        longer.contains(path),
{
    let i = choose|i: int| 0 <= i < shorter.len() && shorter[i] == path;
    assert(longer[i] == path);
}

/// Considering an expansion only ever appends, and every item of it that
/// passes every filter is among the files afterwards.
pub proof fn lemma_matches_are_kept(
    patterns: Seq<Seq<char>>,
    seen: Seq<Seq<char>>,
    matches: Seq<GlobEntry>,
)
    ensures
        extends(with_matches(patterns, seen, matches), seen),
        forall|k: int|
            0 <= k < matches.len() ==> (#[trigger] matches[k] matches GlobEntry::Found(candidate)
                ==> (passes(patterns, candidate.path@, candidate.is_file, candidate.vcs)
                ==> with_matches(patterns, seen, matches).contains(
                relative_path(candidate.path@),
            ))),
    decreases matches.len(),
{
    if matches.len() > 0 {
        let earlier = matches.drop_last();
        let before = with_matches(patterns, seen, earlier);
        let after = with_matches(patterns, seen, matches);
        lemma_matches_are_kept(patterns, seen, earlier);
        match matches.last() {
            GlobEntry::Found(candidate) => {
                lemma_candidate_is_kept(
                    patterns,
                    before,
                    candidate.path@,
                    candidate.is_file,
                    candidate.vcs,
                );
            },
            GlobEntry::Unreadable(_) => {},
        }
        assert(extends(after, before));
        assert forall|k: int| 0 <= k < matches.len() implies (#[trigger] matches[k] matches
            GlobEntry::Found(candidate) ==> (passes(
            patterns,
            candidate.path@,
            candidate.is_file,
            candidate.vcs,
        ) ==> after.contains(relative_path(candidate.path@)))) by {
            if k < matches.len() - 1 {
                assert(matches[k] == earlier[k]);
                if let GlobEntry::Found(candidate) = matches[k] {
                    if passes(patterns, candidate.path@, candidate.is_file, candidate.vcs) {
                        lemma_extension_contains(after, before, relative_path(candidate.path@));
                    }
                }
            }
        }
    }
}

/// Processing further entries only ever appends: where the first `m`
/// entries are processed without a refusal, so are the first `n` of them,
/// and the files found then come first, in the same order.
pub proof fn lemma_entries_extend(
    recursive: bool,
    patterns: Seq<Seq<char>>,
    entries: Seq<Seq<char>>,
    scans: Seq<EntryScan>,
    n: int,
    m: int,
)
    requires
        0 <= n <= m,
        discovered(recursive, patterns, entries, scans, m) is Ok,
    ensures
        discovered(recursive, patterns, entries, scans, n) is Ok,
        extends(
            discovered(recursive, patterns, entries, scans, m)->Ok_0,
            discovered(recursive, patterns, entries, scans, n)->Ok_0,
        ),
    decreases m - n,
{
    if n < m {
        lemma_entries_extend(recursive, patterns, entries, scans, n, m - 1);
        let before = discovered(recursive, patterns, entries, scans, m - 1)->Ok_0;
        let scan = scans[m - 1];
        lemma_candidate_is_kept(
            patterns,
            before,
            expanded_entry(recursive, entries[m - 1], scan.is_dir),
            true,
            scan.vcs,
        );
        if let Ok(matches) = scan.expansion {
            lemma_matches_are_kept(patterns, before, matches@);
        }
    }
}

/// Nothing that passes every filter is lost: where the run is not stopped,
/// every regular file that an expansion produced, that no exclusion pattern
/// matches and that version control does not ignore is among the files
/// found.
pub proof fn lemma_passing_match_is_found(
    recursive: bool,
    patterns: Seq<Seq<char>>,
    entries: Seq<Seq<char>>,
    scans: Seq<EntryScan>,
    n: int,
    i: int,
    k: int,
)
    requires
        0 <= i < n,
        discovered(recursive, patterns, entries, scans, n) is Ok,
        !scans[i].is_file,
        scans[i].expansion matches Ok(matches) && 0 <= k < matches.len() && (
        matches[k] matches GlobEntry::Found(candidate) && passes(
            patterns,
            candidate.path@,
            candidate.is_file,
            candidate.vcs,
        )),
    ensures
        scans[i].expansion matches Ok(matches) && (matches[k] matches GlobEntry::Found(candidate)
            && discovered(recursive, patterns, entries, scans, n)->Ok_0.contains(
            relative_path(candidate.path@),
        )),
{
    lemma_entries_extend(recursive, patterns, entries, scans, i + 1, n);
    lemma_entries_extend(recursive, patterns, entries, scans, i, i + 1);
    let before = discovered(recursive, patterns, entries, scans, i)->Ok_0;
    let after = discovered(recursive, patterns, entries, scans, i + 1)->Ok_0;
    let all = discovered(recursive, patterns, entries, scans, n)->Ok_0;
    if let Ok(matches) = scans[i].expansion {
        lemma_matches_are_kept(patterns, before, matches@);
        if let GlobEntry::Found(candidate) = matches[k] {
            assert(matches@[k] == matches[k]);
            assert(after.contains(relative_path(candidate.path@)));
            lemma_extension_contains(all, after, relative_path(candidate.path@));
        }
    }
}

/// Nothing that passes every filter is lost: where the run is not stopped,
/// an entry that names a regular file which no exclusion pattern matches
/// and version control does not ignore is among the files found.
pub proof fn lemma_passing_file_is_found(
    recursive: bool,
    patterns: Seq<Seq<char>>,
    entries: Seq<Seq<char>>,
    scans: Seq<EntryScan>,
    n: int,
    i: int,
)
    requires
        0 <= i < n,
        discovered(recursive, patterns, entries, scans, n) is Ok,
        scans[i].is_file,
        passes(
            patterns,
            expanded_entry(recursive, entries[i], scans[i].is_dir),
            true,
            scans[i].vcs,
        ),
    ensures
        discovered(recursive, patterns, entries, scans, n)->Ok_0.contains(
            relative_path(expanded_entry(recursive, entries[i], scans[i].is_dir)),
        ),
{
    lemma_entries_extend(recursive, patterns, entries, scans, i + 1, n);
    lemma_entries_extend(recursive, patterns, entries, scans, i, i + 1);
    let before = discovered(recursive, patterns, entries, scans, i)->Ok_0;
    let after = discovered(recursive, patterns, entries, scans, i + 1)->Ok_0;
    let all = discovered(recursive, patterns, entries, scans, n)->Ok_0;
    let path = expanded_entry(recursive, entries[i], scans[i].is_dir);
    lemma_candidate_is_kept(patterns, before, path, true, scans[i].vcs);
    lemma_extension_contains(all, after, relative_path(path));
}

/// Whether an expansion holds an item with this relative path that passes
/// every filter.
pub open spec fn offered_by_matches(
    patterns: Seq<Seq<char>>,
    matches: Seq<GlobEntry>,
    path: Seq<char>,
) -> bool {
    exists|k: int|
        0 <= k < matches.len() && (#[trigger] matches[k] matches GlobEntry::Found(candidate)
            && passes(patterns, candidate.path@, candidate.is_file, candidate.vcs)
            && relative_path(candidate.path@) == path)
}

/// Whether an entry offers this relative path: as the regular file that it
/// names, or as an item of its expansion, and passing every filter.
pub open spec fn offered_by_entry(
    recursive: bool,
    patterns: Seq<Seq<char>>,
    entry: Seq<char>,
    scan: EntryScan,
    path: Seq<char>,
) -> bool {
    if scan.is_file {
        &&& passes(patterns, expanded_entry(recursive, entry, scan.is_dir), true, scan.vcs)
        &&& relative_path(expanded_entry(recursive, entry, scan.is_dir)) == path
    } else {
        scan.expansion matches Ok(matches) && offered_by_matches(patterns, matches@, path)
    }
}

/// Whether one of the first `n` entries offers this relative path.
pub open spec fn offered(
    recursive: bool,
    patterns: Seq<Seq<char>>,
    entries: Seq<Seq<char>>,
    scans: Seq<EntryScan>,
    n: int,
    path: Seq<char>,
) -> bool {
    exists|i: int|
        0 <= i < n && offered_by_entry(recursive, patterns, entries[i], #[trigger] scans[i], path)
}

/// Whatever an expansion adds to the files is the relative path of one of
/// its items that passes every filter.
pub proof fn lemma_matches_add_offered(
    patterns: Seq<Seq<char>>,
    seen: Seq<Seq<char>>,
    matches: Seq<GlobEntry>,
)
    ensures
        forall|j: int|
            seen.len() <= j < with_matches(patterns, seen, matches).len() ==> offered_by_matches(
                patterns,
                matches,
                #[trigger] with_matches(patterns, seen, matches)[j],
            ),
    decreases matches.len(),
{
    if matches.len() > 0 {
        let earlier = matches.drop_last();
        let before = with_matches(patterns, seen, earlier);
        let after = with_matches(patterns, seen, matches);
        lemma_matches_add_offered(patterns, seen, earlier);
        lemma_matches_are_kept(patterns, seen, earlier);
        assert forall|j: int| seen.len() <= j < after.len() implies offered_by_matches(
            patterns,
            matches,
            #[trigger] after[j],
        ) by {
            if j < before.len() {
                assert(after[j] == before[j]);
                assert(offered_by_matches(patterns, earlier, before[j]));
                let k = choose|k: int|
                    0 <= k < earlier.len() && (#[trigger] earlier[k] matches GlobEntry::Found(
                        candidate,
                    ) && passes(patterns, candidate.path@, candidate.is_file, candidate.vcs)
                        && relative_path(candidate.path@) == before[j]);
                assert(matches[k] == earlier[k]);
            } else {
                assert(matches[matches.len() - 1] == matches.last());
            }
        }
    }
}

/// Nothing is found that was not offered: every file found is the relative
/// path of a regular file that some entry named or produced, that no
/// exclusion pattern matches and that version control does not ignore.
pub proof fn lemma_found_was_offered(
    recursive: bool,
    patterns: Seq<Seq<char>>,
    entries: Seq<Seq<char>>,
    scans: Seq<EntryScan>,
    n: int,
)
    ensures
        discovered(recursive, patterns, entries, scans, n) matches Ok(files) ==> forall|j: int|
            0 <= j < files.len() ==> offered(
                recursive,
                patterns,
                entries,
                scans,
                n,
                #[trigger] files[j],
            ),
    decreases n,
{
    if n > 0 {
        lemma_found_was_offered(recursive, patterns, entries, scans, n - 1);
        if let Ok(files) = discovered(recursive, patterns, entries, scans, n) {
            let before = discovered(recursive, patterns, entries, scans, n - 1)->Ok_0;
            let scan = scans[n - 1];
            let entry = entries[n - 1];
            if let Ok(matches) = scan.expansion {
                lemma_matches_add_offered(patterns, before, matches@);
                lemma_matches_are_kept(patterns, before, matches@);
            }
            assert forall|j: int| 0 <= j < files.len() implies offered(
                recursive,
                patterns,
                entries,
                scans,
                n,
                #[trigger] files[j],
            ) by {
                if j < before.len() {
                    assert(files[j] == before[j]);
                    assert(offered(recursive, patterns, entries, scans, n - 1, before[j]));
                    let i = choose|i: int|
                        0 <= i < n - 1 && offered_by_entry(
                            recursive,
                            patterns,
                            entries[i],
                            #[trigger] scans[i],
                            before[j],
                        );
                    assert(offered_by_entry(recursive, patterns, entries[i], scans[i], files[j]));
                } else {
                    assert(offered_by_entry(recursive, patterns, entry, scans[n - 1], files[j]));
                }
            }
        }
    }
}

} // verus!
