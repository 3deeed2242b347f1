use flatten_repo::{
    consider, discover, entry_pattern, is_ignored_by_git, relativize, Candidate, CompiledPattern,
    Config, EntryScan, Error, FlattenRepo, GlobEntry, VcsAnswer, Verdict,
};

fn found(path: &str) -> GlobEntry {
    GlobEntry::Found(Candidate { path: path.to_string(), is_file: true, vcs: VcsAnswer::NotIgnored })
}

fn found_with(path: &str, is_file: bool, vcs: VcsAnswer) -> GlobEntry {
    GlobEntry::Found(Candidate { path: path.to_string(), is_file, vcs })
}

fn expansion(is_dir: bool, matches: Vec<GlobEntry>) -> EntryScan {
    EntryScan { is_dir, is_file: false, vcs: VcsAnswer::NoRepository, expansion: Ok(matches) }
}

fn direct_file(vcs: VcsAnswer) -> EntryScan {
    EntryScan { is_dir: false, is_file: true, vcs, expansion: Ok(Vec::new()) }
}

fn refused(pattern: &str) -> EntryScan {
    let cause = match glob::glob(pattern) {
        Ok(_) => panic!("{} is a well-formed glob", pattern),
        Err(error) => error.to_string(),
    };
    EntryScan { is_dir: false, is_file: false, vcs: VcsAnswer::NoRepository, expansion: Err(cause) }
}

fn repo(recursive: bool, ignore: &[&str], paths: &[&str]) -> FlattenRepo {
    FlattenRepo::new(Config {
        recursive,
        verbose: false,
        ignore_patterns: ignore.iter().map(|p| p.to_string()).collect(),
        paths: paths.iter().map(|p| p.to_string()).collect(),
    })
    .unwrap()
}

fn names(files: &[&str]) -> Vec<String> {
    files.iter().map(|f| f.to_string()).collect()
}

#[test]
fn relativize_strips_the_current_directory() {
    assert_eq!(relativize("./a/b.txt"), "a/b.txt");
    assert_eq!(relativize("a/b.txt"), "a/b.txt");
    assert_eq!(relativize("."), "");
    assert_eq!(relativize("./"), "");
    assert_eq!(relativize(".//a"), "a");
    assert_eq!(relativize("././a"), "a");
    assert_eq!(relativize("./."), "");
    assert_eq!(relativize(""), "");
}

#[test]
fn relativize_keeps_other_paths() {
    assert_eq!(relativize(".hidden"), ".hidden");
    assert_eq!(relativize("../up"), "../up");
    assert_eq!(relativize("/abs/./x"), "/abs/./x");
    assert_eq!(relativize("./.hidden"), ".hidden");
    assert_eq!(relativize("./../up"), "../up");
    assert_eq!(relativize("./\u{e9}t\u{e9}/\u{20ac}"), "\u{e9}t\u{e9}/\u{20ac}");
}

#[test]
fn relativize_is_stable() {
    for path in ["./a/b", ".", "././a", "a/./b", "/x", "", ".//", "./.x", "..", "./.."] {
        let once = relativize(path);
        assert_eq!(relativize(&once), once, "{}", path);
    }
}

#[test]
fn directory_becomes_recursive_glob() {
    assert_eq!(entry_pattern(true, "proj", true), "proj/**/*");
    assert_eq!(entry_pattern(true, "proj", false), "proj");
    assert_eq!(entry_pattern(false, "proj", true), "proj");
    assert_eq!(entry_pattern(false, "*.rs", false), "*.rs");
}

#[test]
fn only_a_definite_answer_ignores() {
    assert!(is_ignored_by_git(VcsAnswer::Ignored));
    assert!(!is_ignored_by_git(VcsAnswer::NotIgnored));
    assert!(!is_ignored_by_git(VcsAnswer::NoRepository));
    assert!(!is_ignored_by_git(VcsAnswer::QueryFailed));
}

#[test]
fn consider_filters_in_turn() {
    let matchers = vec![CompiledPattern::compile("*.log").unwrap()];
    let mut files = Vec::new();
    let ok = VcsAnswer::NotIgnored;
    assert_eq!(consider(&matchers, &mut files, "./a.txt", true, ok), Verdict::Included);
    assert_eq!(consider(&matchers, &mut files, "a.txt", true, ok), Verdict::Duplicate);
    assert_eq!(consider(&matchers, &mut files, "dir", false, ok), Verdict::NotAFile);
    assert_eq!(consider(&matchers, &mut files, "b.log", true, ok), Verdict::ExcludedByPattern);
    assert_eq!(
        consider(&matchers, &mut files, "c.txt", true, VcsAnswer::Ignored),
        Verdict::ExcludedByVcs
    );
    assert_eq!(
        consider(&matchers, &mut files, "d.txt", true, VcsAnswer::QueryFailed),
        Verdict::Included
    );
    assert_eq!(
        consider(&matchers, &mut files, "e.txt", true, VcsAnswer::NoRepository),
        Verdict::Included
    );
    assert_eq!(files, names(&["a.txt", "d.txt", "e.txt"]));
}

#[test]
fn first_test_that_applies_decides() {
    let matchers = vec![CompiledPattern::compile("a").unwrap()];
    let mut files = vec!["a.txt".to_string()];
    let ignored = VcsAnswer::Ignored;
    assert_eq!(consider(&matchers, &mut files, "a.txt", false, ignored), Verdict::NotAFile);
    assert_eq!(consider(&matchers, &mut files, "a.txt", true, ignored), Verdict::Duplicate);
    assert_eq!(consider(&matchers, &mut files, "a.md", true, ignored), Verdict::ExcludedByPattern);
    assert_eq!(consider(&matchers, &mut files, "b.md", true, ignored), Verdict::ExcludedByVcs);
    assert_eq!(files, names(&["a.txt"]));
}

#[test]
fn run_considers_with_its_own_patterns() {
    let repo = repo(true, &["*.log"], &["."]);
    let mut files = Vec::new();
    let ok = VcsAnswer::NotIgnored;
    assert_eq!(repo.consider(&mut files, "./x.log", true, ok), Verdict::ExcludedByPattern);
    assert_eq!(repo.consider(&mut files, "./x.txt", true, ok), Verdict::Included);
    assert_eq!(repo.consider(&mut files, "x.txt", true, ok), Verdict::Duplicate);
    assert_eq!(files, names(&["x.txt"]));
}

#[test]
fn recursive_directory_lists_its_files_without_ignored_ones() {
    let repo = repo(true, &[], &["proj"]);
    let scans = vec![expansion(
        true,
        vec![
            found_with("proj/.git", false, VcsAnswer::Ignored),
            found_with("proj/.git/config", true, VcsAnswer::Ignored),
            found("proj/a.txt"),
            found("proj/b.bin"),
        ],
    )];
    assert_eq!(repo.find_files(&scans), Ok(names(&["proj/a.txt", "proj/b.bin"])));
}

#[test]
fn file_named_twice_is_listed_once() {
    let repo = repo(true, &[], &["x.txt", "x.txt"]);
    let scans = vec![direct_file(VcsAnswer::NotIgnored), direct_file(VcsAnswer::NotIgnored)];
    assert_eq!(repo.find_files(&scans), Ok(names(&["x.txt"])));
}

#[test]
fn log_pattern_leaves_only_the_text_file() {
    let repo = repo(true, &["*.log"], &["."]);
    let scans = vec![expansion(true, vec![found("run.log"), found("run.txt")])];
    assert_eq!(repo.find_files(&scans), Ok(names(&["run.txt"])));
}

#[test]
fn glob_without_matches_is_no_error() {
    let repo = repo(true, &[], &["*.nothing"]);
    let scans = vec![expansion(false, Vec::new())];
    assert_eq!(repo.find_files(&scans), Ok(Vec::new()));
}

#[test]
fn overlapping_entries_keep_first_occurrence() {
    let repo = repo(false, &[], &["src/*.rs", "./src/lib.rs", "src/*"]);
    let scans = vec![
        expansion(false, vec![found("src/lib.rs"), found("src/main.rs")]),
        direct_file(VcsAnswer::NotIgnored),
        expansion(false, vec![found("src/a.txt"), found("src/lib.rs"), found("src/main.rs")]),
    ];
    assert_eq!(
        repo.find_files(&scans),
        Ok(names(&["src/lib.rs", "src/main.rs", "src/a.txt"]))
    );
}

#[test]
fn excluded_paths_never_appear() {
    let repo = repo(true, &["target", "*.tmp"], &["."]);
    let scans = vec![expansion(
        true,
        vec![
            found("src/lib.rs"),
            found("target/debug/lib.rs"),
            found("notes.tmp"),
            found("src/retarget.rs"),
            found("docs/readme.md"),
        ],
    )];
    let files = repo.find_files(&scans).unwrap();
    assert_eq!(files, names(&["src/lib.rs", "docs/readme.md"]));
    for file in &files {
        assert!(!repo.is_ignored_by_patterns(file));
    }
}

#[test]
fn direct_file_is_filtered_like_a_match() {
    let repo = repo(true, &["secret"], &["./secret.txt", "ignored.txt", "kept.txt"]);
    let scans = vec![
        direct_file(VcsAnswer::NotIgnored),
        direct_file(VcsAnswer::Ignored),
        direct_file(VcsAnswer::QueryFailed),
    ];
    assert_eq!(repo.find_files(&scans), Ok(names(&["kept.txt"])));
}

#[test]
fn unreadable_match_is_skipped() {
    let repo = repo(true, &[], &["data"]);
    let scans = vec![expansion(
        true,
        vec![
            found("data/a"),
            GlobEntry::Unreadable("data/locked: permission denied".to_string()),
            found("data/b"),
        ],
    )];
    assert_eq!(repo.find_files(&scans), Ok(names(&["data/a", "data/b"])));
}

#[test]
fn non_files_are_skipped() {
    let repo = repo(true, &[], &["data"]);
    let scans = vec![expansion(
        true,
        vec![found_with("data/sub", false, VcsAnswer::NotIgnored), found("data/sub/x")],
    )];
    assert_eq!(repo.find_files(&scans), Ok(names(&["data/sub/x"])));
}

#[test]
fn malformed_glob_stops_the_run() {
    let repo = repo(true, &[], &["ok.txt", "a**b", "later.txt"]);
    let scans = vec![
        direct_file(VcsAnswer::NotIgnored),
        refused("a**b"),
        direct_file(VcsAnswer::NotIgnored),
    ];
    match repo.find_files(&scans) {
        Err(Error::GlobPattern(cause)) => {
            assert_eq!(
                cause,
                "Pattern syntax error near position 0: recursive wildcards must form a single path component"
            );
        }
        other => panic!("unexpected: {:?}", other),
    }
}

#[test]
fn malformed_glob_naming_a_file_is_taken_directly() {
    let repo = repo(true, &[], &["a**b"]);
    let mut scan = refused("a**b");
    scan.is_file = true;
    let scans = vec![scan];
    assert_eq!(repo.find_files(&scans), Ok(names(&["a**b"])));
}

#[test]
fn first_refusal_is_reported() {
    let repo = repo(true, &[], &["[", "a**b"]);
    let scans = vec![refused("["), refused("a**b")];
    assert_eq!(
        repo.find_files(&scans),
        Err(Error::GlobPattern(
            "Pattern syntax error near position 0: invalid range pattern".to_string()
        ))
    );
}

#[test]
fn discover_works_on_its_parts() {
    let config = Config {
        recursive: false,
        verbose: true,
        ignore_patterns: Vec::new(),
        paths: vec!["./a".to_string(), "b*".to_string()],
    };
    let matchers = vec![CompiledPattern::compile("bb").unwrap()];
    let scans = vec![
        direct_file(VcsAnswer::NoRepository),
        expansion(false, vec![found("b"), found("bb"), found("./a")]),
    ];
    assert_eq!(discover(&config, &matchers, &scans), Ok(names(&["a", "b"])));
}
