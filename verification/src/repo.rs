//! The pipeline: a configuration with its compiled exclusion patterns, and
//! the steps of a run.

use crate::config::Config;
use crate::discovery::{
    admitted, clean, consider, discover, discovered, verdict, with_candidate, EntryScan, Verdict,
    VcsAnswer,
};
use crate::error::Error;
use crate::escape::all_xml_chars;
use crate::pattern::{excluded_by, fnmatch_refusal, is_excluded, CompiledPattern};
use crate::xml::{
    all_decodable, build_document, document, first_failure, record_of, records_of, FileSource,
};
use vstd::prelude::*;
use vstd::string::StringExecFns;

verus! {

/// The entries that a run processes: the configured ones, or the current
/// directory where none is configured.
pub open spec fn effective_paths(paths: Seq<Seq<char>>) -> Seq<Seq<char>> {
    if paths.len() == 0 {
        seq!["."@]
    } else {
        paths
    }
}

/// The message of the first of the first `n` patterns that is malformed;
/// `None` where all of them are well-formed.
pub open spec fn first_refusal(patterns: Seq<Seq<char>>, n: int) -> Option<Seq<char>>
    decreases n,
{
    if n <= 0 {
        None
    } else {
        match first_refusal(patterns, n - 1) {
            Some(cause) => Some(cause),
            None => fnmatch_refusal(patterns[n - 1]),
        }
    }
}

/// Once a pattern has been refused, the patterns after it change nothing.
pub proof fn lemma_refusal_lasts(patterns: Seq<Seq<char>>, n: int, m: int)
    requires
        0 <= n <= m,
        first_refusal(patterns, n) is Some,
    ensures
        first_refusal(patterns, m) == first_refusal(patterns, n),
    decreases m - n,
{
    if n < m {
        lemma_refusal_lasts(patterns, n, m - 1);
    }
}

/// A configuration made ready for a run.
pub struct FlattenRepo {
    config: Config,
    ignore_patterns: Vec<CompiledPattern>,
}

impl FlattenRepo {
    /// Whether directories are expanded to everything beneath them.
    pub closed spec fn recursive(&self) -> bool {
        self.config.recursive
    }

    /// Whether the run is to be traced.
    pub closed spec fn verbose(&self) -> bool {
        self.config.verbose
    }

    /// The entries to process, in order.
    pub closed spec fn paths(&self) -> Seq<Seq<char>> {
        self.config.paths.deep_view()
    }

    /// The exclusion patterns, in order, as they are compiled.
    pub closed spec fn patterns(&self) -> Seq<Seq<char>> {
        self.ignore_patterns.deep_view()
    }

    /// The exclusion patterns, in order, as the configuration keeps them.
    pub closed spec fn kept_patterns(&self) -> Seq<Seq<char>> {
        self.config.ignore_patterns.deep_view()
    }

    /// Prepares a run. An empty list of paths stands for the current
    /// directory. Every exclusion pattern is compiled, in order; the first
    /// malformed one is an error that carries the message of its refusal.
    pub fn new(config: Config) -> (made: Result<FlattenRepo, Error>)
        ensures
            match made {
                Ok(repo) => {
                    &&& first_refusal(
                        config.ignore_patterns.deep_view(),
                        config.ignore_patterns.len() as int,
                    ) is None
                    &&& repo.recursive() == config.recursive
                    &&& repo.verbose() == config.verbose
                    &&& repo.paths() == effective_paths(config.paths.deep_view())
                    &&& repo.patterns() == config.ignore_patterns.deep_view()
                    &&& repo.kept_patterns() == config.ignore_patterns.deep_view()
                },
                Err(error) => error matches Error::FNMatchPattern(cause) && first_refusal(
                    config.ignore_patterns.deep_view(),
                    config.ignore_patterns.len() as int,
                ) == Some(cause@),
            },
    {
        let ghost given = config.paths.deep_view();
        let ghost sources = config.ignore_patterns.deep_view();
        let Config { recursive, verbose, ignore_patterns, paths } = config;
        let mut paths = paths;
        if paths.len() == 0 {
            paths.push(String::from_str("."));
            assert(paths.deep_view() =~= seq!["."@]);
        }
        let mut compiled: Vec<CompiledPattern> = Vec::new();
        let mut i: usize = 0;
        assert(compiled.deep_view() =~= sources.take(0));
        while i < ignore_patterns.len()
            invariant
                i <= ignore_patterns.len(),
                sources == ignore_patterns.deep_view(),
                sources == config.ignore_patterns.deep_view(),
                compiled.deep_view() == sources.take(i as int),
                first_refusal(sources, i as int) is None,
            decreases ignore_patterns.len() - i,
        {
            assert(sources[i as int] == ignore_patterns[i as int]@);
            match CompiledPattern::compile(ignore_patterns[i].as_str()) {
                Ok(pattern) => {
                    let ghost before = compiled.deep_view();
                    compiled.push(pattern);
                    assert(compiled.deep_view() =~= before.push(pattern@));
                    assert(sources.take(i + 1) =~= sources.take(i as int).push(sources[i as int]));
                },
                Err(error) => {
                    proof {
                        lemma_refusal_lasts(sources, i + 1, sources.len() as int);
                    }
                    return Err(error);
                },
            }
            i += 1;
        }
        assert(sources.take(i as int) =~= sources);
        Ok(
            FlattenRepo {
                config: Config { recursive, verbose, ignore_patterns, paths },
                ignore_patterns: compiled,
            },
        )
    }

    /// The configuration of the run, with the paths that it processes.
    pub fn config(&self) -> (config: &Config)
        ensures
            config.recursive == self.recursive(),
            config.verbose == self.verbose(),
            config.paths.deep_view() == self.paths(),
            config.ignore_patterns.deep_view() == self.kept_patterns(),
    {
        &self.config
    }

    /// Tells whether an exclusion pattern matches some part of `path`.
    pub fn is_ignored_by_patterns(&self, path: &str) -> (ignored: bool)
        ensures
            ignored == excluded_by(self.patterns(), path@),
    {
        is_excluded(&self.ignore_patterns, path)
    }

    /// Considers one candidate against the exclusion patterns of the run:
    /// appends its relative path to `files` where it is admitted, and says
    /// what became of it.
    pub fn consider(
        &self,
        files: &mut Vec<String>,
        path: &str,
        is_file: bool,
        vcs: VcsAnswer,
    ) -> (outcome: Verdict)
        ensures
            outcome == verdict(self.patterns(), old(files).deep_view(), path@, is_file, vcs),
            (outcome is Included) == admitted(
                self.patterns(),
                old(files).deep_view(),
                path@,
                is_file,
                vcs,
            ),
            final(files).deep_view() == with_candidate(
                self.patterns(),
                old(files).deep_view(),
                path@,
                is_file,
                vcs,
            ),
    {
        consider(&self.ignore_patterns, files, path, is_file, vcs)
    }

    /// Finds the files of the run. `scans` holds what was found on disk for
    /// each of the paths, in their order. The result lists relative paths,
    /// each once, in the order in which they were first found, and none of
    /// them excluded. The run stops with an error at the first path that
    /// neither names a regular file nor could be expanded.
    pub fn find_files(&self, scans: &Vec<EntryScan>) -> (found: Result<Vec<String>, Error>)
        requires
            scans.len() == self.paths().len(),
        ensures
            match found {
                Ok(files) => discovered(
                    self.recursive(),
                    self.patterns(),
                    self.paths(),
                    scans@,
                    scans.len() as int,
                ) == Ok::<Seq<Seq<char>>, Seq<char>>(files.deep_view()),
                Err(error) => error matches Error::GlobPattern(cause) && discovered(
                    self.recursive(),
                    self.patterns(),
                    self.paths(),
                    scans@,
                    scans.len() as int,
                ) == Err::<Seq<Seq<char>>, Seq<char>>(cause@),
            },
            found matches Ok(files) ==> clean(self.patterns(), files.deep_view()),
    {
        discover(&self.config, &self.ignore_patterns, scans)
    }

    /// Writes the document for the files of the run, given in discovery
    /// order with what was read of each. The first file that could not be
    /// read fails the run.
    pub fn generate_xml_from_files(&self, files: &Vec<FileSource>) -> (built: Result<
        String,
        Error,
    >)
        requires
            all_decodable(files@),
        ensures
            match built {
                Ok(xml) => {
                    &&& first_failure(files@, files.len() as int) is None
                    &&& xml@ == document(records_of(files@))
                    &&& all_xml_chars(xml@)
                },
                Err(error) => error matches Error::Io(cause) && first_failure(
                    files@,
                    files.len() as int,
                ) == Some(cause@),
            },
    {
        build_document(files)
    }
}

/// The paths of the files that were read, in order.
pub open spec fn read_paths(files: Seq<FileSource>) -> Seq<Seq<char>> {
    Seq::new(files.len(), |i: int| files[i].path@)
}

/// Where the files that are read are the files that were found, the
/// document lists each file that passed discovery once, in discovery order:
/// it has one element for each of them, none for a path twice, and none for
/// a path that an exclusion pattern matches.
pub proof fn lemma_document_lists_found_files(
    recursive: bool,
    patterns: Seq<Seq<char>>,
    entries: Seq<Seq<char>>,
    scans: Seq<EntryScan>,
    files: Seq<FileSource>,
)
    requires
        discovered(recursive, patterns, entries, scans, scans.len() as int) == Ok::<
            Seq<Seq<char>>,
            Seq<char>,
        >(read_paths(files)),
    ensures
        records_of(files).len() == files.len(),
        forall|i: int|
            0 <= i < files.len() ==> (#[trigger] records_of(files)[i]).0 == files[i].path@,
        forall|i: int, j: int|
            0 <= i < j < files.len() ==> (#[trigger] records_of(files)[i]).0 != (
            #[trigger] records_of(files)[j]).0,
        forall|i: int|
            0 <= i < files.len() ==> !excluded_by(patterns, (#[trigger] records_of(files)[i]).0),
{
    crate::discovery::lemma_discovered_is_clean(
        recursive,
        patterns,
        entries,
        scans,
        scans.len() as int,
    );
    let paths = read_paths(files);
    assert forall|i: int| 0 <= i < files.len() implies (#[trigger] records_of(files)[i]).0
        == paths[i] by {
        assert(records_of(files)[i] == record_of(files[i]));
    }
    assert forall|i: int, j: int| 0 <= i < j < files.len() implies (#[trigger] records_of(
        files,
    )[i]).0 != (#[trigger] records_of(files)[j]).0 by {
        assert(paths[i] != paths[j]);
    }
    assert forall|i: int| 0 <= i < files.len() implies !excluded_by(
        patterns,
        (#[trigger] records_of(files)[i]).0,
    ) by {
        assert(!excluded_by(patterns, paths[i]));
    }
}

} // verus!
