//! Aggregating per-file outcomes over a walk, and the exclude-pattern filter
//! that prunes the walk. The walk itself reads the filesystem and so lives
//! with the caller; every decision and every tally is made here.

use vstd::prelude::*;
use crate::config::GhostScrubConfig;
use crate::processor::{FileProcessor, ProcessResult};

verus! {

/// Whether the glob pattern compiles.
pub uninterp spec fn glob_pattern_ok(pattern: Seq<char>) -> bool;

/// Whether the compiled glob pattern matches the path.
pub uninterp spec fn glob_pattern_match(pattern: Seq<char>, path: Seq<char>) -> bool;

/// Relies on `glob::Pattern::new` and `glob::Pattern::matches`: compiling
/// succeeds by the pattern string alone, and matching is a function of the
/// pattern and path strings alone. `None` when the pattern is malformed.
#[verifier::external_body]
fn glob_match(pattern: &str, path: &str) -> (r: Option<bool>)
    ensures
        r is Some <==> glob_pattern_ok(pattern@),
        r is Some ==> r->0 == glob_pattern_match(pattern@, path@),
{
    match glob::Pattern::new(pattern) {
        Ok(p) => Some(p.matches(path)),
        Err(_) => None,
    }
}

/// A path is skipped when some configured pattern is well formed and
/// matches it; malformed patterns match nothing.
pub open spec fn skip_path_spec(patterns: Seq<Seq<char>>, path: Seq<char>) -> bool {
    exists|i: int|
        0 <= i < patterns.len() && glob_pattern_ok(#[trigger] patterns[i]) && glob_pattern_match(
            patterns[i],
            path,
        )
}

/// The tally of one run, grown monotonically as the walk proceeds.
#[derive(Debug, PartialEq, Eq, Structural)]
pub struct WalkResult {
    pub files_processed: usize,
    pub files_skipped: usize,
    pub total_changes: usize,
    pub errors: usize,
}

impl Default for WalkResult {
    fn default() -> (r: Self)
        ensures
            r.files_processed == 0,
            r.files_skipped == 0,
            r.total_changes == 0,
            r.errors == 0,
    {
        WalkResult { files_processed: 0, files_skipped: 0, total_changes: 0, errors: 0 }
    }
}

impl WalkResult {
    /// Folds one file outcome into the tally: a cleaned or dry-run file
    /// counts as processed and adds its changes, an unchanged file counts as
    /// processed, a skipped file as skipped.
    pub fn record(&mut self, outcome: &ProcessResult)
        requires
            old(self).files_processed < usize::MAX,
            old(self).files_skipped < usize::MAX,
            (*outcome matches ProcessResult::Cleaned(n) ==> old(self).total_changes + n
                <= usize::MAX),
            (*outcome matches ProcessResult::DryRun(n) ==> old(self).total_changes + n
                <= usize::MAX),
        ensures
            final(self).errors == old(self).errors,
            match *outcome {
                ProcessResult::Cleaned(n) => {
                    &&& final(self).files_processed == old(self).files_processed + 1
                    &&& final(self).total_changes == old(self).total_changes + n
                    &&& final(self).files_skipped == old(self).files_skipped
                },
                ProcessResult::DryRun(n) => {
                    &&& final(self).files_processed == old(self).files_processed + 1
                    &&& final(self).total_changes == old(self).total_changes + n
                    &&& final(self).files_skipped == old(self).files_skipped
                },
                ProcessResult::NoChanges => {
                    &&& final(self).files_processed == old(self).files_processed + 1
                    &&& final(self).total_changes == old(self).total_changes
                    &&& final(self).files_skipped == old(self).files_skipped
                },
                ProcessResult::Skipped => {
                    &&& final(self).files_processed == old(self).files_processed
                    &&& final(self).total_changes == old(self).total_changes
                    &&& final(self).files_skipped == old(self).files_skipped + 1
                },
            },
    {
        match outcome {
            ProcessResult::Cleaned(n) => {
                self.files_processed = self.files_processed + 1;
                self.total_changes = self.total_changes + *n;
            },
            ProcessResult::DryRun(n) => {
                self.files_processed = self.files_processed + 1;
                self.total_changes = self.total_changes + *n;
            },
            ProcessResult::NoChanges => {
                self.files_processed = self.files_processed + 1;
            },
            ProcessResult::Skipped => {
                self.files_skipped = self.files_skipped + 1;
            },
        }
    }

    /// Counts one per-file failure; the walk goes on.
    pub fn record_error(&mut self)
        requires
            old(self).errors < usize::MAX,
        ensures
            final(self).errors == old(self).errors + 1,
            final(self).files_processed == old(self).files_processed,
            final(self).files_skipped == old(self).files_skipped,
            final(self).total_changes == old(self).total_changes,
    {
        self.errors = self.errors + 1;
    }
}

/// Walks paths with its processor; the filesystem enumeration is the
/// caller's, every filtering decision and tally is verified here.
pub struct FileWalker {
    pub processor: FileProcessor,
}

impl FileWalker {
    pub fn new(config: GhostScrubConfig) -> (r: Self)
        ensures
            r.processor.config == config,
    {
        FileWalker { processor: FileProcessor::new(config) }
    }

    /// Whether a configured exclude pattern matches the path.
    pub fn should_skip_path(&self, path: &str) -> (b: bool)
        ensures
            b == skip_path_spec(
                self.processor.config.exclude_patterns.deep_view(),
                path@,
            ),
    {
        let patterns = &self.processor.config.exclude_patterns;
        let ghost pv = patterns.deep_view();
        let mut i: usize = 0;
        while i < patterns.len()
            invariant
                i <= patterns.len(),
                pv == patterns.deep_view(),
                pv == self.processor.config.exclude_patterns.deep_view(),
                forall|k: int|
                    0 <= k < i ==> !(glob_pattern_ok(#[trigger] pv[k]) && glob_pattern_match(
                        pv[k],
                        path@,
                    )),
            decreases patterns.len() - i,
        {
            proof {
                assert(pv[i as int] == patterns@[i as int]@);
            }
            match glob_match(patterns[i].as_str(), path) {
                Some(true) => {
                    proof {
                        let dv = self.processor.config.exclude_patterns.deep_view();
                        assert(dv[i as int] == pv[i as int]);
                        assert(glob_pattern_ok(dv[i as int]) && glob_pattern_match(
                            dv[i as int],
                            path@,
                        ));
                        assert(skip_path_spec(dv, path@));
                    }
                    return true;
                },
                Some(false) => {},
                None => {},
            }
            i = i + 1;
        }
        proof {
            let dv = self.processor.config.exclude_patterns.deep_view();
            assert forall|k: int| 0 <= k < dv.len() implies !(glob_pattern_ok(
                #[trigger] dv[k],
            ) && glob_pattern_match(dv[k], path@)) by {
                assert(dv[k] == pv[k]);
            }
            assert(!skip_path_spec(dv, path@));
        }
        false
    }
}

} // verus!
