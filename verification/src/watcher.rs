//! The decisions of watch mode: which filesystem events matter and which
//! files are editor or temporary artifacts to leave alone. The event loop
//! itself blocks on the notifier and so lives with the caller.

use vstd::prelude::*;
use crate::config::{GhostScrubConfig, file_name_of};
use crate::processor::FileProcessor;

verus! {

/// The kind of a delivered filesystem event. Only creations and
/// modifications are acted on.
#[derive(Debug, Clone, Copy, PartialEq, Eq, Structural)]
pub enum WatchEventKind {
    Create,
    Modify,
    Other,
}

/// A file name editors and tools write as scratch: a dotfile, a `~` backup,
/// a `.tmp` or `.swp` file, or a name containing `.#`.
pub open spec fn is_editor_artifact(name: Seq<char>) -> bool {
    ||| (name.len() >= 1 && name[0] == '.')
    ||| (name.len() >= 1 && name.last() == '~')
    ||| (name.len() >= 4 && name[name.len() - 4] == '.' && name[name.len() - 3] == 't'
        && name[name.len() - 2] == 'm' && name[name.len() - 1] == 'p')
    ||| (name.len() >= 4 && name[name.len() - 4] == '.' && name[name.len() - 3] == 's'
        && name[name.len() - 2] == 'w' && name[name.len() - 1] == 'p')
    ||| (exists|i: int| 0 <= i < name.len() - 1 && name[i] == '.' && #[trigger] name[i + 1]
        == '#')
}

/// Processes changed files as they appear; the caller runs the event loop
/// and hands each event's kind and paths in.
pub struct FileWatcher {
    pub processor: FileProcessor,
}

impl FileWatcher {
    pub fn new(config: GhostScrubConfig) -> (r: Self)
        ensures
            r.processor.config == config,
    {
        FileWatcher { processor: FileProcessor::new(config) }
    }

    /// Whether an event of this kind is acted on at all.
    pub fn should_handle_kind(&self, kind: WatchEventKind) -> (b: bool)
        ensures
            b == (kind == WatchEventKind::Create || kind == WatchEventKind::Modify),
    {
        match kind {
            WatchEventKind::Create => true,
            WatchEventKind::Modify => true,
            WatchEventKind::Other => false,
        }
    }

    /// Whether the path's file name is an editor or temporary artifact to
    /// be left alone in watch mode.
    pub fn should_process_file(&self, path: &str) -> (b: bool)
        ensures
            b == !is_editor_artifact(file_name_of(path@)),
    {
        let v = crate::strutil::chars_of_str(path);
        let name = crate::config::file_name_chars(&v);
        proof {
            assert(name@ == file_name_of(path@));
        }
        let ghost fname = file_name_of(path@);
        let n = name.len();
        if n >= 1 && name[0] == '.' {
            assert(is_editor_artifact(fname)) by {
                assert(fname == name@);
            }
            return false;
        }
        if n >= 1 && name[n - 1] == '~' {
            assert(name@.last() == '~');
            assert(is_editor_artifact(fname)) by {
                assert(fname == name@);
            }
            return false;
        }
        if n >= 4 && name[n - 4] == '.' && name[n - 3] == 't' && name[n - 2] == 'm' && name[n
            - 1] == 'p' {
            assert(is_editor_artifact(fname)) by {
                assert(fname == name@);
            }
            return false;
        }
        if n >= 4 && name[n - 4] == '.' && name[n - 3] == 's' && name[n - 2] == 'w' && name[n
            - 1] == 'p' {
            assert(is_editor_artifact(fname)) by {
                assert(fname == name@);
            }
            return false;
        }
        let mut i: usize = 0;
        while i < n && i + 1 < n
            invariant
                n == name@.len(),
                i <= n,
                fname == name@,
                fname == file_name_of(path@),
                forall|k: int| 0 <= k < i ==> !(name@[k] == '.' && #[trigger] name@[k + 1]
                    == '#'),
            decreases n - i,
        {
            if name[i] == '.' && name[i + 1] == '#' {
                assert(name@[i as int] == '.' && name@[i as int + 1] == '#');
                assert(is_editor_artifact(fname)) by {
                assert(fname == name@);
            }
                return false;
            }
            i = i + 1;
        }
        proof {
            if is_editor_artifact(fname) {
                if exists|k: int|
                    0 <= k < fname.len() - 1 && fname[k] == '.' && #[trigger] fname[k + 1]
                        == '#' {
                    let k = choose|k: int|
                        0 <= k < fname.len() - 1 && fname[k] == '.' && #[trigger] fname[k + 1]
                            == '#';
                    assert(name@[k] == '.' && name@[k + 1] == '#');
                    assert(false);
                }
                assert(false);
            }
        }
        true
    }
}

} // verus!
