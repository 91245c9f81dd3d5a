use ghostscrub::config::{GhostScrubConfig, TargetCharacters, VerbosityLevel};
use ghostscrub::processor::ProcessResult;
use ghostscrub::walker::{FileWalker, WalkResult};
use ghostscrub::watcher::{FileWatcher, WatchEventKind};

fn base_config() -> GhostScrubConfig {
    GhostScrubConfig {
        include_extensions: Vec::new(),
        exclude_extensions: Vec::new(),
        include_patterns: Vec::new(),
        exclude_patterns: Vec::new(),
        target_characters: TargetCharacters {
            zero_width_spaces: true,
            non_breaking_spaces: true,
            control_characters: true,
            unicode_whitespace: true,
            trailing_whitespace: true,
            custom_chars: Vec::new(),
        },
        verbosity: VerbosityLevel::Normal,
    }
}

#[test]
fn deny_list_beats_allow_list() {
    let mut config = base_config();
    config.include_extensions = vec!["rs".to_string()];
    config.exclude_extensions = vec!["rs".to_string()];
    assert!(!config.should_process_file("src/main.rs"));
}

#[test]
fn extension_missing_from_allow_list_is_rejected() {
    let mut config = base_config();
    config.include_extensions = vec!["rs".to_string(), "md".to_string()];
    assert!(!config.should_process_file("notes.txt"));
    assert!(config.should_process_file("notes.md"));
    assert!(config.should_process_file("src/lib.rs"));
}

#[test]
fn extensionless_path_is_never_rejected_by_extension_rule() {
    let mut config = base_config();
    config.include_extensions = vec!["rs".to_string()];
    config.exclude_extensions = vec!["rs".to_string()];
    assert!(config.should_process_file("Makefile"));
    assert!(config.should_process_file("some/dir/LICENSE"));
}

#[test]
fn dotfile_name_has_no_extension() {
    let mut config = base_config();
    config.include_extensions = vec!["rs".to_string()];
    assert!(config.should_process_file(".gitignore"));
    assert!(!config.should_process_file("a/.config.toml"));
}

#[test]
fn empty_lists_accept_everything() {
    let config = base_config();
    assert!(config.should_process_file("whatever.xyz"));
    assert!(config.should_process_file("plain"));
}

#[test]
fn default_config_accepts_source_and_rejects_unknown() {
    let config = GhostScrubConfig::load_default();
    assert!(config.should_process_file("src/main.rs"));
    assert!(config.should_process_file("README.md"));
    assert!(!config.should_process_file("binary.exe"));
    assert_eq!(config.include_extensions.len(), 31);
    assert!(config.exclude_extensions.is_empty());
    assert_eq!(config.include_patterns, vec!["**/*".to_string()]);
    assert_eq!(config.exclude_patterns.len(), 32);
    assert!(config.include_extensions.contains(&"rs".to_string()));
    assert!(config.exclude_patterns.contains(&"**/.git/**".to_string()));
    assert!(config.target_characters.zero_width_spaces);
    assert!(config.target_characters.trailing_whitespace);
    assert!(config.target_characters.custom_chars.is_empty());
    assert!(matches!(config.verbosity, VerbosityLevel::Normal));
}

#[test]
fn exclude_pattern_skips_matching_path() {
    let mut config = base_config();
    config.exclude_patterns = vec!["**/target/**".to_string()];
    let walker = FileWalker::new(config);
    assert!(walker.should_skip_path("project/target/debug/main.rs"));
    assert!(!walker.should_skip_path("project/src/main.rs"));
}

#[test]
fn malformed_exclude_pattern_matches_nothing() {
    let mut config = base_config();
    config.exclude_patterns = vec!["a**b".to_string()];
    let walker = FileWalker::new(config);
    assert!(!walker.should_skip_path("anything/at/all"));
}

#[test]
fn default_patterns_skip_vcs_and_build_dirs() {
    let walker = FileWalker::new(GhostScrubConfig::load_default());
    assert!(walker.should_skip_path("repo/.git/config"));
    assert!(walker.should_skip_path("repo/node_modules/pkg/index.js"));
    assert!(walker.should_skip_path("notes/run.log"));
    assert!(!walker.should_skip_path("repo/src/lib.rs"));
}

#[test]
fn walk_result_aggregates_outcomes() {
    let mut result = WalkResult::default();
    result.record(&ProcessResult::Cleaned(5));
    result.record(&ProcessResult::DryRun(2));
    result.record(&ProcessResult::NoChanges);
    result.record(&ProcessResult::Skipped);
    result.record_error();
    assert_eq!(result.files_processed, 3);
    assert_eq!(result.files_skipped, 1);
    assert_eq!(result.total_changes, 7);
    assert_eq!(result.errors, 1);
}

#[test]
fn walk_result_partial_failure_tally() {
    // One unreadable file among five: four process, one error, the walk's
    // tally keeps both.
    let mut result = WalkResult::default();
    for _ in 0..4 {
        result.record(&ProcessResult::NoChanges);
    }
    result.record_error();
    assert_eq!(result.files_processed, 4);
    assert_eq!(result.errors, 1);
}

#[test]
fn watcher_skips_editor_artifacts() {
    let watcher = FileWatcher::new(base_config());
    assert!(!watcher.should_process_file("dir/.hidden"));
    assert!(!watcher.should_process_file("dir/backup~"));
    assert!(!watcher.should_process_file("dir/scratch.tmp"));
    assert!(!watcher.should_process_file("dir/buffer.swp"));
    assert!(!watcher.should_process_file("dir/.#lockfile"));
    assert!(!watcher.should_process_file("dir/x.#y"));
    assert!(watcher.should_process_file("dir/normal.rs"));
}

#[test]
fn watcher_handles_create_and_modify_only() {
    let watcher = FileWatcher::new(base_config());
    assert!(watcher.should_handle_kind(WatchEventKind::Create));
    assert!(watcher.should_handle_kind(WatchEventKind::Modify));
    assert!(!watcher.should_handle_kind(WatchEventKind::Other));
}
