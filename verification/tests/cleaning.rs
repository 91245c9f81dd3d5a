use ghostscrub::config::{GhostScrubConfig, TargetCharacters, VerbosityLevel};
use ghostscrub::processor::{FileProcessor, ProcessResult};

fn targets(
    zw: bool,
    nb: bool,
    ct: bool,
    uw: bool,
    tr: bool,
    customs: Vec<String>,
) -> TargetCharacters {
    TargetCharacters {
        zero_width_spaces: zw,
        non_breaking_spaces: nb,
        control_characters: ct,
        unicode_whitespace: uw,
        trailing_whitespace: tr,
        custom_chars: customs,
    }
}

fn config_with(t: TargetCharacters) -> GhostScrubConfig {
    GhostScrubConfig {
        include_extensions: Vec::new(),
        exclude_extensions: Vec::new(),
        include_patterns: Vec::new(),
        exclude_patterns: Vec::new(),
        target_characters: t,
        verbosity: VerbosityLevel::Normal,
    }
}

fn processor_with(t: TargetCharacters) -> FileProcessor {
    FileProcessor::new(config_with(t))
}

#[test]
fn zero_width_characters_are_removed() {
    let p = processor_with(targets(true, false, false, false, false, Vec::new()));
    let out = p.clean_content("a\u{200B}b\u{200C}c\u{200D}d\u{FEFF}e");
    assert_eq!(out, "abcde");
}

#[test]
fn zero_width_rule_alters_nothing_else() {
    let p = processor_with(targets(true, false, false, false, false, Vec::new()));
    let out = p.clean_content("plain text stays");
    assert_eq!(out, "plain text stays");
}

#[test]
fn non_breaking_space_becomes_space() {
    let p = processor_with(targets(false, true, false, false, false, Vec::new()));
    let out = p.clean_content("a\u{00A0}b");
    assert_eq!(out, "a b");
}

#[test]
fn non_breaking_space_count_is_byte_delta() {
    // The change counter is a byte-length delta: the two-byte NBSP becomes a
    // one-byte space, so one substitution counts as one.
    let p = processor_with(targets(false, true, false, false, false, Vec::new()));
    let cleaned = p.clean_content("a\u{00A0}b");
    assert_eq!(p.count_changes("a\u{00A0}b", &cleaned), 1);
}

#[test]
fn control_characters_removed_but_line_breaks_kept() {
    let p = processor_with(targets(false, false, true, false, false, Vec::new()));
    let out = p.clean_content("a\u{0007}b\nc\td\r\u{007F}e");
    assert_eq!(out, "ab\nc\td\re");
}

#[test]
fn unicode_whitespace_removed_but_space_kept() {
    let p = processor_with(targets(false, false, false, true, false, Vec::new()));
    let out = p.clean_content("a\u{2003}b c\u{202F}d");
    assert_eq!(out, "ab cd");
}

#[test]
fn trailing_whitespace_trimmed() {
    let p = processor_with(targets(false, false, false, false, true, Vec::new()));
    let out = p.clean_content("foo   \nbar\t\n");
    assert_eq!(out, "foo\nbar\n");
}

#[test]
fn trailing_rule_collapses_carriage_return_before_newline() {
    let p = processor_with(targets(false, false, false, false, true, Vec::new()));
    let out = p.clean_content("a\r\nb");
    assert_eq!(out, "a\nb");
}

#[test]
fn whitespace_only_lines_emptied() {
    let p = processor_with(targets(false, false, false, false, false, Vec::new()));
    let out = p.clean_content("a\n   \nb");
    assert_eq!(out, "a\n\nb");
}

#[test]
fn whitespace_only_rule_runs_without_any_flag() {
    let p = processor_with(targets(false, false, false, false, false, Vec::new()));
    let out = p.clean_content("x\n\t\t\ny");
    assert_eq!(out, "x\n\ny");
}

#[test]
fn cleaning_is_idempotent_with_defaults() {
    let t = targets(true, true, true, true, true, Vec::new());
    let p = processor_with(t);
    let input = "fn main() {\u{200B}\n    let x = 1;\u{00A0}  \n   \n\tprint\u{0007}\n";
    let once = p.clean_content(input);
    let twice = p.clean_content(&once);
    assert_eq!(once, twice);
}

#[test]
fn cleaning_is_idempotent_per_rule() {
    let flag_sets = [
        (true, false, false, false, false),
        (false, true, false, false, false),
        (false, false, true, false, false),
        (false, false, false, true, false),
        (false, false, false, false, true),
    ];
    let input = "a\u{200B} \u{00A0}\u{0007}\u{2003}b  \n   \nend\t";
    for (zw, nb, ct, uw, tr) in flag_sets {
        let p = processor_with(targets(zw, nb, ct, uw, tr, Vec::new()));
        let once = p.clean_content(input);
        let twice = p.clean_content(&once);
        assert_eq!(once, twice);
    }
}

#[test]
fn custom_chars_idempotent_without_trailing_rule() {
    let p = processor_with(targets(
        true,
        true,
        true,
        true,
        false,
        vec!["58".to_string()],
    ));
    let input = "b XaX \u{200B}c\n  \n";
    let once = p.clean_content(input);
    let twice = p.clean_content(&once);
    assert_eq!(once, twice);
}

#[test]
fn custom_deletion_can_expose_trailing_whitespace() {
    // The custom rule runs after the trailing-whitespace rule, so deleting a
    // character can leave a space at the end of a line that only a second
    // pass would trim. This boundary is why the idempotence law excludes the
    // combination.
    let p = processor_with(targets(
        false,
        false,
        false,
        false,
        true,
        vec!["58".to_string()],
    ));
    let once = p.clean_content("b X");
    let twice = p.clean_content(&once);
    assert_eq!(once, "b ");
    assert_eq!(twice, "b");
}

#[test]
fn custom_char_removed_by_hex_entry() {
    let p = processor_with(targets(
        false,
        false,
        false,
        false,
        false,
        vec!["41".to_string()],
    ));
    let out = p.clean_content("bAnAnA");
    assert_eq!(out, "bnn");
}

#[test]
fn custom_char_with_u_plus_prefix() {
    let p = processor_with(targets(
        false,
        false,
        false,
        false,
        false,
        vec!["U+0042".to_string()],
    ));
    let out = p.clean_content("aBcB");
    assert_eq!(out, "ac");
}

#[test]
fn custom_char_with_repeated_prefix_and_sign() {
    // The prefix strip is repeated and a single leading + sign is accepted,
    // exactly as the original number parser behaves.
    let p = processor_with(targets(
        false,
        false,
        false,
        false,
        false,
        vec!["U+U+43".to_string(), "+44".to_string()],
    ));
    let out = p.clean_content("aCbDc");
    assert_eq!(out, "abc");
}

#[test]
fn invalid_custom_entries_are_silently_skipped() {
    let p = processor_with(targets(
        false,
        false,
        false,
        false,
        false,
        vec![
            "zz".to_string(),
            "".to_string(),
            "U+".to_string(),
            "D800".to_string(),
            "110000".to_string(),
            "FFFFFFFFF".to_string(),
            "++41".to_string(),
        ],
    ));
    let out = p.clean_content("ABCabc");
    assert_eq!(out, "ABCabc");
}

#[test]
fn count_changes_is_byte_difference() {
    let p = processor_with(targets(true, false, false, false, false, Vec::new()));
    let input = "x\u{200B}\u{200B}y";
    let cleaned = p.clean_content(input);
    assert_eq!(cleaned, "xy");
    // U+200B is three bytes in UTF-8.
    assert_eq!(p.count_changes(input, &cleaned), 6);
}

#[test]
fn process_content_no_changes() {
    let p = processor_with(targets(true, true, true, true, true, Vec::new()));
    let (cleaned, result) = p.process_content("already clean\n", false);
    assert_eq!(cleaned, "already clean\n");
    assert!(matches!(result, ProcessResult::NoChanges));
}

#[test]
fn dry_run_reports_what_real_run_would_change() {
    let t = targets(true, true, true, true, true, Vec::new());
    let input = "bad\u{200B} text  \n";
    let p = processor_with(t.clone());
    let (dry_cleaned, dry) = p.process_content(input, true);
    let (real_cleaned, real) = p.process_content(input, false);
    assert_eq!(dry_cleaned, real_cleaned);
    match (dry, real) {
        (ProcessResult::DryRun(a), ProcessResult::Cleaned(b)) => assert_eq!(a, b),
        _ => panic!("unexpected variants"),
    }
}

#[test]
fn empty_input_stays_empty() {
    let p = processor_with(targets(true, true, true, true, true, Vec::new()));
    assert_eq!(p.clean_content(""), "");
    let (out, result) = p.process_content("", false);
    assert_eq!(out, "");
    assert!(matches!(result, ProcessResult::NoChanges));
}

#[test]
fn line_breaks_and_tabs_survive_full_cleaning() {
    let p = processor_with(targets(true, true, true, true, false, Vec::new()));
    let input = "a\tb\r\nc\nd";
    assert_eq!(p.clean_content(input), input);
}

#[test]
fn rules_compose_in_pipeline_order() {
    let p = processor_with(targets(true, true, true, true, true, Vec::new()));
    let input = "head\u{FEFF}\u{00A0}tail \u{0007} \n \u{2003} \nlast line\t";
    let out = p.clean_content(input);
    assert_eq!(out, "head tail\n\nlast line");
}
