use ghostscrub::config::{GhostScrubConfig, TargetCharacters, VerbosityLevel};
use ghostscrub::processor::FileProcessor;

fn default_processor() -> FileProcessor {
    FileProcessor::new(GhostScrubConfig {
        include_extensions: Vec::new(),
        exclude_extensions: Vec::new(),
        include_patterns: Vec::new(),
        exclude_patterns: Vec::new(),
        target_characters: TargetCharacters {
            zero_width_spaces: true,
            non_breaking_spaces: true,
            control_characters: true,
            unicode_whitespace: true,
            trailing_whitespace: true,
            custom_chars: Vec::new(),
        },
        verbosity: VerbosityLevel::Normal,
    })
}

#[test]
fn whitespace_only_line_is_listed_character_by_character() {
    let p = default_processor();
    assert_eq!(
        p.visualize_invisible_chars(" \t\u{00A0}"),
        "\u{2983}WHITESPACE-ONLY: SP+TAB+NBSP\u{2984}"
    );
}

#[test]
fn empty_line_gets_its_own_marker() {
    let p = default_processor();
    assert_eq!(p.visualize_invisible_chars(""), "\u{2983}EMPTY\u{2984}");
}

#[test]
fn trailing_whitespace_is_listed_after_trimmed_content() {
    let p = default_processor();
    assert_eq!(
        p.visualize_invisible_chars("foo  \t"),
        "foo\u{2983}TRAILING: SP+SP+TAB\u{2984}"
    );
}

#[test]
fn invisible_characters_render_inline() {
    let p = default_processor();
    assert_eq!(
        p.visualize_invisible_chars("a\u{200B}b\u{FEFF}c"),
        "a\u{2983}ZWS\u{2984}b\u{2983}BOM\u{2984}c"
    );
    assert_eq!(
        p.visualize_invisible_chars("x\u{00A0}y"),
        "x\u{2983}NBSP\u{2984}y"
    );
}

#[test]
fn control_and_whitespace_render_with_hex_code() {
    let p = default_processor();
    assert_eq!(
        p.visualize_invisible_chars("a\u{0007}b"),
        "a\u{2983}U+0007\u{2984}b"
    );
    assert_eq!(
        p.visualize_invisible_chars("a\u{2003}b"),
        "a\u{2983}WS:U+2003\u{2984}b"
    );
}

#[test]
fn whitespace_only_line_hex_tags() {
    let p = default_processor();
    assert_eq!(
        p.visualize_invisible_chars("\u{2003}\u{2003}"),
        "\u{2983}WHITESPACE-ONLY: WS:U+2003+WS:U+2003\u{2984}"
    );
}

#[test]
fn diff_report_lists_only_differing_lines() {
    let p = default_processor();
    let original = "same\nbad\u{200B}line\nalso same\ntail  \n";
    let cleaned = p.clean_content(original);
    assert_eq!(cleaned, "same\nbadline\nalso same\ntail\n");
    let report = p.diff_report(original, &cleaned);
    assert_eq!(report.len(), 2);
    assert_eq!(report[0].index, 1);
    assert_eq!(report[0].original, "bad\u{2983}ZWS\u{2984}line");
    assert_eq!(report[0].cleaned, "badline");
    assert_eq!(report[1].index, 3);
    assert_eq!(report[1].original, "tail\u{2983}TRAILING: SP+SP\u{2984}");
    assert_eq!(report[1].cleaned, "tail");
}

#[test]
fn diff_report_treats_missing_lines_as_empty() {
    let p = default_processor();
    let report = p.diff_report("a\nb", "a");
    assert_eq!(report.len(), 1);
    assert_eq!(report[0].index, 1);
    assert_eq!(report[0].original, "b");
    assert_eq!(report[0].cleaned, "\u{2983}EMPTY\u{2984}");
}

#[test]
fn identical_texts_give_empty_report() {
    let p = default_processor();
    let report = p.diff_report("one\ntwo\n", "one\ntwo\n");
    assert!(report.is_empty());
}
