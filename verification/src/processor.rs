//! Cleaning one file's content: the ordered rule pipeline, the change count,
//! and the outcome reported for the file.

use vstd::prelude::*;
use vstd::string::StringExecFns;
use crate::config::{GhostScrubConfig, TargetCharacters};
use crate::customs::{parsed_customs, parse_custom_entries};
use crate::measure::{byte_len, byte_length, lemma_clean_byte_le};
use crate::strutil::{chars_of_str, string_from_chars};
use crate::text::{CharSel, strip, to_space, trim_end_spec, blank_to_empty, split_lines,
    rule_trailing, rule_blank_lines, rule_customs, clean_spec, strip_chars,
    to_space_chars, trim_end_chars, is_blank_chars, split_chars, join_chars};

verus! {

/// The outcome of processing one file.
#[derive(Debug, PartialEq, Eq, Structural)]
pub enum ProcessResult {
    Cleaned(usize),
    DryRun(usize),
    NoChanges,
    Skipped,
}

/// What the pipeline makes of the text under the given targets.
pub open spec fn clean_of(t: TargetCharacters, s: Seq<char>) -> Seq<char> {
    clean_spec(
        s,
        t.zero_width_spaces,
        t.non_breaking_spaces,
        t.control_characters,
        t.unicode_whitespace,
        t.trailing_whitespace,
        parsed_customs(t.custom_chars.deep_view()),
    )
}

/// The reported change count: the byte-length delta of the cleaning. A
/// substitution that keeps the byte length (none of the built-in rules does)
/// would not be counted; this measure is kept for output compatibility.
pub open spec fn change_count_of(t: TargetCharacters, s: Seq<char>) -> int {
    byte_len(s) - byte_len(clean_of(t, s))
}

/// The change count is the same whether the run is dry or real, and it is
/// never negative: cleaning only ever removes bytes.
pub proof fn lemma_dry_run_count_matches_real(t: TargetCharacters, s: Seq<char>)
    ensures
        change_count_of(t, s) >= 0,
        change_count_of(t, s) == byte_len(s) - byte_len(clean_of(t, s)),
{
    lemma_clean_byte_le(
        s,
        t.zero_width_spaces,
        t.non_breaking_spaces,
        t.control_characters,
        t.unicode_whitespace,
        t.trailing_whitespace,
        parsed_customs(t.custom_chars.deep_view()),
    );
}

pub struct FileProcessor {
    pub config: GhostScrubConfig,
}

impl FileProcessor {
    pub fn new(config: GhostScrubConfig) -> (r: Self)
        ensures
            r.config == config,
    {
        FileProcessor { config }
    }

    /// Deletes U+200B, U+200C, U+200D and U+FEFF.
    pub fn remove_zero_width_spaces(&self, content: &str) -> (r: String)
        ensures
            r@ == strip(content@, CharSel::ZeroWidth),
    {
        let v = chars_of_str(content);
        let out = strip_chars(&v, CharSel::ZeroWidth);
        string_from_chars(&out)
    }

    /// Replaces U+00A0 with a regular space.
    pub fn remove_non_breaking_spaces(&self, content: &str) -> (r: String)
        ensures
            r@ == to_space(content@),
    {
        let v = chars_of_str(content);
        let out = to_space_chars(&v);
        string_from_chars(&out)
    }

    /// Deletes ASCII control characters except `\n`, `\r` and `\t`.
    pub fn remove_control_characters(&self, content: &str) -> (r: String)
        ensures
            r@ == strip(content@, CharSel::Control),
    {
        let v = chars_of_str(content);
        let out = strip_chars(&v, CharSel::Control);
        string_from_chars(&out)
    }

    /// Deletes Unicode whitespace except space, `\n`, `\r` and `\t`.
    pub fn remove_unicode_whitespace(&self, content: &str) -> (r: String)
        ensures
            r@ == strip(content@, CharSel::UnicodeWs),
    {
        let v = chars_of_str(content);
        let out = strip_chars(&v, CharSel::UnicodeWs);
        string_from_chars(&out)
    }

    /// Right-trims every line and rejoins with `\n`; a `\r` before a `\n`
    /// is trailing whitespace and so is collapsed by the rejoin.
    pub fn remove_trailing_whitespace(&self, content: &str) -> (r: String)
        ensures
            r@ == rule_trailing(content@),
    {
        let v = chars_of_str(content);
        let lines = split_chars(&v);
        let mut out_lines: Vec<Vec<char>> = Vec::new();
        let mut j: usize = 0;
        while j < lines.len()
            invariant
                j <= lines.len(),
                lines.deep_view() == split_lines(v@),
                out_lines.deep_view().len() == j,
                forall|k: int|
                    0 <= k < j ==> out_lines.deep_view()[k] == trim_end_spec(
                        #[trigger] lines.deep_view()[k],
                    ),
            decreases lines.len() - j,
        {
            let t = trim_end_chars(&lines[j]);
            proof {
                assert(lines@[j as int]@ =~= lines.deep_view()[j as int]);
            }
            let ghost old_dv = out_lines.deep_view();
            out_lines.push(t);
            proof {
                assert(out_lines.deep_view() =~~= old_dv.push(t@));
            }
            j = j + 1;
        }
        proof {
            assert(out_lines.deep_view() =~= split_lines(v@).map_values(
                |l: Seq<char>| trim_end_spec(l),
            ));
        }
        let out = join_chars(&out_lines);
        string_from_chars(&out)
    }

    /// Empties every whitespace-only line and rejoins with `\n`.
    pub fn remove_whitespace_only_lines(&self, content: &str) -> (r: String)
        ensures
            r@ == rule_blank_lines(content@),
    {
        let v = chars_of_str(content);
        let lines = split_chars(&v);
        let mut out_lines: Vec<Vec<char>> = Vec::new();
        let mut j: usize = 0;
        while j < lines.len()
            invariant
                j <= lines.len(),
                lines.deep_view() == split_lines(v@),
                out_lines.deep_view().len() == j,
                forall|k: int|
                    0 <= k < j ==> out_lines.deep_view()[k] == blank_to_empty(
                        #[trigger] lines.deep_view()[k],
                    ),
            decreases lines.len() - j,
        {
            proof {
                assert(lines@[j as int]@ =~= lines.deep_view()[j as int]);
            }
            let t: Vec<char> = if is_blank_chars(&lines[j]) {
                Vec::new()
            } else {
                let mut copy: Vec<char> = Vec::new();
                let line = &lines[j];
                let mut k: usize = 0;
                while k < line.len()
                    invariant
                        k <= line.len(),
                        copy@ == line@.take(k as int),
                    decreases line.len() - k,
                {
                    copy.push(line[k]);
                    assert(line@.take(k + 1) =~= line@.take(k as int).push(line@[k as int]));
                    k = k + 1;
                }
                assert(copy@ =~= line@);
                copy
            };
            proof {
                assert(t@ == blank_to_empty(lines.deep_view()[j as int]));
            }
            let ghost old_dv = out_lines.deep_view();
            out_lines.push(t);
            proof {
                assert(out_lines.deep_view() =~~= old_dv.push(t@));
            }
            j = j + 1;
        }
        proof {
            assert(out_lines.deep_view() =~= split_lines(v@).map_values(
                |l: Seq<char>| blank_to_empty(l),
            ));
        }
        let out = join_chars(&out_lines);
        string_from_chars(&out)
    }

    /// The whole pipeline: the five flagged rules in order, then the custom
    /// deletions, then always the whitespace-only-line rule.
    pub fn clean_content(&self, content: &str) -> (r: String)
        ensures
            r@ == clean_of(self.config.target_characters, content@),
    {
        let t = &self.config.target_characters;
        let mut result: String = content.to_owned();
        if t.zero_width_spaces {
            let next = self.remove_zero_width_spaces(result.as_str());
            result = next;
        }
        if t.non_breaking_spaces {
            let next = self.remove_non_breaking_spaces(result.as_str());
            result = next;
        }
        if t.control_characters {
            let next = self.remove_control_characters(result.as_str());
            result = next;
        }
        if t.unicode_whitespace {
            let next = self.remove_unicode_whitespace(result.as_str());
            result = next;
        }
        if t.trailing_whitespace {
            let next = self.remove_trailing_whitespace(result.as_str());
            result = next;
        }
        let ghost s5 = result@;
        let ghost cs = parsed_customs(t.custom_chars.deep_view());
        let customs = parse_custom_entries(&t.custom_chars);
        let mut k: usize = 0;
        proof {
            assert(cs.skip(0) =~= cs);
        }
        while k < customs.len()
            invariant
                k <= customs.len(),
                customs@ == cs,
                rule_customs(result@, cs.skip(k as int)) == rule_customs(s5, cs),
            decreases customs.len() - k,
        {
            let v = chars_of_str(result.as_str());
            let out = strip_chars(&v, CharSel::Exact(customs[k]));
            proof {
                assert(cs.skip(k as int).len() > 0);
                assert(cs.skip(k as int)[0] == cs[k as int]);
                assert(cs.skip(k as int).drop_first() =~= cs.skip(k + 1));
            }
            result = string_from_chars(&out);
            k = k + 1;
        }
        proof {
            assert(cs.skip(cs.len() as int) =~= Seq::<char>::empty());
            assert(result@ == rule_customs(s5, cs));
        }
        let cleaned = self.remove_whitespace_only_lines(result.as_str());
        cleaned
    }

    /// Renders one raw line with every invisible character made visible.
    pub fn visualize_invisible_chars(&self, text: &str) -> (r: String)
        ensures
            r@ == crate::viz::viz_line(text@),
    {
        let v = chars_of_str(text);
        let out = crate::viz::viz_line_chars(&v);
        string_from_chars(&out)
    }

    /// The line-aligned diff between the original and the cleaned text, one
    /// rendered pair per differing line; the caller prints it.
    pub fn diff_report(&self, original: &str, cleaned: &str) -> (r: Vec<crate::viz::DiffLine>)
        ensures
            r@.len() == crate::viz::diff_report_spec(original@, cleaned@).len(),
            forall|j: int|
                0 <= j < r@.len() ==> {
                    &&& (#[trigger] r@[j]).index == crate::viz::diff_report_spec(
                        original@,
                        cleaned@,
                    )[j].0
                    &&& r@[j].original@ == crate::viz::diff_report_spec(
                        original@,
                        cleaned@,
                    )[j].1
                    &&& r@[j].cleaned@ == crate::viz::diff_report_spec(original@, cleaned@)[j].2
                },
    {
        crate::viz::diff_report(original, cleaned)
    }

    /// The byte-length delta between the original and the cleaned text.
    pub fn count_changes(&self, original: &str, cleaned: &str) -> (n: usize)
        requires
            byte_len(cleaned@) <= byte_len(original@),
        ensures
            n == byte_len(original@) - byte_len(cleaned@),
    {
        byte_length(original) - byte_length(cleaned)
    }

    /// Cleans the content and decides the outcome. The cleaned text does not
    /// depend on `dry_run`: a dry run computes exactly what a real run would
    /// write, and reports the same count; only the variant differs, so the
    /// caller writes the file back exactly when the result is `Cleaned`.
    pub fn process_content(&self, content: &str, dry_run: bool) -> (r: (String, ProcessResult))
        ensures
            r.0@ == clean_of(self.config.target_characters, content@),
            (r.1 == ProcessResult::NoChanges) <==> (r.0@ == content@),
            r.0@ != content@ && dry_run ==> r.1 == ProcessResult::DryRun(
                change_count_of(self.config.target_characters, content@) as usize,
            ),
            r.0@ != content@ && !dry_run ==> r.1 == ProcessResult::Cleaned(
                change_count_of(self.config.target_characters, content@) as usize,
            ),
            change_count_of(self.config.target_characters, content@) >= 0,
    {
        proof {
            lemma_dry_run_count_matches_real(self.config.target_characters, content@);
        }
        let cleaned = self.clean_content(content);
        let original = String::from_str(content);
        if original == cleaned {
            return (cleaned, ProcessResult::NoChanges);
        }
        let count = self.count_changes(content, cleaned.as_str());
        if dry_run {
            (cleaned, ProcessResult::DryRun(count))
        } else {
            (cleaned, ProcessResult::Cleaned(count))
        }
    }
}

} // verus!
