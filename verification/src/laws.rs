//! Properties of the cleaning pipeline that hold for every input.

use vstd::prelude::*;
use crate::chars::is_zero_width;
use crate::text::{CharSel, strip, to_space, rule_trailing, rule_blank_lines, rule_customs,
    clean_spec, no_char, occurrences, lines_trimmed, lines_blank_clean,
    lemma_strip_no_char, lemma_strip_id, lemma_strip_preserves_no_char,
    lemma_strip_occurrences_kept, lemma_strip_occurrences_removed,
    lemma_to_space_no_nbsp, lemma_to_space_id, lemma_to_space_preserves_no_char,
    lemma_to_space_len, lemma_rule_trailing_preserves_no_char,
    lemma_rule_blank_preserves_no_char, lemma_rule_trailing_trimmed,
    lemma_rule_trailing_id, lemma_rule_blank_clean, lemma_rule_blank_id,
    lemma_rule_blank_preserves_trimmed, lemma_rule_customs_preserves_no_char,
    lemma_rule_customs_no_char, lemma_rule_customs_id,
    lemma_rule_blank_preserves_no_newline};

verus! {

/// Cleaning is idempotent: running the pipeline a second time changes
/// nothing. A custom deletion can expose new trailing whitespace after the
/// trailing-whitespace rule has run, so the two are not combined here: the
/// law is stated for runs without custom code points or without the
/// trailing-whitespace rule.
pub proof fn lemma_clean_idempotent(
    s: Seq<char>,
    zw: bool,
    nb: bool,
    ct: bool,
    uw: bool,
    tr: bool,
    customs: Seq<char>,
)
    requires
        customs.len() == 0 || !tr,
    ensures
        clean_spec(clean_spec(s, zw, nb, ct, uw, tr, customs), zw, nb, ct, uw, tr, customs)
            == clean_spec(s, zw, nb, ct, uw, tr, customs),
{
    let s1 = if zw {
        strip(s, CharSel::ZeroWidth)
    } else {
        s
    };
    let s2 = if nb {
        to_space(s1)
    } else {
        s1
    };
    let s3 = if ct {
        strip(s2, CharSel::Control)
    } else {
        s2
    };
    let s4 = if uw {
        strip(s3, CharSel::UnicodeWs)
    } else {
        s3
    };
    let s5 = if tr {
        rule_trailing(s4)
    } else {
        s4
    };
    let s6 = rule_customs(s5, customs);
    let o = rule_blank_lines(s6);
    assert(clean_spec(s, zw, nb, ct, uw, tr, customs) == o);

    if zw {
        lemma_strip_no_char(s, CharSel::ZeroWidth);
        if nb {
            lemma_to_space_preserves_no_char(s1, CharSel::ZeroWidth);
        }
        if ct {
            lemma_strip_preserves_no_char(s2, CharSel::Control, CharSel::ZeroWidth);
        }
        if uw {
            lemma_strip_preserves_no_char(s3, CharSel::UnicodeWs, CharSel::ZeroWidth);
        }
        if tr {
            lemma_rule_trailing_preserves_no_char(s4, CharSel::ZeroWidth);
        }
        lemma_rule_customs_preserves_no_char(s5, customs, CharSel::ZeroWidth);
        lemma_rule_blank_preserves_no_char(s6, CharSel::ZeroWidth);
        assert(no_char(o, CharSel::ZeroWidth));
    }
    let nbsp_sel = CharSel::Exact('\u{00A0}');
    if nb {
        lemma_to_space_no_nbsp(s1);
        if ct {
            lemma_strip_preserves_no_char(s2, CharSel::Control, nbsp_sel);
        }
        if uw {
            lemma_strip_preserves_no_char(s3, CharSel::UnicodeWs, nbsp_sel);
        }
        if tr {
            lemma_rule_trailing_preserves_no_char(s4, nbsp_sel);
        }
        lemma_rule_customs_preserves_no_char(s5, customs, nbsp_sel);
        lemma_rule_blank_preserves_no_char(s6, nbsp_sel);
        assert(no_char(o, nbsp_sel));
    }
    if ct {
        lemma_strip_no_char(s2, CharSel::Control);
        if uw {
            lemma_strip_preserves_no_char(s3, CharSel::UnicodeWs, CharSel::Control);
        }
        if tr {
            lemma_rule_trailing_preserves_no_char(s4, CharSel::Control);
        }
        lemma_rule_customs_preserves_no_char(s5, customs, CharSel::Control);
        lemma_rule_blank_preserves_no_char(s6, CharSel::Control);
        assert(no_char(o, CharSel::Control));
    }
    if uw {
        lemma_strip_no_char(s3, CharSel::UnicodeWs);
        if tr {
            lemma_rule_trailing_preserves_no_char(s4, CharSel::UnicodeWs);
        }
        lemma_rule_customs_preserves_no_char(s5, customs, CharSel::UnicodeWs);
        lemma_rule_blank_preserves_no_char(s6, CharSel::UnicodeWs);
        assert(no_char(o, CharSel::UnicodeWs));
    }
    if tr {
        assert(s6 == s5);
        lemma_rule_trailing_trimmed(s4);
        lemma_rule_blank_preserves_trimmed(s6);
        assert(lines_trimmed(o));
    }
    lemma_rule_blank_clean(s6);
    assert(lines_blank_clean(o));

    lemma_rule_customs_no_char(s5, customs);
    assert forall|i: int| 0 <= i < customs.len() implies no_char(
        o,
        CharSel::Exact(#[trigger] customs[i]),
    ) by {
        assert(no_char(s6, CharSel::Exact(customs[i])));
        if customs[i] == '\n' {
            lemma_rule_blank_preserves_no_newline(s6);
        } else {
            lemma_rule_blank_preserves_no_char(s6, CharSel::Exact(customs[i]));
        }
    }

    let o1 = if zw {
        strip(o, CharSel::ZeroWidth)
    } else {
        o
    };
    if zw {
        lemma_strip_id(o, CharSel::ZeroWidth);
    }
    assert(o1 == o);
    let o2 = if nb {
        to_space(o1)
    } else {
        o1
    };
    if nb {
        lemma_to_space_id(o);
    }
    assert(o2 == o);
    let o3 = if ct {
        strip(o2, CharSel::Control)
    } else {
        o2
    };
    if ct {
        lemma_strip_id(o, CharSel::Control);
    }
    assert(o3 == o);
    let o4 = if uw {
        strip(o3, CharSel::UnicodeWs)
    } else {
        o3
    };
    if uw {
        lemma_strip_id(o, CharSel::UnicodeWs);
    }
    assert(o4 == o);
    let o5 = if tr {
        rule_trailing(o4)
    } else {
        o4
    };
    if tr {
        lemma_rule_trailing_id(o);
    }
    assert(o5 == o);
    lemma_rule_customs_id(o, customs);
    assert(rule_customs(o5, customs) == o);
    lemma_rule_blank_id(o);
    assert(clean_spec(o, zw, nb, ct, uw, tr, customs) == o);
}

/// `\n`, `\r` and `\t` are never removed by the control-character rule or
/// the unicode-whitespace rule: each occurrence survives both.
pub proof fn lemma_line_breaks_never_removed(s: Seq<char>)
    ensures
        occurrences(strip(s, CharSel::Control), '\n') == occurrences(s, '\n'),
        occurrences(strip(s, CharSel::Control), '\r') == occurrences(s, '\r'),
        occurrences(strip(s, CharSel::Control), '\t') == occurrences(s, '\t'),
        occurrences(strip(s, CharSel::UnicodeWs), '\n') == occurrences(s, '\n'),
        occurrences(strip(s, CharSel::UnicodeWs), '\r') == occurrences(s, '\r'),
        occurrences(strip(s, CharSel::UnicodeWs), '\t') == occurrences(s, '\t'),
{
    lemma_strip_occurrences_kept(s, CharSel::Control, '\n');
    lemma_strip_occurrences_kept(s, CharSel::Control, '\r');
    lemma_strip_occurrences_kept(s, CharSel::Control, '\t');
    lemma_strip_occurrences_kept(s, CharSel::UnicodeWs, '\n');
    lemma_strip_occurrences_kept(s, CharSel::UnicodeWs, '\r');
    lemma_strip_occurrences_kept(s, CharSel::UnicodeWs, '\t');
}

/// The zero-width rule removes every occurrence of a zero-width character
/// and leaves the count of every other character unchanged.
pub proof fn lemma_zero_width_removal_exact(s: Seq<char>, c: char)
    ensures
        is_zero_width(c) ==> occurrences(strip(s, CharSel::ZeroWidth), c) == 0,
        !is_zero_width(c) ==> occurrences(strip(s, CharSel::ZeroWidth), c) == occurrences(s, c),
{
    if is_zero_width(c) {
        lemma_strip_occurrences_removed(s, CharSel::ZeroWidth, c);
    } else {
        lemma_strip_occurrences_kept(s, CharSel::ZeroWidth, c);
    }
}

/// The non-breaking-space substitution changes characters in place and so
/// never changes how many characters the text has.
pub proof fn lemma_nbsp_substitution_preserves_length(s: Seq<char>)
    ensures
        to_space(s).len() == s.len(),
{
    lemma_to_space_len(s);
}

} // verus!
