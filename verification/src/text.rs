//! The sequence-level model of the cleaning rules: character stripping,
//! the non-breaking-space substitution, and line splitting and joining.

use vstd::prelude::*;
use crate::chars::{is_zero_width, is_removable_control, is_removable_unicode_ws,
    is_unicode_whitespace};

verus! {

/// Selects a class of characters for a deletion rule.
#[derive(Clone, Copy, Debug)]
pub enum CharSel {
    ZeroWidth,
    Control,
    UnicodeWs,
    Exact(char),
}

/// Whether the selector deletes the character.
pub open spec fn removes(sel: CharSel, c: char) -> bool {
    match sel {
        CharSel::ZeroWidth => is_zero_width(c),
        CharSel::Control => is_removable_control(c),
        CharSel::UnicodeWs => is_removable_unicode_ws(c),
        CharSel::Exact(x) => c == x,
    }
}

pub fn check_removes(sel: CharSel, c: char) -> (b: bool)
    ensures
        b == removes(sel, c),
{
    match sel {
        CharSel::ZeroWidth => crate::chars::check_zero_width(c),
        CharSel::Control => crate::chars::check_removable_control(c),
        CharSel::UnicodeWs => crate::chars::check_removable_unicode_ws(c),
        CharSel::Exact(x) => c == x,
    }
}

/// The text with every character the selector deletes removed.
pub open spec fn strip(s: Seq<char>, sel: CharSel) -> Seq<char>
    decreases s.len(),
{
    if s.len() == 0 {
        Seq::<char>::empty()
    } else {
        strip(s.drop_last(), sel) + (if removes(sel, s.last()) {
            Seq::<char>::empty()
        } else {
            seq![s.last()]
        })
    }
}

/// The text with every non-breaking space replaced by a regular space.
pub open spec fn to_space(s: Seq<char>) -> Seq<char>
    decreases s.len(),
{
    if s.len() == 0 {
        Seq::<char>::empty()
    } else {
        to_space(s.drop_last()).push(
            if s.last() == '\u{00A0}' {
                ' '
            } else {
                s.last()
            },
        )
    }
}

/// No character of the text is one the selector deletes.
pub open spec fn no_char(s: Seq<char>, sel: CharSel) -> bool {
    forall|i: int| 0 <= i < s.len() ==> !removes(sel, #[trigger] s[i])
}

/// How many times the character occurs in the text.
pub open spec fn occurrences(s: Seq<char>, c: char) -> nat
    decreases s.len(),
{
    if s.len() == 0 {
        0
    } else {
        occurrences(s.drop_last(), c) + (if s.last() == c {
            1nat
        } else {
            0nat
        })
    }
}

pub proof fn lemma_strip_no_char(s: Seq<char>, sel: CharSel)
    ensures
        no_char(strip(s, sel), sel),
    decreases s.len(),
{
    if s.len() > 0 {
        lemma_strip_no_char(s.drop_last(), sel);
    }
}

pub proof fn lemma_strip_id(s: Seq<char>, sel: CharSel)
    requires
        no_char(s, sel),
    ensures
        strip(s, sel) == s,
    decreases s.len(),
{
    if s.len() > 0 {
        assert(!removes(sel, s.last()));
        assert(no_char(s.drop_last(), sel));
        lemma_strip_id(s.drop_last(), sel);
        assert(strip(s, sel) =~= s);
    } else {
        assert(strip(s, sel) =~= s);
    }
}

pub proof fn lemma_strip_preserves_no_char(s: Seq<char>, sel: CharSel, other: CharSel)
    requires
        no_char(s, other),
    ensures
        no_char(strip(s, sel), other),
    decreases s.len(),
{
    if s.len() > 0 {
        assert(no_char(s.drop_last(), other));
        lemma_strip_preserves_no_char(s.drop_last(), sel, other);
    }
}

pub proof fn lemma_strip_occurrences_kept(s: Seq<char>, sel: CharSel, c: char)
    requires
        !removes(sel, c),
    ensures
        occurrences(strip(s, sel), c) == occurrences(s, c),
    decreases s.len(),
{
    if s.len() > 0 {
        lemma_strip_occurrences_kept(s.drop_last(), sel, c);
        if !removes(sel, s.last()) {
            lemma_occurrences_push(strip(s.drop_last(), sel), s.last(), c);
            assert(strip(s, sel) =~= strip(s.drop_last(), sel).push(s.last()));
        } else {
            assert(strip(s, sel) =~= strip(s.drop_last(), sel));
        }
    }
}

pub proof fn lemma_strip_occurrences_removed(s: Seq<char>, sel: CharSel, c: char)
    requires
        removes(sel, c),
    ensures
        occurrences(strip(s, sel), c) == 0,
    decreases s.len(),
{
    lemma_strip_no_char(s, sel);
    lemma_no_char_occurrences(strip(s, sel), sel, c);
}

pub proof fn lemma_no_char_occurrences(s: Seq<char>, sel: CharSel, c: char)
    requires
        no_char(s, sel),
        removes(sel, c),
    ensures
        occurrences(s, c) == 0,
    decreases s.len(),
{
    if s.len() > 0 {
        assert(no_char(s.drop_last(), sel));
        lemma_no_char_occurrences(s.drop_last(), sel, c);
    }
}

pub proof fn lemma_occurrences_push(s: Seq<char>, x: char, c: char)
    ensures
        occurrences(s.push(x), c) == occurrences(s, c) + (if x == c {
            1nat
        } else {
            0nat
        }),
{
    assert(s.push(x).drop_last() =~= s);
    assert(s.push(x).last() == x);
}

pub proof fn lemma_to_space_no_nbsp(s: Seq<char>)
    ensures
        no_char(to_space(s), CharSel::Exact('\u{00A0}')),
    decreases s.len(),
{
    if s.len() > 0 {
        lemma_to_space_no_nbsp(s.drop_last());
    }
}

pub proof fn lemma_to_space_id(s: Seq<char>)
    requires
        no_char(s, CharSel::Exact('\u{00A0}')),
    ensures
        to_space(s) == s,
    decreases s.len(),
{
    if s.len() > 0 {
        assert(no_char(s.drop_last(), CharSel::Exact('\u{00A0}')));
        lemma_to_space_id(s.drop_last());
        assert(s.last() != '\u{00A0}');
        assert(to_space(s) =~= s);
    } else {
        assert(to_space(s) =~= s);
    }
}

pub proof fn lemma_to_space_preserves_no_char(s: Seq<char>, other: CharSel)
    requires
        no_char(s, other),
        !removes(other, ' '),
    ensures
        no_char(to_space(s), other),
    decreases s.len(),
{
    if s.len() > 0 {
        assert(no_char(s.drop_last(), other));
        lemma_to_space_preserves_no_char(s.drop_last(), other);
    }
}

pub proof fn lemma_to_space_len(s: Seq<char>)
    ensures
        to_space(s).len() == s.len(),
    decreases s.len(),
{
    if s.len() > 0 {
        lemma_to_space_len(s.drop_last());
    }
}

/// The lines of the text, split on `'\n'`. The newlines themselves are not
/// kept: the text between two newlines is a line, as is the text before the
/// first and after the last, so the result always has one more element than
/// the text has newlines.
pub open spec fn split_lines(s: Seq<char>) -> Seq<Seq<char>>
    decreases s.len(),
{
    if s.len() == 0 {
        seq![Seq::<char>::empty()]
    } else if s[0] == '\n' {
        seq![Seq::<char>::empty()] + split_lines(s.drop_first())
    } else {
        let rest = split_lines(s.drop_first());
        seq![seq![s[0]] + rest[0]] + rest.drop_first()
    }
}

/// The lines joined back with `'\n'` between each pair.
pub open spec fn join_lines(ls: Seq<Seq<char>>) -> Seq<char>
    decreases ls.len(),
{
    if ls.len() == 0 {
        Seq::<char>::empty()
    } else if ls.len() == 1 {
        ls[0]
    } else {
        ls[0] + seq!['\n'] + join_lines(ls.drop_first())
    }
}

/// The line with its trailing Unicode whitespace removed.
pub open spec fn trim_end_spec(l: Seq<char>) -> Seq<char>
    decreases l.len(),
{
    if l.len() > 0 && is_unicode_whitespace(l.last()) {
        trim_end_spec(l.drop_last())
    } else {
        l
    }
}

/// Every character of the line is Unicode whitespace.
pub open spec fn is_blank(l: Seq<char>) -> bool {
    forall|i: int| 0 <= i < l.len() ==> is_unicode_whitespace(#[trigger] l[i])
}

/// A whitespace-only line becomes empty; any other line is kept.
pub open spec fn blank_to_empty(l: Seq<char>) -> Seq<char> {
    if is_blank(l) {
        Seq::<char>::empty()
    } else {
        l
    }
}

/// No element of the line sequence contains a newline.
pub open spec fn no_newline_in_lines(ls: Seq<Seq<char>>) -> bool {
    forall|j: int| 0 <= j < ls.len() ==> !(#[trigger] ls[j]).contains('\n')
}

pub proof fn lemma_split_lines_len(s: Seq<char>)
    ensures
        split_lines(s).len() >= 1,
    decreases s.len(),
{
    if s.len() > 0 {
        lemma_split_lines_len(s.drop_first());
    }
}

pub proof fn lemma_split_lines_no_newline(s: Seq<char>)
    ensures
        no_newline_in_lines(split_lines(s)),
    decreases s.len(),
{
    if s.len() == 0 {
    } else if s[0] == '\n' {
        lemma_split_lines_no_newline(s.drop_first());
        let ls = split_lines(s);
        let rest = split_lines(s.drop_first());
        assert forall|j: int| 0 <= j < ls.len() implies !(#[trigger] ls[j]).contains('\n') by {
            if j > 0 {
                assert(ls[j] == rest[j - 1]);
            }
        }
    } else {
        lemma_split_lines_no_newline(s.drop_first());
        lemma_split_lines_len(s.drop_first());
        let ls = split_lines(s);
        let rest = split_lines(s.drop_first());
        assert forall|j: int| 0 <= j < ls.len() implies !(#[trigger] ls[j]).contains('\n') by {
            if j == 0 {
                assert(!rest[0].contains('\n'));
                assert(ls[0] == seq![s[0]] + rest[0]);
                assert forall|i: int| 0 <= i < ls[0].len() implies ls[0][i] != '\n' by {
                    if i == 0 {
                        assert(ls[0][0] == s[0]);
                    } else {
                        assert(ls[0][i] == rest[0][i - 1]);
                        assert(rest[0].contains(rest[0][i - 1])) by {
                            assert(rest[0][i - 1] == rest[0][i - 1]);
                        }
                    }
                }
                if ls[0].contains('\n') {
                    let i = choose|i: int| 0 <= i < ls[0].len() && ls[0][i] == '\n';
                    assert(false);
                }
            } else {
                assert(ls[j] == rest.drop_first()[j - 1]);
                assert(rest.drop_first()[j - 1] == rest[j]);
            }
        }
    }
}

/// Joining the lines of a text gives the text back.
pub proof fn lemma_join_split(s: Seq<char>)
    ensures
        join_lines(split_lines(s)) == s,
    decreases s.len(),
{
    if s.len() == 0 {
    } else if s[0] == '\n' {
        lemma_join_split(s.drop_first());
        lemma_split_lines_len(s.drop_first());
        let ls = split_lines(s);
        let rest = split_lines(s.drop_first());
        assert(ls.len() >= 2);
        assert(ls[0] =~= Seq::<char>::empty());
        assert(ls.drop_first() =~= rest);
        assert(join_lines(ls) =~= ls[0] + seq!['\n'] + join_lines(rest));
        assert(join_lines(ls) =~= s);
    } else {
        lemma_join_split(s.drop_first());
        lemma_split_lines_len(s.drop_first());
        let ls = split_lines(s);
        let rest = split_lines(s.drop_first());
        if rest.len() == 1 {
            assert(ls =~= seq![seq![s[0]] + rest[0]]);
            assert(join_lines(ls) == seq![s[0]] + rest[0]);
            assert(join_lines(rest) == rest[0]);
            assert(join_lines(ls) =~= s);
        } else {
            assert(ls[0] == seq![s[0]] + rest[0]);
            assert(ls.drop_first() =~= rest.drop_first());
            assert(ls.len() >= 2);
            assert(join_lines(ls) == ls[0] + seq!['\n'] + join_lines(rest.drop_first()));
            assert(join_lines(rest) == rest[0] + seq!['\n'] + join_lines(rest.drop_first()));
            assert(join_lines(ls) =~= seq![s[0]] + join_lines(rest));
            assert(join_lines(ls) =~= s);
        }
    }
}

/// Splitting a newline-free text gives that text as the only line.
pub proof fn lemma_split_single(x: Seq<char>)
    requires
        !x.contains('\n'),
    ensures
        split_lines(x) == seq![x],
    decreases x.len(),
{
    if x.len() == 0 {
        assert(x =~= Seq::<char>::empty());
        assert(split_lines(x) =~= seq![x]);
    } else {
        assert(x[0] != '\n') by {
            if x[0] == '\n' {
                assert(x.contains('\n'));
            }
        }
        assert(!x.drop_first().contains('\n')) by {
            if x.drop_first().contains('\n') {
                let i = choose|i: int|
                    0 <= i < x.drop_first().len() && x.drop_first()[i] == '\n';
                assert(x[i + 1] == '\n');
                assert(x.contains('\n'));
            }
        }
        lemma_split_single(x.drop_first());
        let rest = split_lines(x.drop_first());
        assert(rest == seq![x.drop_first()]);
        assert(split_lines(x) =~= seq![seq![x[0]] + x.drop_first()]);
        assert(seq![x[0]] + x.drop_first() =~= x);
        assert(split_lines(x) =~= seq![x]);
    }
}

/// Splitting a newline-free prefix, a newline, and a rest gives the prefix
/// as the first line and the split of the rest as the others.
pub proof fn lemma_split_prepend_line(a: Seq<char>, y: Seq<char>)
    requires
        !a.contains('\n'),
    ensures
        split_lines(a + seq!['\n'] + y) == seq![a] + split_lines(y),
    decreases a.len(),
{
    if a.len() == 0 {
        let s = a + seq!['\n'] + y;
        assert(s[0] == '\n');
        assert(s.drop_first() =~= y);
        assert(split_lines(s) =~= seq![Seq::<char>::empty()] + split_lines(y));
        assert(a =~= Seq::<char>::empty());
        assert(seq![a] =~= seq![Seq::<char>::empty()]);
    } else {
        let s = a + seq!['\n'] + y;
        assert(s[0] == a[0]);
        assert(a[0] != '\n') by {
            if a[0] == '\n' {
                assert(a.contains('\n'));
            }
        }
        assert(!a.drop_first().contains('\n')) by {
            if a.drop_first().contains('\n') {
                let i = choose|i: int|
                    0 <= i < a.drop_first().len() && a.drop_first()[i] == '\n';
                assert(a[i + 1] == '\n');
                assert(a.contains('\n'));
            }
        }
        lemma_split_prepend_line(a.drop_first(), y);
        assert(s.drop_first() =~= a.drop_first() + seq!['\n'] + y);
        let rest = split_lines(s.drop_first());
        assert(rest == seq![a.drop_first()] + split_lines(y));
        lemma_split_lines_len(y);
        assert(rest[0] == a.drop_first());
        assert(rest.drop_first() =~= split_lines(y));
        assert(seq![s[0]] + rest[0] =~= a);
        assert(split_lines(s) =~= seq![a] + split_lines(y));
    }
}

/// Splitting the join of newline-free lines gives the lines back.
pub proof fn lemma_split_join(ls: Seq<Seq<char>>)
    requires
        ls.len() >= 1,
        no_newline_in_lines(ls),
    ensures
        split_lines(join_lines(ls)) == ls,
    decreases ls.len(),
{
    if ls.len() == 1 {
        lemma_split_single(ls[0]);
        assert(split_lines(join_lines(ls)) =~= ls);
    } else {
        assert(no_newline_in_lines(ls.drop_first())) by {
            assert forall|j: int| 0 <= j < ls.drop_first().len() implies !(#[trigger] ls.drop_first()[j]).contains('\n') by {
                assert(ls.drop_first()[j] == ls[j + 1]);
            }
        }
        lemma_split_join(ls.drop_first());
        lemma_split_prepend_line(ls[0], join_lines(ls.drop_first()));
        assert(join_lines(ls) == ls[0] + seq!['\n'] + join_lines(ls.drop_first()));
        assert(split_lines(join_lines(ls)) == seq![ls[0]] + ls.drop_first());
        assert(seq![ls[0]] + ls.drop_first() =~= ls);
    }
}

/// The trailing-whitespace rule: right-trim each line, rejoin with `'\n'`.
pub open spec fn rule_trailing(s: Seq<char>) -> Seq<char> {
    join_lines(split_lines(s).map_values(|l: Seq<char>| trim_end_spec(l)))
}

/// The whitespace-only-line rule: empty each blank line, rejoin with `'\n'`.
pub open spec fn rule_blank_lines(s: Seq<char>) -> Seq<char> {
    join_lines(split_lines(s).map_values(|l: Seq<char>| blank_to_empty(l)))
}

pub proof fn lemma_trim_end_subset(l: Seq<char>, sel: CharSel)
    requires
        no_char(l, sel),
    ensures
        no_char(trim_end_spec(l), sel),
    decreases l.len(),
{
    if l.len() > 0 && is_unicode_whitespace(l.last()) {
        assert(no_char(l.drop_last(), sel));
        lemma_trim_end_subset(l.drop_last(), sel);
    }
}

pub proof fn lemma_trim_end_no_trailing(l: Seq<char>)
    ensures
        trim_end_spec(l).len() > 0 ==> !is_unicode_whitespace(trim_end_spec(l).last()),
        trim_end_spec(l).len() <= l.len(),
    decreases l.len(),
{
    if l.len() > 0 && is_unicode_whitespace(l.last()) {
        lemma_trim_end_no_trailing(l.drop_last());
    }
}

pub proof fn lemma_trim_end_id(l: Seq<char>)
    requires
        l.len() > 0 ==> !is_unicode_whitespace(l.last()),
    ensures
        trim_end_spec(l) == l,
{
}

pub proof fn lemma_trim_end_no_newline(l: Seq<char>)
    requires
        !l.contains('\n'),
    ensures
        !trim_end_spec(l).contains('\n'),
    decreases l.len(),
{
    if l.len() > 0 && is_unicode_whitespace(l.last()) {
        assert(!l.drop_last().contains('\n')) by {
            if l.drop_last().contains('\n') {
                let i = choose|i: int|
                    0 <= i < l.drop_last().len() && l.drop_last()[i] == '\n';
                assert(l[i] == '\n');
                assert(l.contains('\n'));
            }
        }
        lemma_trim_end_no_newline(l.drop_last());
    }
}

pub proof fn lemma_blank_no_newline(l: Seq<char>)
    requires
        !l.contains('\n'),
    ensures
        !blank_to_empty(l).contains('\n'),
{
    if is_blank(l) {
        if blank_to_empty(l).contains('\n') {
            let i = choose|i: int|
                0 <= i < blank_to_empty(l).len() && blank_to_empty(l)[i] == '\n';
            assert(false);
        }
    }
}

pub proof fn lemma_split_preserves_no_char(s: Seq<char>, sel: CharSel)
    requires
        no_char(s, sel),
    ensures
        forall|j: int|
            0 <= j < split_lines(s).len() ==> no_char(#[trigger] split_lines(s)[j], sel),
    decreases s.len(),
{
    if s.len() == 0 {
    } else if s[0] == '\n' {
        assert(no_char(s.drop_first(), sel));
        lemma_split_preserves_no_char(s.drop_first(), sel);
        let ls = split_lines(s);
        let rest = split_lines(s.drop_first());
        assert forall|j: int| 0 <= j < ls.len() implies no_char(#[trigger] ls[j], sel) by {
            if j > 0 {
                assert(ls[j] == rest[j - 1]);
            }
        }
    } else {
        assert(no_char(s.drop_first(), sel));
        lemma_split_preserves_no_char(s.drop_first(), sel);
        lemma_split_lines_len(s.drop_first());
        let ls = split_lines(s);
        let rest = split_lines(s.drop_first());
        assert forall|j: int| 0 <= j < ls.len() implies no_char(#[trigger] ls[j], sel) by {
            if j == 0 {
                assert(ls[0] == seq![s[0]] + rest[0]);
                assert(no_char(rest[0], sel));
                assert(!removes(sel, s[0]));
                assert forall|i: int| 0 <= i < ls[0].len() implies !removes(
                    sel,
                    #[trigger] ls[0][i],
                ) by {
                    if i == 0 {
                        assert(ls[0][0] == s[0]);
                    } else {
                        assert(ls[0][i] == rest[0][i - 1]);
                    }
                }
            } else {
                assert(ls[j] == rest.drop_first()[j - 1]);
                assert(rest.drop_first()[j - 1] == rest[j]);
            }
        }
    }
}

pub proof fn lemma_join_preserves_no_char(ls: Seq<Seq<char>>, sel: CharSel)
    requires
        forall|j: int| 0 <= j < ls.len() ==> no_char(#[trigger] ls[j], sel),
        !removes(sel, '\n'),
    ensures
        no_char(join_lines(ls), sel),
    decreases ls.len(),
{
    if ls.len() == 0 {
    } else if ls.len() == 1 {
        assert(no_char(ls[0], sel));
    } else {
        assert forall|j: int| 0 <= j < ls.drop_first().len() implies no_char(
            #[trigger] ls.drop_first()[j],
            sel,
        ) by {
            assert(ls.drop_first()[j] == ls[j + 1]);
        }
        lemma_join_preserves_no_char(ls.drop_first(), sel);
        let joined = join_lines(ls);
        let tail = join_lines(ls.drop_first());
        assert forall|i: int| 0 <= i < joined.len() implies !removes(
            sel,
            #[trigger] joined[i],
        ) by {
            assert(no_char(ls[0], sel));
            if i < ls[0].len() {
                assert(joined[i] == ls[0][i]);
            } else if i == ls[0].len() {
                assert(joined[i] == '\n');
            } else {
                assert(joined[i] == tail[i - ls[0].len() - 1]);
            }
        }
    }
}

pub proof fn lemma_rule_trailing_preserves_no_char(s: Seq<char>, sel: CharSel)
    requires
        no_char(s, sel),
        !removes(sel, '\n'),
    ensures
        no_char(rule_trailing(s), sel),
{
    lemma_split_preserves_no_char(s, sel);
    let mapped = split_lines(s).map_values(|l: Seq<char>| trim_end_spec(l));
    assert forall|j: int| 0 <= j < mapped.len() implies no_char(#[trigger] mapped[j], sel) by {
        assert(mapped[j] == trim_end_spec(split_lines(s)[j]));
        lemma_trim_end_subset(split_lines(s)[j], sel);
    }
    lemma_join_preserves_no_char(mapped, sel);
}

pub proof fn lemma_rule_blank_preserves_no_char(s: Seq<char>, sel: CharSel)
    requires
        no_char(s, sel),
        !removes(sel, '\n'),
    ensures
        no_char(rule_blank_lines(s), sel),
{
    lemma_split_preserves_no_char(s, sel);
    let mapped = split_lines(s).map_values(|l: Seq<char>| blank_to_empty(l));
    assert forall|j: int| 0 <= j < mapped.len() implies no_char(#[trigger] mapped[j], sel) by {
        assert(mapped[j] == blank_to_empty(split_lines(s)[j]));
        if !is_blank(split_lines(s)[j]) {
            assert(no_char(split_lines(s)[j], sel));
        }
    }
    lemma_join_preserves_no_char(mapped, sel);
}

/// Every line of the text is already right-trimmed.
pub open spec fn lines_trimmed(s: Seq<char>) -> bool {
    forall|j: int|
        0 <= j < split_lines(s).len() ==> trim_end_spec(#[trigger] split_lines(s)[j])
            == split_lines(s)[j]
}

/// Every line of the text is empty or not whitespace-only.
pub open spec fn lines_blank_clean(s: Seq<char>) -> bool {
    forall|j: int|
        0 <= j < split_lines(s).len() ==> blank_to_empty(#[trigger] split_lines(s)[j])
            == split_lines(s)[j]
}

pub proof fn lemma_rule_trailing_lines(s: Seq<char>)
    ensures
        split_lines(rule_trailing(s)) == split_lines(s).map_values(
            |l: Seq<char>| trim_end_spec(l),
        ),
{
    let mapped = split_lines(s).map_values(|l: Seq<char>| trim_end_spec(l));
    lemma_split_lines_len(s);
    lemma_split_lines_no_newline(s);
    assert forall|j: int| 0 <= j < mapped.len() implies !(#[trigger] mapped[j]).contains(
        '\n',
    ) by {
        assert(mapped[j] == trim_end_spec(split_lines(s)[j]));
        lemma_trim_end_no_newline(split_lines(s)[j]);
    }
    lemma_split_join(mapped);
}

pub proof fn lemma_rule_blank_lines_lines(s: Seq<char>)
    ensures
        split_lines(rule_blank_lines(s)) == split_lines(s).map_values(
            |l: Seq<char>| blank_to_empty(l),
        ),
{
    let mapped = split_lines(s).map_values(|l: Seq<char>| blank_to_empty(l));
    lemma_split_lines_len(s);
    lemma_split_lines_no_newline(s);
    assert forall|j: int| 0 <= j < mapped.len() implies !(#[trigger] mapped[j]).contains(
        '\n',
    ) by {
        assert(mapped[j] == blank_to_empty(split_lines(s)[j]));
        lemma_blank_no_newline(split_lines(s)[j]);
    }
    lemma_split_join(mapped);
}

pub proof fn lemma_rule_trailing_trimmed(s: Seq<char>)
    ensures
        lines_trimmed(rule_trailing(s)),
{
    lemma_rule_trailing_lines(s);
    let out = rule_trailing(s);
    let mapped = split_lines(s).map_values(|l: Seq<char>| trim_end_spec(l));
    assert forall|j: int| 0 <= j < split_lines(out).len() implies trim_end_spec(
        #[trigger] split_lines(out)[j],
    ) == split_lines(out)[j] by {
        assert(split_lines(out)[j] == trim_end_spec(split_lines(s)[j]));
        lemma_trim_end_no_trailing(split_lines(s)[j]);
        lemma_trim_end_id(trim_end_spec(split_lines(s)[j]));
    }
}

pub proof fn lemma_rule_trailing_id(s: Seq<char>)
    requires
        lines_trimmed(s),
    ensures
        rule_trailing(s) == s,
{
    let mapped = split_lines(s).map_values(|l: Seq<char>| trim_end_spec(l));
    assert(mapped =~= split_lines(s));
    lemma_join_split(s);
}

pub proof fn lemma_rule_blank_clean(s: Seq<char>)
    ensures
        lines_blank_clean(rule_blank_lines(s)),
{
    lemma_rule_blank_lines_lines(s);
    let out = rule_blank_lines(s);
    assert forall|j: int| 0 <= j < split_lines(out).len() implies blank_to_empty(
        #[trigger] split_lines(out)[j],
    ) == split_lines(out)[j] by {
        assert(split_lines(out)[j] == blank_to_empty(split_lines(s)[j]));
        if is_blank(split_lines(s)[j]) {
            assert(split_lines(out)[j] =~= Seq::<char>::empty());
            assert(is_blank(split_lines(out)[j]));
            assert(blank_to_empty(split_lines(out)[j]) =~= split_lines(out)[j]);
        }
    }
}

pub proof fn lemma_rule_blank_id(s: Seq<char>)
    requires
        lines_blank_clean(s),
    ensures
        rule_blank_lines(s) == s,
{
    let mapped = split_lines(s).map_values(|l: Seq<char>| blank_to_empty(l));
    assert(mapped =~= split_lines(s));
    lemma_join_split(s);
}

pub proof fn lemma_rule_blank_preserves_trimmed(s: Seq<char>)
    requires
        lines_trimmed(s),
    ensures
        lines_trimmed(rule_blank_lines(s)),
{
    lemma_rule_blank_lines_lines(s);
    let out = rule_blank_lines(s);
    assert forall|j: int| 0 <= j < split_lines(out).len() implies trim_end_spec(
        #[trigger] split_lines(out)[j],
    ) == split_lines(out)[j] by {
        assert(split_lines(out)[j] == blank_to_empty(split_lines(s)[j]));
        if is_blank(split_lines(s)[j]) {
            assert(split_lines(out)[j] =~= Seq::<char>::empty());
        } else {
            assert(split_lines(out)[j] == split_lines(s)[j]);
            assert(trim_end_spec(split_lines(s)[j]) == split_lines(s)[j]);
        }
    }
}

/// The custom-character deletions, applied in the order given.
pub open spec fn rule_customs(s: Seq<char>, cs: Seq<char>) -> Seq<char>
    decreases cs.len(),
{
    if cs.len() == 0 {
        s
    } else {
        rule_customs(strip(s, CharSel::Exact(cs[0])), cs.drop_first())
    }
}

/// The whole cleaning pipeline, rule by rule in its fixed order. The first
/// five rules are gated by their flags; the custom deletions take the already
/// parsed code points; the whitespace-only-line rule always runs last.
pub open spec fn clean_spec(
    s: Seq<char>,
    zw: bool,
    nb: bool,
    ct: bool,
    uw: bool,
    tr: bool,
    customs: Seq<char>,
) -> Seq<char> {
    let s1 = if zw {
        strip(s, CharSel::ZeroWidth)
    } else {
        s
    };
    let s2 = if nb {
        to_space(s1)
    } else {
        s1
    };
    let s3 = if ct {
        strip(s2, CharSel::Control)
    } else {
        s2
    };
    let s4 = if uw {
        strip(s3, CharSel::UnicodeWs)
    } else {
        s3
    };
    let s5 = if tr {
        rule_trailing(s4)
    } else {
        s4
    };
    let s6 = rule_customs(s5, customs);
    rule_blank_lines(s6)
}

pub proof fn lemma_rule_customs_preserves_no_char(s: Seq<char>, cs: Seq<char>, other: CharSel)
    requires
        no_char(s, other),
    ensures
        no_char(rule_customs(s, cs), other),
    decreases cs.len(),
{
    if cs.len() > 0 {
        lemma_strip_preserves_no_char(s, CharSel::Exact(cs[0]), other);
        lemma_rule_customs_preserves_no_char(
            strip(s, CharSel::Exact(cs[0])),
            cs.drop_first(),
            other,
        );
    }
}

pub proof fn lemma_rule_customs_no_char(s: Seq<char>, cs: Seq<char>)
    ensures
        forall|i: int|
            0 <= i < cs.len() ==> no_char(rule_customs(s, cs), CharSel::Exact(#[trigger] cs[i])),
    decreases cs.len(),
{
    if cs.len() > 0 {
        let stripped = strip(s, CharSel::Exact(cs[0]));
        lemma_rule_customs_no_char(stripped, cs.drop_first());
        assert forall|i: int| 0 <= i < cs.len() implies no_char(
            rule_customs(s, cs),
            CharSel::Exact(#[trigger] cs[i]),
        ) by {
            if i == 0 {
                lemma_strip_no_char(s, CharSel::Exact(cs[0]));
                lemma_rule_customs_preserves_no_char(
                    stripped,
                    cs.drop_first(),
                    CharSel::Exact(cs[0]),
                );
            } else {
                assert(cs.drop_first()[i - 1] == cs[i]);
            }
        }
    }
}

pub proof fn lemma_rule_customs_id(s: Seq<char>, cs: Seq<char>)
    requires
        forall|i: int| 0 <= i < cs.len() ==> no_char(s, CharSel::Exact(#[trigger] cs[i])),
    ensures
        rule_customs(s, cs) == s,
    decreases cs.len(),
{
    if cs.len() > 0 {
        lemma_strip_id(s, CharSel::Exact(cs[0]));
        assert forall|i: int| 0 <= i < cs.drop_first().len() implies no_char(
            s,
            CharSel::Exact(#[trigger] cs.drop_first()[i]),
        ) by {
            assert(cs.drop_first()[i] == cs[i + 1]);
        }
        lemma_rule_customs_id(s, cs.drop_first());
    }
}

/// A text without newlines keeps having none through the
/// whitespace-only-line rule: it is its own single line, and joining one
/// line inserts nothing.
pub proof fn lemma_rule_blank_preserves_no_newline(s: Seq<char>)
    requires
        no_char(s, CharSel::Exact('\n')),
    ensures
        no_char(rule_blank_lines(s), CharSel::Exact('\n')),
{
    assert(!s.contains('\n')) by {
        if s.contains('\n') {
            let i = choose|i: int| 0 <= i < s.len() && s[i] == '\n';
            assert(false);
        }
    }
    lemma_split_single(s);
    let mapped = split_lines(s).map_values(|l: Seq<char>| blank_to_empty(l));
    assert(mapped =~= seq![blank_to_empty(s)]);
    assert(join_lines(mapped) == blank_to_empty(s));
    if is_blank(s) {
        assert(no_char(Seq::<char>::empty(), CharSel::Exact('\n')));
    }
}

pub fn strip_chars(v: &Vec<char>, sel: CharSel) -> (out: Vec<char>)
    ensures
        out@ == strip(v@, sel),
{
    let mut out: Vec<char> = Vec::new();
    let mut i: usize = 0;
    while i < v.len()
        invariant
            i <= v.len(),
            out@ == strip(v@.take(i as int), sel),
        decreases v.len() - i,
    {
        let c = v[i];
        proof {
            assert(v@.take(i + 1).drop_last() =~= v@.take(i as int));
            assert(v@.take(i + 1).last() == v@[i as int]);
        }
        if !check_removes(sel, c) {
            out.push(c);
            assert(out@ =~= strip(v@.take(i + 1), sel));
        } else {
            assert(out@ =~= strip(v@.take(i + 1), sel));
        }
        i = i + 1;
    }
    assert(v@.take(v@.len() as int) =~= v@);
    out
}

pub fn to_space_chars(v: &Vec<char>) -> (out: Vec<char>)
    ensures
        out@ == to_space(v@),
{
    let mut out: Vec<char> = Vec::new();
    let mut i: usize = 0;
    while i < v.len()
        invariant
            i <= v.len(),
            out@ == to_space(v@.take(i as int)),
        decreases v.len() - i,
    {
        let c = v[i];
        proof {
            assert(v@.take(i + 1).drop_last() =~= v@.take(i as int));
            assert(v@.take(i + 1).last() == v@[i as int]);
        }
        if c == '\u{00A0}' {
            out.push(' ');
        } else {
            out.push(c);
        }
        i = i + 1;
    }
    assert(v@.take(v@.len() as int) =~= v@);
    out
}

pub fn trim_end_chars(l: &Vec<char>) -> (out: Vec<char>)
    ensures
        out@ == trim_end_spec(l@),
{
    let mut n: usize = l.len();
    proof {
        assert(l@.take(l@.len() as int) =~= l@);
    }
    while n > 0 && crate::chars::check_unicode_whitespace(l[n - 1])
        invariant
            n <= l.len(),
            trim_end_spec(l@) == trim_end_spec(l@.take(n as int)),
        decreases n,
    {
        proof {
            assert(l@.take(n as int).drop_last() =~= l@.take(n - 1));
            assert(l@.take(n as int).last() == l@[n - 1]);
        }
        n = n - 1;
    }
    let mut out: Vec<char> = Vec::new();
    let mut i: usize = 0;
    while i < n
        invariant
            i <= n <= l.len(),
            out@ == l@.take(n as int).take(i as int),
        decreases n - i,
    {
        out.push(l[i]);
        assert(l@.take(n as int).take(i + 1) =~= l@.take(n as int).take(i as int).push(
            l@[i as int],
        ));
        i = i + 1;
    }
    proof {
        assert(out@ =~= l@.take(n as int));
        if n == l.len() {
            assert(l@.take(n as int) =~= l@);
        }
        assert(trim_end_spec(l@.take(n as int)) == l@.take(n as int));
    }
    out
}

pub fn is_blank_chars(l: &Vec<char>) -> (b: bool)
    ensures
        b == is_blank(l@),
{
    let mut i: usize = 0;
    while i < l.len()
        invariant
            i <= l.len(),
            forall|k: int| 0 <= k < i ==> is_unicode_whitespace(#[trigger] l@[k]),
        decreases l.len() - i,
    {
        if !crate::chars::check_unicode_whitespace(l[i]) {
            return false;
        }
        i = i + 1;
    }
    true
}

pub fn split_chars(v: &Vec<char>) -> (out: Vec<Vec<char>>)
    ensures
        out.deep_view() == split_lines(v@),
{
    let mut done: Vec<Vec<char>> = Vec::new();
    let mut cur: Vec<char> = Vec::new();
    let mut i: usize = 0;
    proof {
        lemma_split_lines_len(v@);
        assert(v@.skip(0) =~= v@);
        assert(done.deep_view() =~= Seq::<Seq<char>>::empty());
        assert(split_lines(v@) =~= done.deep_view() + seq![cur@ + split_lines(v@.skip(0))[0]]
            + split_lines(v@.skip(0)).drop_first());
    }
    while i < v.len()
        invariant
            i <= v.len(),
            split_lines(v@) == done.deep_view() + seq![cur@ + split_lines(v@.skip(i as int))[0]]
                + split_lines(v@.skip(i as int)).drop_first(),
        decreases v.len() - i,
    {
        let c = v[i];
        proof {
            assert(v@.skip(i as int).len() > 0);
            assert(v@.skip(i as int)[0] == v@[i as int]);
            assert(v@.skip(i as int).drop_first() =~= v@.skip(i + 1));
            lemma_split_lines_len(v@.skip(i + 1));
        }
        if c == '\n' {
            let ghost old_done = done.deep_view();
            let ghost old_cur = cur@;
            done.push(cur);
            cur = Vec::new();
            proof {
                assert(done.deep_view() =~~= old_done.push(old_cur));
                let r = split_lines(v@.skip(i + 1));
                assert(split_lines(v@.skip(i as int)) =~= seq![Seq::<char>::empty()] + r);
                assert(split_lines(v@.skip(i as int))[0] =~= Seq::<char>::empty());
                assert(split_lines(v@.skip(i as int)).drop_first() =~= r);
                assert(old_cur + split_lines(v@.skip(i as int))[0] =~= old_cur);
                assert(old_done + seq![old_cur] + r =~= done.deep_view() + seq![cur@ + r[0]]
                    + r.drop_first());
                assert(split_lines(v@) =~= done.deep_view() + seq![cur@ + split_lines(
                    v@.skip(i + 1),
                )[0]] + split_lines(v@.skip(i + 1)).drop_first());
            }
        } else {
            let ghost old_cur = cur@;
            cur.push(c);
            proof {
                let r = split_lines(v@.skip(i + 1));
                assert(split_lines(v@.skip(i as int)) =~= seq![seq![v@[i as int]] + r[0]]
                    + r.drop_first());
                assert(split_lines(v@.skip(i as int))[0] =~= seq![v@[i as int]] + r[0]);
                assert(split_lines(v@.skip(i as int)).drop_first() =~= r.drop_first());
                assert(old_cur + (seq![v@[i as int]] + r[0]) =~= cur@ + r[0]);
                assert(split_lines(v@) =~= done.deep_view() + seq![cur@ + split_lines(
                    v@.skip(i + 1),
                )[0]] + split_lines(v@.skip(i + 1)).drop_first());
            }
        }
        i = i + 1;
    }
    let ghost old_done = done.deep_view();
    let ghost old_cur = cur@;
    done.push(cur);
    proof {
        assert(v@.skip(v@.len() as int) =~= Seq::<char>::empty());
        assert(split_lines(v@.skip(v@.len() as int)) =~= seq![Seq::<char>::empty()]);
        assert(old_cur + split_lines(v@.skip(v@.len() as int))[0] =~= old_cur);
        assert(done.deep_view() =~~= old_done.push(old_cur));
        assert(split_lines(v@) =~= done.deep_view());
    }
    done
}

pub proof fn lemma_join_push(ls: Seq<Seq<char>>, x: Seq<char>)
    ensures
        join_lines(ls.push(x)) == if ls.len() == 0 {
            x
        } else {
            join_lines(ls) + seq!['\n'] + x
        },
    decreases ls.len(),
{
    if ls.len() == 0 {
        assert(ls.push(x).len() == 1);
        assert(join_lines(ls.push(x)) == ls.push(x)[0]);
    } else if ls.len() == 1 {
        let p = ls.push(x);
        assert(p.len() == 2);
        assert(p.drop_first() =~= seq![x]);
        assert(join_lines(p) == p[0] + seq!['\n'] + join_lines(seq![x]));
        assert(join_lines(seq![x]) == x);
        assert(p[0] == ls[0]);
        assert(join_lines(ls) == ls[0]);
    } else {
        lemma_join_push(ls.drop_first(), x);
        let p = ls.push(x);
        assert(p.len() >= 3);
        assert(p.drop_first() =~= ls.drop_first().push(x));
        assert(join_lines(p) == p[0] + seq!['\n'] + join_lines(ls.drop_first().push(x)));
        assert(join_lines(ls) == ls[0] + seq!['\n'] + join_lines(ls.drop_first()));
        assert(join_lines(p) =~= join_lines(ls) + seq!['\n'] + x);
    }
}

pub fn join_chars(ls: &Vec<Vec<char>>) -> (out: Vec<char>)
    ensures
        out@ == join_lines(ls.deep_view()),
{
    let mut out: Vec<char> = Vec::new();
    let mut j: usize = 0;
    proof {
        assert(ls.deep_view().take(0) =~= Seq::<Seq<char>>::empty());
    }
    while j < ls.len()
        invariant
            j <= ls.len(),
            out@ == join_lines(ls.deep_view().take(j as int)),
        decreases ls.len() - j,
    {
        if j > 0 {
            out.push('\n');
        }
        let line = &ls[j];
        let mut k: usize = 0;
        let ghost base = out@;
        while k < line.len()
            invariant
                k <= line.len(),
                out@ == base + line@.take(k as int),
            decreases line.len() - k,
        {
            out.push(line[k]);
            assert(line@.take(k + 1) =~= line@.take(k as int).push(line@[k as int]));
            k = k + 1;
        }
        proof {
            assert(line@.take(line@.len() as int) =~= line@);
            assert(ls.deep_view().take(j + 1) =~= ls.deep_view().take(j as int).push(
                ls.deep_view()[j as int],
            ));
            lemma_join_push(ls.deep_view().take(j as int), ls.deep_view()[j as int]);
            assert(ls.deep_view()[j as int] =~= line@);
            if j == 0 {
                assert(out@ =~= join_lines(ls.deep_view().take(j + 1)));
            } else {
                assert(out@ =~= join_lines(ls.deep_view().take(j + 1)));
            }
        }
        j = j + 1;
    }
    proof {
        assert(ls.deep_view().take(ls.deep_view().len() as int) =~= ls.deep_view());
    }
    out
}

} // verus!

