//! The byte length of text under UTF-8, and why cleaning never increases it.

use vstd::prelude::*;
use vstd::utf8::{encode_utf8, encode_scalar};
use crate::text::{CharSel, strip, to_space, trim_end_spec, blank_to_empty, split_lines,
    join_lines, rule_trailing, rule_blank_lines, rule_customs, clean_spec, lemma_join_split};

verus! {

/// How many bytes the character occupies in UTF-8.
pub open spec fn char_size(c: char) -> nat {
    encode_scalar(c as u32).len()
}

/// How many bytes the text occupies in UTF-8.
pub open spec fn byte_len(s: Seq<char>) -> nat {
    encode_utf8(s).len()
}

/// The number of bytes of the string, measured exactly.
pub fn byte_length(s: &str) -> (n: usize)
    ensures
        n == byte_len(s@),
{
    s.as_bytes().len()
}

pub proof fn lemma_byte_len_single(c: char)
    ensures
        byte_len(seq![c]) == char_size(c),
{
    let s = seq![c];
    assert(s.len() == 1);
    assert(s[0] == c);
    assert(s.drop_first() =~= Seq::<char>::empty());
    assert(encode_utf8(s.drop_first()).len() == 0);
    assert(encode_utf8(s) == encode_scalar(c as u32) + encode_utf8(s.drop_first()));
}

pub proof fn lemma_byte_len_concat(a: Seq<char>, b: Seq<char>)
    ensures
        byte_len(a + b) == byte_len(a) + byte_len(b),
    decreases a.len(),
{
    if a.len() == 0 {
        assert(a + b =~= b);
        assert(byte_len(a) == 0);
    } else {
        assert((a + b).len() > 0);
        assert((a + b)[0] == a[0]);
        assert((a + b).drop_first() =~= a.drop_first() + b);
        lemma_byte_len_concat(a.drop_first(), b);
    }
}

pub proof fn lemma_byte_len_last(s: Seq<char>)
    requires
        s.len() > 0,
    ensures
        byte_len(s) == byte_len(s.drop_last()) + char_size(s.last()),
{
    assert(s =~= s.drop_last() + seq![s.last()]);
    lemma_byte_len_concat(s.drop_last(), seq![s.last()]);
    lemma_byte_len_single(s.last());
}

pub proof fn lemma_strip_byte_le(s: Seq<char>, sel: CharSel)
    ensures
        byte_len(strip(s, sel)) <= byte_len(s),
    decreases s.len(),
{
    if s.len() > 0 {
        lemma_strip_byte_le(s.drop_last(), sel);
        lemma_byte_len_last(s);
        if crate::text::removes(sel, s.last()) {
            assert(strip(s, sel) =~= strip(s.drop_last(), sel));
        } else {
            lemma_byte_len_concat(strip(s.drop_last(), sel), seq![s.last()]);
            lemma_byte_len_single(s.last());
        }
    }
}

pub proof fn lemma_to_space_byte_le(s: Seq<char>)
    ensures
        byte_len(to_space(s)) <= byte_len(s),
    decreases s.len(),
{
    if s.len() > 0 {
        lemma_to_space_byte_le(s.drop_last());
        lemma_byte_len_last(s);
        let c = s.last();
        let r = if c == '\u{00A0}' {
            ' '
        } else {
            c
        };
        assert(to_space(s) == to_space(s.drop_last()).push(r));
        assert(to_space(s).len() > 0);
        assert(to_space(s).drop_last() =~= to_space(s.drop_last()));
        assert(to_space(s).last() == r);
        lemma_byte_len_last(to_space(s));
        if c == '\u{00A0}' {
            assert(char_size(' ') == 1);
            assert(char_size('\u{00A0}') == 2);
        }
    }
}

pub proof fn lemma_trim_end_byte_le(l: Seq<char>)
    ensures
        byte_len(trim_end_spec(l)) <= byte_len(l),
    decreases l.len(),
{
    if l.len() > 0 && crate::chars::is_unicode_whitespace(l.last()) {
        lemma_trim_end_byte_le(l.drop_last());
        lemma_byte_len_last(l);
    }
}

pub proof fn lemma_blank_to_empty_byte_le(l: Seq<char>)
    ensures
        byte_len(blank_to_empty(l)) <= byte_len(l),
{
    if crate::text::is_blank(l) {
        assert(byte_len(Seq::<char>::empty()) == 0);
    }
}

pub proof fn lemma_join_byte_le(ls: Seq<Seq<char>>, ms: Seq<Seq<char>>)
    requires
        ls.len() == ms.len(),
        forall|j: int| 0 <= j < ls.len() ==> byte_len(#[trigger] ms[j]) <= byte_len(ls[j]),
    ensures
        byte_len(join_lines(ms)) <= byte_len(join_lines(ls)),
    decreases ls.len(),
{
    if ls.len() == 0 {
    } else if ls.len() == 1 {
        assert(byte_len(ms[0]) <= byte_len(ls[0]));
    } else {
        assert forall|j: int| 0 <= j < ls.drop_first().len() implies byte_len(
            #[trigger] ms.drop_first()[j],
        ) <= byte_len(ls.drop_first()[j]) by {
            assert(ms.drop_first()[j] == ms[j + 1]);
            assert(ls.drop_first()[j] == ls[j + 1]);
        }
        lemma_join_byte_le(ls.drop_first(), ms.drop_first());
        lemma_byte_len_concat(ls[0] + seq!['\n'], join_lines(ls.drop_first()));
        lemma_byte_len_concat(ls[0], seq!['\n']);
        lemma_byte_len_concat(ms[0] + seq!['\n'], join_lines(ms.drop_first()));
        lemma_byte_len_concat(ms[0], seq!['\n']);
        assert(join_lines(ls) == ls[0] + seq!['\n'] + join_lines(ls.drop_first()));
        assert(join_lines(ms) == ms[0] + seq!['\n'] + join_lines(ms.drop_first()));
    }
}

pub proof fn lemma_rule_trailing_byte_le(s: Seq<char>)
    ensures
        byte_len(rule_trailing(s)) <= byte_len(s),
{
    let ls = split_lines(s);
    let ms = ls.map_values(|l: Seq<char>| trim_end_spec(l));
    assert forall|j: int| 0 <= j < ls.len() implies byte_len(#[trigger] ms[j]) <= byte_len(
        ls[j],
    ) by {
        assert(ms[j] == trim_end_spec(ls[j]));
        lemma_trim_end_byte_le(ls[j]);
    }
    lemma_join_byte_le(ls, ms);
    lemma_join_split(s);
}

pub proof fn lemma_rule_blank_byte_le(s: Seq<char>)
    ensures
        byte_len(rule_blank_lines(s)) <= byte_len(s),
{
    let ls = split_lines(s);
    let ms = ls.map_values(|l: Seq<char>| blank_to_empty(l));
    assert forall|j: int| 0 <= j < ls.len() implies byte_len(#[trigger] ms[j]) <= byte_len(
        ls[j],
    ) by {
        assert(ms[j] == blank_to_empty(ls[j]));
        lemma_blank_to_empty_byte_le(ls[j]);
    }
    lemma_join_byte_le(ls, ms);
    lemma_join_split(s);
}

pub proof fn lemma_rule_customs_byte_le(s: Seq<char>, cs: Seq<char>)
    ensures
        byte_len(rule_customs(s, cs)) <= byte_len(s),
    decreases cs.len(),
{
    if cs.len() > 0 {
        lemma_strip_byte_le(s, CharSel::Exact(cs[0]));
        lemma_rule_customs_byte_le(strip(s, CharSel::Exact(cs[0])), cs.drop_first());
    }
}

/// Cleaning never increases the byte length of the text.
pub proof fn lemma_clean_byte_le(
    s: Seq<char>,
    zw: bool,
    nb: bool,
    ct: bool,
    uw: bool,
    tr: bool,
    customs: Seq<char>,
)
    ensures
        byte_len(clean_spec(s, zw, nb, ct, uw, tr, customs)) <= byte_len(s),
{
    let s1 = if zw {
        strip(s, CharSel::ZeroWidth)
    } else {
        s
    };
    let s2 = if nb {
        to_space(s1)
    } else {
        s1
    };
    let s3 = if ct {
        strip(s2, CharSel::Control)
    } else {
        s2
    };
    let s4 = if uw {
        strip(s3, CharSel::UnicodeWs)
    } else {
        s3
    };
    let s5 = if tr {
        rule_trailing(s4)
    } else {
        s4
    };
    let s6 = rule_customs(s5, customs);
    if zw {
        lemma_strip_byte_le(s, CharSel::ZeroWidth);
    }
    if nb {
        lemma_to_space_byte_le(s1);
    }
    if ct {
        lemma_strip_byte_le(s2, CharSel::Control);
    }
    if uw {
        lemma_strip_byte_le(s3, CharSel::UnicodeWs);
    }
    if tr {
        lemma_rule_trailing_byte_le(s4);
    }
    lemma_rule_customs_byte_le(s5, customs);
    lemma_rule_blank_byte_le(s6);
}

} // verus!
