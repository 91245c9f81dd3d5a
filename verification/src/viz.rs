//! Rendering invisible characters visibly: the line visualizer and the
//! line-aligned diff report. Purely a reporting surface, reproducible from
//! the original and cleaned text alone.

use vstd::prelude::*;
use crate::chars::{is_unicode_whitespace, is_control_char};
use crate::text::{trim_end_spec, is_blank, split_lines};

verus! {

pub open spec fn hex_digit_char(d: nat) -> char {
    if d == 0 {
        '0'
    } else if d == 1 {
        '1'
    } else if d == 2 {
        '2'
    } else if d == 3 {
        '3'
    } else if d == 4 {
        '4'
    } else if d == 5 {
        '5'
    } else if d == 6 {
        '6'
    } else if d == 7 {
        '7'
    } else if d == 8 {
        '8'
    } else if d == 9 {
        '9'
    } else if d == 10 {
        'A'
    } else if d == 11 {
        'B'
    } else if d == 12 {
        'C'
    } else if d == 13 {
        'D'
    } else if d == 14 {
        'E'
    } else {
        'F'
    }
}

/// The hexadecimal digits of the value, most significant first.
pub open spec fn hex_rep(n: nat) -> Seq<char>
    decreases n,
{
    if n < 16 {
        seq![hex_digit_char(n)]
    } else {
        hex_rep(n / 16).push(hex_digit_char(n % 16))
    }
}

/// The value in upper-case hex, zero-padded to at least four digits.
pub open spec fn hex4(n: nat) -> Seq<char> {
    if hex_rep(n).len() >= 4 {
        hex_rep(n)
    } else {
        Seq::new((4 - hex_rep(n).len()) as nat, |i: int| '0') + hex_rep(n)
    }
}

/// The short tag used in whitespace-only and trailing listings.
pub open spec fn short_tag(c: char) -> Seq<char> {
    if c == ' ' {
        seq!['S', 'P']
    } else if c == '\t' {
        seq!['T', 'A', 'B']
    } else if c == '\u{00A0}' {
        seq!['N', 'B', 'S', 'P']
    } else if is_unicode_whitespace(c) {
        seq!['W', 'S', ':', 'U', '+'] + hex4((c as u32) as nat)
    } else {
        seq!['U', '+'] + hex4((c as u32) as nat)
    }
}

/// The inline rendering of one character in ordinary line content.
pub open spec fn inline_tag(c: char) -> Seq<char> {
    if c == '\u{200B}' {
        seq!['\u{2983}', 'Z', 'W', 'S', '\u{2984}']
    } else if c == '\u{200C}' {
        seq!['\u{2983}', 'Z', 'W', 'N', 'J', '\u{2984}']
    } else if c == '\u{200D}' {
        seq!['\u{2983}', 'Z', 'W', 'J', '\u{2984}']
    } else if c == '\u{FEFF}' {
        seq!['\u{2983}', 'B', 'O', 'M', '\u{2984}']
    } else if c == '\u{00A0}' {
        seq!['\u{2983}', 'N', 'B', 'S', 'P', '\u{2984}']
    } else if c == '\t' {
        seq!['\u{2983}', 'T', 'A', 'B', '\u{2984}']
    } else if c == ' ' {
        seq![' ']
    } else if is_control_char(c) && c != '\n' && c != '\r' {
        seq!['\u{2983}', 'U', '+'] + hex4((c as u32) as nat) + seq!['\u{2984}']
    } else if is_unicode_whitespace(c) && c != ' ' && c != '\n' && c != '\r' && c != '\t' {
        seq!['\u{2983}', 'W', 'S', ':', 'U', '+'] + hex4((c as u32) as nat) + seq!['\u{2984}']
    } else {
        seq![c]
    }
}

/// Short tags joined with `'+'` between each pair.
pub open spec fn join_plus(parts: Seq<Seq<char>>) -> Seq<char>
    decreases parts.len(),
{
    if parts.len() == 0 {
        Seq::<char>::empty()
    } else if parts.len() == 1 {
        parts[0]
    } else {
        join_plus(parts.drop_last()) + seq!['+'] + parts.last()
    }
}

/// The inline tags of every character, concatenated.
pub open spec fn concat_tags(l: Seq<char>) -> Seq<char>
    decreases l.len(),
{
    if l.len() == 0 {
        Seq::<char>::empty()
    } else {
        concat_tags(l.drop_last()) + inline_tag(l.last())
    }
}

pub open spec fn ws_only_open() -> Seq<char> {
    seq![
        '\u{2983}', 'W', 'H', 'I', 'T', 'E', 'S', 'P', 'A', 'C', 'E', '-', 'O', 'N', 'L',
        'Y', ':', ' ',
    ]
}

pub open spec fn empty_marker() -> Seq<char> {
    seq!['\u{2983}', 'E', 'M', 'P', 'T', 'Y', '\u{2984}']
}

pub open spec fn trailing_open() -> Seq<char> {
    seq!['\u{2983}', 'T', 'R', 'A', 'I', 'L', 'I', 'N', 'G', ':', ' ']
}

/// The rendering of one raw line. A non-empty line of pure whitespace is
/// listed character by character inside a whitespace-only marker; an empty
/// line gets its own marker; a line with trailing whitespace is shown as its
/// trimmed text followed by the trailing characters listed with short tags;
/// any other line has each character rendered inline.
pub open spec fn viz_line(l: Seq<char>) -> Seq<char> {
    if is_blank(l) && l.len() > 0 {
        ws_only_open() + join_plus(l.map_values(|c: char| short_tag(c))) + seq!['\u{2984}']
    } else if l.len() == 0 {
        empty_marker()
    } else if trim_end_spec(l).len() != l.len() {
        trim_end_spec(l) + trailing_open() + join_plus(
            l.skip(trim_end_spec(l).len() as int).map_values(|c: char| short_tag(c)),
        ) + seq!['\u{2984}']
    } else {
        concat_tags(l)
    }
}

fn hex_digit_exec(d: u32) -> (c: char)
    requires
        d < 16,
    ensures
        c == hex_digit_char(d as nat),
{
    if d == 0 {
        '0'
    } else if d == 1 {
        '1'
    } else if d == 2 {
        '2'
    } else if d == 3 {
        '3'
    } else if d == 4 {
        '4'
    } else if d == 5 {
        '5'
    } else if d == 6 {
        '6'
    } else if d == 7 {
        '7'
    } else if d == 8 {
        '8'
    } else if d == 9 {
        '9'
    } else if d == 10 {
        'A'
    } else if d == 11 {
        'B'
    } else if d == 12 {
        'C'
    } else if d == 13 {
        'D'
    } else if d == 14 {
        'E'
    } else {
        'F'
    }
}

fn hex_rep_chars(u: u32) -> (r: Vec<char>)
    ensures
        r@ == hex_rep(u as nat),
    decreases u,
{
    if u < 16 {
        let mut r: Vec<char> = Vec::new();
        r.push(hex_digit_exec(u));
        proof {
            assert(r@ =~= hex_rep(u as nat));
        }
        r
    } else {
        let mut r = hex_rep_chars(u / 16);
        r.push(hex_digit_exec(u % 16));
        proof {
            assert((u / 16) as nat == (u as nat) / 16);
            assert((u % 16) as nat == (u as nat) % 16);
        }
        r
    }
}

fn hex4_chars(u: u32) -> (r: Vec<char>)
    ensures
        r@ == hex4(u as nat),
{
    let digits = hex_rep_chars(u);
    if digits.len() >= 4 {
        digits
    } else {
        let mut r: Vec<char> = Vec::new();
        let pad = 4 - digits.len();
        let mut i: usize = 0;
        while i < pad
            invariant
                i <= pad,
                r@ =~= Seq::new(i as nat, |k: int| '0'),
            decreases pad - i,
        {
            r.push('0');
            proof {
                assert(r@ =~= Seq::new((i + 1) as nat, |k: int| '0'));
            }
            i = i + 1;
        }
        let mut j: usize = 0;
        let ghost base = r@;
        while j < digits.len()
            invariant
                j <= digits.len(),
                r@ == base + digits@.take(j as int),
            decreases digits.len() - j,
        {
            r.push(digits[j]);
            assert(digits@.take(j + 1) =~= digits@.take(j as int).push(digits@[j as int]));
            j = j + 1;
        }
        proof {
            assert(digits@.take(digits@.len() as int) =~= digits@);
            assert(r@ =~= hex4(u as nat));
        }
        r
    }
}

fn append_chars(out: &mut Vec<char>, other: &Vec<char>)
    ensures
        final(out)@ == old(out)@ + other@,
{
    let mut i: usize = 0;
    while i < other.len()
        invariant
            i <= other.len(),
            out@ == old(out)@ + other@.take(i as int),
        decreases other.len() - i,
    {
        out.push(other[i]);
        assert(other@.take(i + 1) =~= other@.take(i as int).push(other@[i as int]));
        i = i + 1;
    }
    proof {
        assert(other@.take(other@.len() as int) =~= other@);
    }
}

fn short_tag_chars(c: char) -> (r: Vec<char>)
    ensures
        r@ == short_tag(c),
{
    let mut r: Vec<char> = Vec::new();
    if c == ' ' {
        r.push('S');
        r.push('P');
        proof {
            assert(r@ =~= short_tag(c));
        }
    } else if c == '\t' {
        r.push('T');
        r.push('A');
        r.push('B');
        proof {
            assert(r@ =~= short_tag(c));
        }
    } else if c == '\u{00A0}' {
        r.push('N');
        r.push('B');
        r.push('S');
        r.push('P');
        proof {
            assert(r@ =~= short_tag(c));
        }
    } else if crate::chars::check_unicode_whitespace(c) {
        r.push('W');
        r.push('S');
        r.push(':');
        r.push('U');
        r.push('+');
        let h = hex4_chars(c as u32);
        append_chars(&mut r, &h);
        proof {
            assert(r@ =~= short_tag(c));
        }
    } else {
        r.push('U');
        r.push('+');
        let h = hex4_chars(c as u32);
        append_chars(&mut r, &h);
        proof {
            assert(r@ =~= short_tag(c));
        }
    }
    r
}

fn inline_tag_chars(c: char) -> (r: Vec<char>)
    ensures
        r@ == inline_tag(c),
{
    let mut r: Vec<char> = Vec::new();
    if c == '\u{200B}' {
        r.push('\u{2983}');
        r.push('Z');
        r.push('W');
        r.push('S');
        r.push('\u{2984}');
        proof {
            assert(r@ =~= inline_tag(c));
        }
    } else if c == '\u{200C}' {
        r.push('\u{2983}');
        r.push('Z');
        r.push('W');
        r.push('N');
        r.push('J');
        r.push('\u{2984}');
        proof {
            assert(r@ =~= inline_tag(c));
        }
    } else if c == '\u{200D}' {
        r.push('\u{2983}');
        r.push('Z');
        r.push('W');
        r.push('J');
        r.push('\u{2984}');
        proof {
            assert(r@ =~= inline_tag(c));
        }
    } else if c == '\u{FEFF}' {
        r.push('\u{2983}');
        r.push('B');
        r.push('O');
        r.push('M');
        r.push('\u{2984}');
        proof {
            assert(r@ =~= inline_tag(c));
        }
    } else if c == '\u{00A0}' {
        r.push('\u{2983}');
        r.push('N');
        r.push('B');
        r.push('S');
        r.push('P');
        r.push('\u{2984}');
        proof {
            assert(r@ =~= inline_tag(c));
        }
    } else if c == '\t' {
        r.push('\u{2983}');
        r.push('T');
        r.push('A');
        r.push('B');
        r.push('\u{2984}');
        proof {
            assert(r@ =~= inline_tag(c));
        }
    } else if c == ' ' {
        r.push(' ');
        proof {
            assert(r@ =~= inline_tag(c));
        }
    } else if crate::chars::check_control_char(c) && c != '\n' && c != '\r' {
        r.push('\u{2983}');
        r.push('U');
        r.push('+');
        let h = hex4_chars(c as u32);
        append_chars(&mut r, &h);
        r.push('\u{2984}');
        proof {
            assert(r@ =~= inline_tag(c));
        }
    } else if crate::chars::check_unicode_whitespace(c) && c != ' ' && c != '\n' && c != '\r'
        && c != '\t' {
        r.push('\u{2983}');
        r.push('W');
        r.push('S');
        r.push(':');
        r.push('U');
        r.push('+');
        let h = hex4_chars(c as u32);
        append_chars(&mut r, &h);
        r.push('\u{2984}');
        proof {
            assert(r@ =~= inline_tag(c));
        }
    } else {
        r.push(c);
        proof {
            assert(r@ =~= inline_tag(c));
        }
    }
    r
}

/// Appends the short tags of `l[from..]`, joined with `'+'`.
fn append_short_tag_list(out: &mut Vec<char>, l: &Vec<char>, from: usize)
    requires
        from <= l@.len(),
    ensures
        final(out)@ == old(out)@ + join_plus(
            l@.skip(from as int).map_values(|c: char| short_tag(c)),
        ),
{
    let ghost part = l@.skip(from as int);
    let mut i: usize = from;
    proof {
        assert(part.take(0).map_values(|c: char| short_tag(c)) =~= Seq::<Seq<char>>::empty());
    }
    while i < l.len()
        invariant
            from <= i <= l@.len(),
            part == l@.skip(from as int),
            out@ == old(out)@ + join_plus(
                part.take(i - from).map_values(|c: char| short_tag(c)),
            ),
        decreases l@.len() - i,
    {
        if i > from {
            out.push('+');
        }
        let tag = short_tag_chars(l[i]);
        append_chars(out, &tag);
        proof {
            let f = |c: char| short_tag(c);
            assert(part.take(i - from + 1).map_values(f) =~= part.take(i - from).map_values(
                f,
            ).push(short_tag(part[i - from])));
            assert(part[i - from] == l@[i as int]);
            let mapped = part.take(i - from + 1).map_values(f);
            assert(mapped.drop_last() =~= part.take(i - from).map_values(f));
            assert(mapped.last() == short_tag(l@[i as int]));
        }
        i = i + 1;
    }
    proof {
        assert(part.take(l@.len() - from) =~= part);
    }
}

/// The visualization of one raw line, over characters.
pub fn viz_line_chars(l: &Vec<char>) -> (out: Vec<char>)
    ensures
        out@ == viz_line(l@),
{
    if is_blank_and_nonempty(l) {
        let mut out: Vec<char> = Vec::new();
        out.push('\u{2983}');
        out.push('W');
        out.push('H');
        out.push('I');
        out.push('T');
        out.push('E');
        out.push('S');
        out.push('P');
        out.push('A');
        out.push('C');
        out.push('E');
        out.push('-');
        out.push('O');
        out.push('N');
        out.push('L');
        out.push('Y');
        out.push(':');
        out.push(' ');
        proof {
            assert(out@ =~= ws_only_open());
            assert(l@.skip(0) =~= l@);
        }
        append_short_tag_list(&mut out, l, 0);
        out.push('\u{2984}');
        proof {
            assert(out@ =~= viz_line(l@));
        }
        out
    } else if l.len() == 0 {
        let mut out: Vec<char> = Vec::new();
        out.push('\u{2983}');
        out.push('E');
        out.push('M');
        out.push('P');
        out.push('T');
        out.push('Y');
        out.push('\u{2984}');
        proof {
            assert(out@ =~= empty_marker());
            assert(out@ =~= viz_line(l@));
        }
        out
    } else {
        let trimmed = crate::text::trim_end_chars(l);
        if trimmed.len() != l.len() {
            let tlen = trimmed.len();
            let mut out = trimmed;
            out.push('\u{2983}');
            out.push('T');
            out.push('R');
            out.push('A');
            out.push('I');
            out.push('L');
            out.push('I');
            out.push('N');
            out.push('G');
            out.push(':');
            out.push(' ');
            proof {
                assert(out@ =~= trim_end_spec(l@) + trailing_open());
                crate::text::lemma_trim_end_no_trailing(l@);
            }
            append_short_tag_list(&mut out, l, tlen);
            out.push('\u{2984}');
            proof {
                assert(out@ =~= viz_line(l@));
            }
            out
        } else {
            let mut out: Vec<char> = Vec::new();
            let mut i: usize = 0;
            proof {
                assert(l@.take(0) =~= Seq::<char>::empty());
            }
            while i < l.len()
                invariant
                    i <= l@.len(),
                    out@ == concat_tags(l@.take(i as int)),
                decreases l@.len() - i,
            {
                let tag = inline_tag_chars(l[i]);
                append_chars(&mut out, &tag);
                proof {
                    assert(l@.take(i + 1).drop_last() =~= l@.take(i as int));
                    assert(l@.take(i + 1).last() == l@[i as int]);
                }
                i = i + 1;
            }
            proof {
                assert(l@.take(l@.len() as int) =~= l@);
            }
            out
        }
    }
}

fn is_blank_and_nonempty(l: &Vec<char>) -> (b: bool)
    ensures
        b == (is_blank(l@) && l@.len() > 0),
{
    l.len() > 0 && crate::text::is_blank_chars(l)
}

/// One differing line of the diff report: the index and the two renderings.
pub struct DiffLine {
    pub index: usize,
    pub original: String,
    pub cleaned: String,
}

/// The line of the sequence at the index, or the empty line past the end.
pub open spec fn line_at(ls: Seq<Seq<char>>, i: int) -> Seq<char> {
    if 0 <= i < ls.len() {
        ls[i]
    } else {
        Seq::<char>::empty()
    }
}

/// The report entries for line indices below `n`: one per index where the
/// two sides differ, in order, each with both lines rendered.
pub open spec fn diff_upto(lo: Seq<Seq<char>>, lc: Seq<Seq<char>>, n: int) -> Seq<
    (int, Seq<char>, Seq<char>),
>
    decreases n,
{
    if n <= 0 {
        Seq::<(int, Seq<char>, Seq<char>)>::empty()
    } else {
        diff_upto(lo, lc, n - 1) + (if line_at(lo, n - 1) != line_at(lc, n - 1) {
            seq![(n - 1, viz_line(line_at(lo, n - 1)), viz_line(line_at(lc, n - 1)))]
        } else {
            Seq::<(int, Seq<char>, Seq<char>)>::empty()
        })
    }
}

/// The full report: indices up to the longer side's line count.
pub open spec fn diff_report_spec(o: Seq<char>, c: Seq<char>) -> Seq<
    (int, Seq<char>, Seq<char>),
> {
    let lo = split_lines(o);
    let lc = split_lines(c);
    diff_upto(lo, lc, if lo.len() >= lc.len() {
        lo.len() as int
    } else {
        lc.len() as int
    })
}

fn chars_eq(a: &Vec<char>, b: &Vec<char>) -> (r: bool)
    ensures
        r == (a@ == b@),
{
    if a.len() != b.len() {
        proof {
            assert(a@ != b@);
        }
        return false;
    }
    let mut i: usize = 0;
    while i < a.len()
        invariant
            i <= a@.len(),
            a@.len() == b@.len(),
            forall|k: int| 0 <= k < i ==> a@[k] == b@[k],
        decreases a@.len() - i,
    {
        if a[i] != b[i] {
            return false;
        }
        i = i + 1;
    }
    proof {
        assert(a@ =~= b@);
    }
    true
}

/// The line-aligned diff of the original and cleaned text: for every index
/// where they differ, the rendered pair, a missing line counting as empty.
pub fn diff_report(original: &str, cleaned: &str) -> (r: Vec<DiffLine>)
    ensures
        r@.len() == diff_report_spec(original@, cleaned@).len(),
        forall|j: int|
            0 <= j < r@.len() ==> {
                &&& (#[trigger] r@[j]).index == diff_report_spec(original@, cleaned@)[j].0
                &&& r@[j].original@ == diff_report_spec(original@, cleaned@)[j].1
                &&& r@[j].cleaned@ == diff_report_spec(original@, cleaned@)[j].2
            },
{
    let vo = crate::strutil::chars_of_str(original);
    let vc = crate::strutil::chars_of_str(cleaned);
    let lo = crate::text::split_chars(&vo);
    let lc = crate::text::split_chars(&vc);
    let ghost glo = split_lines(original@);
    let ghost glc = split_lines(cleaned@);
    let max = if lo.len() >= lc.len() {
        lo.len()
    } else {
        lc.len()
    };
    let empty_line: Vec<char> = Vec::new();
    let mut r: Vec<DiffLine> = Vec::new();
    let mut i: usize = 0;
    while i < max
        invariant
            i <= max,
            lo.deep_view() == glo,
            lc.deep_view() == glc,
            max == (if glo.len() >= glc.len() {
                glo.len()
            } else {
                glc.len()
            }),
            lo@.len() == glo.len(),
            lc@.len() == glc.len(),
            empty_line@ == Seq::<char>::empty(),
            r@.len() == diff_upto(glo, glc, i as int).len(),
            forall|j: int|
                0 <= j < r@.len() ==> {
                    &&& (#[trigger] r@[j]).index == diff_upto(glo, glc, i as int)[j].0
                    &&& r@[j].original@ == diff_upto(glo, glc, i as int)[j].1
                    &&& r@[j].cleaned@ == diff_upto(glo, glc, i as int)[j].2
                },
        decreases max - i,
    {
        let a: &Vec<char> = if i < lo.len() {
            &lo[i]
        } else {
            &empty_line
        };
        let b: &Vec<char> = if i < lc.len() {
            &lc[i]
        } else {
            &empty_line
        };
        proof {
            if i < lo@.len() {
                assert(lo@[i as int]@ =~= lo.deep_view()[i as int]);
            }
            if i < lc@.len() {
                assert(lc@[i as int]@ =~= lc.deep_view()[i as int]);
            }
            assert(a@ == line_at(glo, i as int));
            assert(b@ == line_at(glc, i as int));
        }
        if !chars_eq(a, b) {
            let va = viz_line_chars(a);
            let vb = viz_line_chars(b);
            let entry = DiffLine {
                index: i,
                original: crate::strutil::string_from_chars(&va),
                cleaned: crate::strutil::string_from_chars(&vb),
            };
            let ghost old_r = r@;
            r.push(entry);
            proof {
                let d1 = diff_upto(glo, glc, i + 1);
                assert(d1 == diff_upto(glo, glc, i as int) + seq![
                    (i as int, viz_line(line_at(glo, i as int)), viz_line(
                        line_at(glc, i as int),
                    )),
                ]);
            }
        } else {
            proof {
                assert(diff_upto(glo, glc, i + 1) =~= diff_upto(glo, glc, i as int));
            }
        }
        i = i + 1;
    }
    r
}

} // verus!
