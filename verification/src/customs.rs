//! Parsing the user-given hex code points of the custom-character rule.
//!
//! An entry may carry any number of leading `U+` prefixes (each is stripped),
//! then an optional `+` sign, then hexadecimal digits. An entry that does not
//! parse, overflows 32 bits, or names a surrogate or out-of-range value is
//! silently ignored, as is an empty digit string.

use vstd::prelude::*;

verus! {

pub open spec fn is_hex_digit(c: char) -> bool {
    let u = c as u32;
    (0x30 <= u && u <= 0x39) || (0x41 <= u && u <= 0x46) || (0x61 <= u && u <= 0x66)
}

pub open spec fn hex_val(c: char) -> nat {
    let u = c as u32;
    if 0x30 <= u && u <= 0x39 {
        (u - 0x30) as nat
    } else if 0x41 <= u && u <= 0x46 {
        (u - 0x41 + 10) as nat
    } else if 0x61 <= u && u <= 0x66 {
        (u - 0x61 + 10) as nat
    } else {
        0
    }
}

pub open spec fn hex_value(s: Seq<char>) -> nat
    decreases s.len(),
{
    if s.len() == 0 {
        0
    } else {
        hex_value(s.drop_last()) * 16 + hex_val(s.last())
    }
}

/// The entry with every leading `U+` prefix removed.
pub open spec fn strip_uplus(s: Seq<char>) -> Seq<char>
    decreases s.len(),
{
    if s.len() >= 2 && s[0] == 'U' && s[1] == '+' {
        strip_uplus(s.skip(2))
    } else {
        s
    }
}

/// The digits after an optional single leading `+` sign.
pub open spec fn after_sign(s: Seq<char>) -> Seq<char> {
    if s.len() >= 1 && s[0] == '+' {
        s.drop_first()
    } else {
        s
    }
}

pub open spec fn digits_of(s: Seq<char>) -> Seq<char> {
    after_sign(strip_uplus(s))
}

/// The entry parses as a 32-bit value: at least one digit, all digits
/// hexadecimal, and the value within `u32`.
pub open spec fn parses_as_u32(s: Seq<char>) -> bool {
    let d = digits_of(s);
    d.len() >= 1 && (forall|i: int| 0 <= i < d.len() ==> is_hex_digit(#[trigger] d[i]))
        && hex_value(d) <= u32::MAX
}

/// The value is a Unicode scalar: not a surrogate and not beyond U+10FFFF.
pub open spec fn is_scalar_code(n: nat) -> bool {
    n < 0xD800 || (0xE000 <= n && n <= 0x10FFFF)
}

/// The character a custom entry names, if it names one.
pub open spec fn parse_custom(s: Seq<char>) -> Option<char> {
    if parses_as_u32(s) && is_scalar_code(hex_value(digits_of(s))) {
        Some((hex_value(digits_of(s)) as u32) as char)
    } else {
        None
    }
}

/// The code points of the entries that parse, in the order given.
pub open spec fn parsed_customs(entries: Seq<Seq<char>>) -> Seq<char>
    decreases entries.len(),
{
    if entries.len() == 0 {
        Seq::<char>::empty()
    } else {
        (match parse_custom(entries[0]) {
            Some(c) => seq![c],
            None => Seq::<char>::empty(),
        }) + parsed_customs(entries.drop_first())
    }
}

/// Relies on `char::from_u32`: `Some` exactly when the value is a Unicode
/// scalar (not a surrogate, at most U+10FFFF), and then the character with
/// that code point.
#[verifier::external_body]
fn char_from_u32(u: u32) -> (r: Option<char>)
    ensures
        r is Some <==> is_scalar_code(u as nat),
        r is Some ==> r->0 == u as char,
{
    char::from_u32(u)
}

pub fn check_hex_digit(c: char) -> (b: bool)
    ensures
        b == is_hex_digit(c),
{
    let u = c as u32;
    (0x30 <= u && u <= 0x39) || (0x41 <= u && u <= 0x46) || (0x61 <= u && u <= 0x66)
}

fn hex_digit_value(c: char) -> (n: u32)
    requires
        is_hex_digit(c),
    ensures
        n == hex_val(c),
{
    let u = c as u32;
    if u <= 0x39 {
        u - 0x30
    } else if u <= 0x46 {
        u - 0x41 + 10
    } else {
        u - 0x61 + 10
    }
}

proof fn lemma_hex_value_prefix_le(d: Seq<char>, i: int)
    requires
        0 <= i <= d.len(),
    ensures
        hex_value(d) >= hex_value(d.take(i)),
    decreases d.len() - i,
{
    if i < d.len() {
        lemma_hex_value_prefix_le(d, i + 1);
        assert(d.take(i + 1).drop_last() =~= d.take(i));
        assert(d.take(i + 1).last() == d[i]);
        assert(hex_value(d.take(i + 1)) == hex_value(d.take(i)) * 16 + hex_val(d[i]));
    } else {
        assert(d.take(i) =~= d);
    }
}

/// Parses one custom entry exactly as the configuration reader does.
pub fn parse_custom_entry(entry: &str) -> (r: Option<char>)
    ensures
        r == parse_custom(entry@),
{
    let v = crate::strutil::chars_of_str(entry);
    let n = v.len();
    let mut i: usize = 0;
    proof {
        assert(v@.skip(0) =~= v@);
    }
    while i < n && i + 1 < n && v[i] == 'U' && v[i + 1] == '+'
        invariant
            n == v@.len(),
            i <= n,
            v@ == entry@,
            strip_uplus(entry@) == strip_uplus(v@.skip(i as int)),
        decreases n - i,
    {
        proof {
            assert(v@.skip(i as int).len() >= 2);
            assert(v@.skip(i as int)[0] == 'U');
            assert(v@.skip(i as int)[1] == '+');
            assert(v@.skip(i as int).skip(2) =~= v@.skip(i + 2));
        }
        i = i + 2;
    }
    proof {
        assert(strip_uplus(v@.skip(i as int)) == v@.skip(i as int));
    }
    let mut j: usize = i;
    if j < n && v[j] == '+' {
        proof {
            assert(v@.skip(i as int)[0] == '+');
            assert(v@.skip(i as int).drop_first() =~= v@.skip(i + 1));
        }
        j = j + 1;
    }
    proof {
        assert(digits_of(entry@) =~= v@.skip(j as int));
    }
    let ghost d = v@.skip(j as int);
    if j == n {
        assert(!parses_as_u32(entry@));
        return None;
    }
    let mut acc: u64 = 0;
    let mut k: usize = j;
    while k < n
        invariant
            n == v@.len(),
            v@ == entry@,
            j <= k <= n,
            d == v@.skip(j as int),
            digits_of(entry@) == d,
            acc == hex_value(d.take(k - j)),
            acc <= u32::MAX,
            forall|m: int| 0 <= m < k - j ==> is_hex_digit(#[trigger] d[m]),
        decreases n - k,
    {
        let c = v[k];
        proof {
            assert(d[k - j] == v@[k as int]);
        }
        if !check_hex_digit(c) {
            assert(!is_hex_digit(d[k - j]));
            assert(!parses_as_u32(entry@));
            return None;
        }
        let dv = hex_digit_value(c);
        let next: u64 = acc * 16 + dv as u64;
        proof {
            assert(d.take(k - j + 1).drop_last() =~= d.take(k - j));
            assert(d.take(k - j + 1).last() == d[k - j]);
            assert(next == hex_value(d.take(k - j + 1)));
        }
        if next > 0xFFFF_FFFF {
            proof {
                lemma_hex_value_prefix_le(d, k - j + 1);
                assert(hex_value(d) > u32::MAX);
                assert(!parses_as_u32(entry@));
            }
            return None;
        }
        acc = next;
        k = k + 1;
    }
    proof {
        assert(d.take(n - j) =~= d);
        assert(d.len() >= 1);
        assert(parses_as_u32(entry@));
    }
    let code: u32 = acc as u32;
    let r = char_from_u32(code);
    proof {
        if r is Some {
            assert(r->0 == (hex_value(digits_of(entry@)) as u32) as char);
        }
    }
    r
}

/// The characters of all entries that parse, in order.
pub fn parse_custom_entries(entries: &Vec<String>) -> (out: Vec<char>)
    ensures
        out@ == parsed_customs(entries.deep_view()),
{
    let mut out: Vec<char> = Vec::new();
    let mut i: usize = 0;
    proof {
        assert(entries.deep_view().skip(0) =~= entries.deep_view());
    }
    while i < entries.len()
        invariant
            i <= entries.len(),
            out@ + parsed_customs(entries.deep_view().skip(i as int)) == parsed_customs(
                entries.deep_view(),
            ),
        decreases entries.len() - i,
    {
        let r = parse_custom_entry(entries[i].as_str());
        proof {
            let ev = entries.deep_view();
            assert(ev.skip(i as int).len() > 0);
            assert(ev.skip(i as int)[0] == entries@[i as int]@);
            assert(ev.skip(i as int).drop_first() =~= ev.skip(i + 1));
        }
        match r {
            Some(c) => {
                out.push(c);
                proof {
                    let ev = entries.deep_view();
                    assert(parsed_customs(ev.skip(i as int)) =~= seq![c] + parsed_customs(
                        ev.skip(i + 1),
                    ));
                    assert(out@ + parsed_customs(ev.skip(i + 1)) =~= parsed_customs(ev));
                }
            },
            None => {
                proof {
                    let ev = entries.deep_view();
                    assert(parsed_customs(ev.skip(i as int)) =~= parsed_customs(ev.skip(i + 1)));
                }
            },
        }
        i = i + 1;
    }
    proof {
        assert(entries.deep_view().skip(entries.deep_view().len() as int) =~= Seq::<
            Seq<char>,
        >::empty());
        assert(out@ =~= parsed_customs(entries.deep_view()));
    }
    out
}

} // verus!
