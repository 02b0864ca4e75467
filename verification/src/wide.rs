//! Wide texts as Windows hands them over: UTF-16 in buffers that are padded with NULs.
use crate::text::{before_first, lemma_before_first};
use vstd::prelude::*;

verus! {

/// Is this the code point of a character?
pub open spec fn is_scalar(i: u32) -> bool {
    i <= 0x10ffff && !(0xd800 <= i <= 0xdfff)
}

/// `char::from_u32`: the character with this code point, where there is one; the surrogates and
/// what is above `0x10ffff` are none.
pub assume_specification[ char::from_u32 ](i: u32) -> (r: Option<char>)
    ensures
        r is Some == is_scalar(i),
        r is Some ==> r->0 as u32 == i,
;

/// Is this the first half of a surrogate pair?
pub open spec fn is_high(u: u16) -> bool {
    0xd800 <= u <= 0xdbff
}

/// Is this the second half of a surrogate pair?
pub open spec fn is_low(u: u16) -> bool {
    0xdc00 <= u <= 0xdfff
}

/// The code point of a surrogate pair.
pub open spec fn pair_value(high: u16, low: u16) -> u32 {
    (0x10000 + (high - 0xd800) * 0x400 + (low - 0xdc00)) as u32
}

/// Does `s` start with a surrogate pair?
pub open spec fn starts_with_pair(s: Seq<u16>) -> bool {
    s.len() >= 2 && is_high(s[0]) && is_low(s[1])
}

/// The text that `s` encodes, with the replacement character for each surrogate without a
/// partner.
pub open spec fn utf16_text(s: Seq<u16>) -> Seq<char>
    decreases s.len(),
{
    if s.len() == 0 {
        seq![]
    } else if starts_with_pair(s) {
        seq![pair_value(s[0], s[1]) as char] + utf16_text(s.subrange(2, s.len() as int))
    } else if is_high(s[0]) || is_low(s[0]) {
        seq!['\u{fffd}'] + utf16_text(s.subrange(1, s.len() as int))
    } else {
        seq![s[0] as char] + utf16_text(s.subrange(1, s.len() as int))
    }
}

/// Has every surrogate in `s` a partner?
pub open spec fn utf16_well_formed(s: Seq<u16>) -> bool
    decreases s.len(),
{
    if s.len() == 0 {
        true
    } else if starts_with_pair(s) {
        utf16_well_formed(s.subrange(2, s.len() as int))
    } else {
        !is_high(s[0]) && !is_low(s[0]) && utf16_well_formed(s.subrange(1, s.len() as int))
    }
}

/// A decoded text.
#[derive(Debug)]
pub struct Decoded {
    /// The text, with replacement characters where the input was broken.
    pub text: String,
    /// Was the input well formed?
    pub well_formed: bool,
}

/// Decodes the units before the first NUL.
pub fn decode_wide(units: &[u16]) -> (r: Decoded)
    ensures
        r.text@ == utf16_text(before_first(units@, 0)),
        r.well_formed == utf16_well_formed(before_first(units@, 0)),
{
    let mut n: usize = 0;
    while n < units.len() && units[n] != 0
        invariant
            n <= units@.len(),
            forall|i: int| 0 <= i < n ==> units@[i] != 0,
        decreases units@.len() - n,
    {
        n = n + 1;
    }
    let ghost s = units@.subrange(0, n as int);
    proof {
        lemma_before_first(units@, 0, n as int);
    }
    let mut text = String::new();
    let mut well_formed = true;
    let mut i: usize = 0;
    assert(s.subrange(0, n as int) =~= s);
    assert(text@ + utf16_text(s) =~= utf16_text(s));
    while i < n
        invariant
            i <= n <= units@.len(),
            s == units@.subrange(0, n as int),
            text@ + utf16_text(s.subrange(i as int, n as int)) == utf16_text(s),
            (well_formed && utf16_well_formed(s.subrange(i as int, n as int)))
                == utf16_well_formed(s),
        decreases n - i,
    {
        let u: u32 = units[i] as u32;
        let ghost here = s.subrange(i as int, n as int);
        let ghost before = text@;
        assert(here[0] == units@[i as int]);
        assert(here.subrange(1, here.len() as int) =~= s.subrange(i + 1, n as int));
        if 0xd800 <= u && u <= 0xdbff && i + 1 < n && 0xdc00 <= units[i + 1] && units[i + 1]
            <= 0xdfff {
            assert(here[1] == units@[i + 1]);
            assert(starts_with_pair(here));
            assert(here.subrange(2, here.len() as int) =~= s.subrange(i + 2, n as int));
            let low: u32 = units[i + 1] as u32;
            let value: u32 = 0x10000 + (u - 0xd800) * 0x400 + (low - 0xdc00);
            let c = match char::from_u32(value) {
                Some(c) => c,
                None => '\u{fffd}',
            };
            text.push(c);
            proof {
                vstd::utf8::char_u32_cast(c, value);
            }
            assert(c == pair_value(here[0], here[1]) as char);
            i = i + 2;
            assert(text@ + utf16_text(s.subrange(i as int, n as int)) =~= before + utf16_text(
                here,
            ));
        } else {
            assert(!starts_with_pair(here)) by {
                if here.len() >= 2 {
                    assert(here[1] == units@[i + 1]);
                }
            }
            if 0xd800 <= u && u <= 0xdfff {
                text.push('\u{fffd}');
                well_formed = false;
            } else {
                let c = match char::from_u32(u) {
                    Some(c) => c,
                    None => '\u{fffd}',
                };
                text.push(c);
                proof {
                    vstd::utf8::char_u32_cast(c, u);
                }
                assert(c == here[0] as char);
            }
            i = i + 1;
            assert(text@ + utf16_text(s.subrange(i as int, n as int)) =~= before + utf16_text(
                here,
            ));
        }
    }
    assert(s.subrange(n as int, n as int) =~= seq![]);
    assert(text@ + utf16_text(s.subrange(n as int, n as int)) =~= text@);
    Decoded { text, well_formed }
}

/// The text before the first NUL, with replacement characters where the input is broken.
pub fn wide_text(units: &[u16]) -> (r: String)
    ensures
        r@ == utf16_text(before_first(units@, 0)),
{
    decode_wide(units).text
}

/// How UTF-16 is decoded. Nothing gives nothing. A unit that is no surrogate is the character of
/// its number. A high and a low surrogate are one character, ten bits of each behind the first
/// 65536. A surrogate without its partner gives the replacement character, and the text is then
/// broken.
pub proof fn law_utf16(u: u16, low: u16, rest: Seq<u16>)
    ensures
        utf16_text(Seq::empty()) == Seq::<char>::empty(),
        utf16_well_formed(Seq::empty()),
        !(0xd800 <= u <= 0xdfff) ==> utf16_text(seq![u] + rest) == seq![u as char] + utf16_text(
            rest,
        ) && utf16_well_formed(seq![u] + rest) == utf16_well_formed(rest),
        0xd800 <= u <= 0xdbff && 0xdc00 <= low <= 0xdfff ==> utf16_text(seq![u, low] + rest)
            == seq![(0x10000 + 0x400 * (u - 0xd800) + (low - 0xdc00)) as char] + utf16_text(rest)
            && utf16_well_formed(seq![u, low] + rest) == utf16_well_formed(rest),
        0xd800 <= u <= 0xdbff && (rest.len() == 0 || !(0xdc00 <= rest[0] <= 0xdfff)) ==> utf16_text(
            seq![u] + rest,
        ) == seq!['\u{fffd}'] + utf16_text(rest) && !utf16_well_formed(seq![u] + rest),
        0xdc00 <= u <= 0xdfff ==> utf16_text(seq![u] + rest) == seq!['\u{fffd}'] + utf16_text(rest)
            && !utf16_well_formed(seq![u] + rest),
{
    let one = seq![u] + rest;
    let two = seq![u, low] + rest;
    assert(one.subrange(1, one.len() as int) =~= rest);
    assert(two.subrange(2, two.len() as int) =~= rest);
    assert(one[0] == u && two[0] == u && two[1] == low);
    if rest.len() > 0 {
        assert(one[1] == rest[0]);
    }
    assert(0x10000 + (u - 0xd800) * 0x400 + (low - 0xdc00) == 0x10000 + 0x400 * (u - 0xd800) + (low
        - 0xdc00));
}

} // verus!
