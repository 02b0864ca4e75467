//! Integers as text: decimal, fixed-width hexadecimal, and back.
use crate::text::chars_of;
use vstd::prelude::*;

verus! {

/// The digit `d`, below ten.
pub open spec fn digit(d: nat) -> char {
    ((48 + d) as u8) as char
}

/// The shortest decimal spelling of `n`.
pub open spec fn decimal(n: nat) -> Seq<char>
    decreases n,
{
    if n < 10 {
        seq![digit(n)]
    } else {
        decimal(n / 10).push(digit(n % 10))
    }
}

/// The decimal spelling of `n`, appended to `out`.
pub fn push_decimal(out: &mut String, n: u64)
    ensures
        final(out)@ == old(out)@ + decimal(n as nat),
    decreases n,
{
    if n >= 10 {
        push_decimal(out, n / 10);
    }
    out.push((48 + (n % 10) as u8) as char);
    assert(out@ =~= old(out)@ + decimal(n as nat));
}

/// The hexadecimal digit `d`, below sixteen.
pub open spec fn hex_digit(d: nat, capitals: bool) -> char {
    if d < 10 {
        digit(d)
    } else if capitals {
        ((55 + d) as u8) as char
    } else {
        ((87 + d) as u8) as char
    }
}

/// The last `width` hexadecimal digits of `n`, with leading zeros.
pub open spec fn hex(n: nat, width: nat, capitals: bool) -> Seq<char>
    decreases width,
{
    if width == 0 {
        seq![]
    } else {
        hex(n / 16, (width - 1) as nat, capitals).push(hex_digit(n % 16, capitals))
    }
}

/// The last `width` hexadecimal digits of `n`, appended to `out`.
pub fn push_hex(out: &mut String, n: u32, width: u32, capitals: bool)
    ensures
        final(out)@ == old(out)@ + hex(n as nat, width as nat, capitals),
    decreases width,
{
    if width > 0 {
        push_hex(out, n / 16, width - 1, capitals);
        let d = (n % 16) as u8;
        let c = if d < 10 {
            (48 + d) as char
        } else if capitals {
            (55 + d) as char
        } else {
            (87 + d) as char
        };
        out.push(c);
    }
    assert(out@ =~= old(out)@ + hex(n as nat, width as nat, capitals));
}

/// A text as long as its width holds the number it spells, so numbers below `16^width` that
/// are spelled alike are the same number.
pub proof fn lemma_hex_injective(a: nat, b: nat, width: nat, capitals: bool)
    requires
        hex(a, width, capitals) == hex(b, width, capitals),
        a < vstd::arithmetic::power::pow(16, width),
        b < vstd::arithmetic::power::pow(16, width),
    ensures
        a == b,
    decreases width,
{
    vstd::arithmetic::power::lemma_pow0(16);
    if width == 0 {
    } else {
        let w = (width - 1) as nat;
        let p = vstd::arithmetic::power::pow(16, w);
        assert(vstd::arithmetic::power::pow(16, width) == 16 * p) by {
            reveal(vstd::arithmetic::power::pow);
        }
        let ha = hex(a / 16, w, capitals);
        let hb = hex(b / 16, w, capitals);
        lemma_hex_len(a / 16, w, capitals);
        lemma_hex_len(b / 16, w, capitals);
        assert(ha =~= hex(a, width, capitals).subrange(0, w as int));
        assert(hb =~= hex(b, width, capitals).subrange(0, w as int));
        assert(hex(a, width, capitals)[w as int] == hex_digit(a % 16, capitals));
        assert(hex(b, width, capitals)[w as int] == hex_digit(b % 16, capitals));
        lemma_hex_injective(a / 16, b / 16, w, capitals);
    }
}

/// A fixed-width spelling is that wide.
pub proof fn lemma_hex_len(n: nat, width: nat, capitals: bool)
    ensures
        hex(n, width, capitals).len() == width,
    decreases width,
{
    if width > 0 {
        lemma_hex_len(n / 16, (width - 1) as nat, capitals);
    }
}

// ---------------------------------------------------------------------------
// Reading
// ---------------------------------------------------------------------------

/// Is every character of `s` a decimal digit?
pub open spec fn all_digits(s: Seq<char>) -> bool {
    forall|i: int| 0 <= i < s.len() ==> '0' <= #[trigger] s[i] <= '9'
}

/// The number that the digits `s` spell.
pub open spec fn digits_value(s: Seq<char>) -> nat
    decreases s.len(),
{
    if s.len() == 0 {
        0
    } else {
        digits_value(s.drop_last()) * 10 + ((s.last() as u32 - 48) as nat)
    }
}

/// The number that `s` spells: one or more digits, after a plus sign where there is one.
pub open spec fn parsed(s: Seq<char>) -> Option<u64> {
    let d = if s.len() > 0 && s[0] == '+' {
        s.drop_first()
    } else {
        s
    };
    if d.len() > 0 && all_digits(d) && digits_value(d) <= u64::MAX {
        Some(digits_value(d) as u64)
    } else {
        None
    }
}

/// A decimal number is made of digits, and reads back as the number.
pub proof fn law_decimal_reads_back(n: nat)
    ensures
        decimal(n).len() > 0,
        all_digits(decimal(n)),
        digits_value(decimal(n)) == n,
    decreases n,
{
    if n < 10 {
        assert(decimal(n).drop_last() =~= seq![]);
        assert(digits_value(Seq::empty()) == 0);
    } else {
        law_decimal_reads_back(n / 10);
        assert(decimal(n).drop_last() =~= decimal(n / 10));
    }
}

proof fn lemma_prefix_value(s: Seq<char>, i: int)
    requires
        all_digits(s),
        0 <= i <= s.len(),
    ensures
        digits_value(s.take(i)) <= digits_value(s),
    decreases s.len() - i,
{
    if i < s.len() {
        lemma_prefix_value(s, i + 1);
        assert(s.take(i + 1).drop_last() =~= s.take(i));
        assert(s.take(i + 1).last() == s[i]);
    } else {
        assert(s.take(i) =~= s);
    }
}

/// The number that `s` spells, where it spells one that fits.
pub fn parse_u64(s: &str) -> (r: Option<u64>)
    ensures
        r == parsed(s@),
{
    let chars = chars_of(s);
    let n: usize = chars.len();
    let start: usize = if n > 0 && chars[0] == '+' {
        1
    } else {
        0
    };
    if start == n {
        return None;
    }
    let ghost d = if s@.len() > 0 && s@[0] == '+' {
        s@.drop_first()
    } else {
        s@
    };
    assert(d =~= s@.subrange(start as int, n as int));
    let mut i: usize = start;
    let mut value: u64 = 0;
    while i < n
        invariant
            start <= i <= n == chars@.len(),
            chars@ == s@,
            d == s@.subrange(start as int, n as int),
            d.len() > 0,
            parsed(s@) == (if d.len() > 0 && all_digits(d) && digits_value(d) <= u64::MAX {
                Some(digits_value(d) as u64)
            } else {
                None
            }),
            forall|j: int| 0 <= j < i - start ==> '0' <= #[trigger] d[j] <= '9',
            value == digits_value(d.take(i - start)),
        decreases n - i,
    {
        let c = chars[i];
        assert(d[i - start] == c);
        if !('0' <= c && c <= '9') {
            return None;
        }
        let v = (c as u32 - 48) as u64;
        let ghost k = i - start;
        assert(d.take(k + 1).drop_last() =~= d.take(k));
        assert(d.take(k + 1).last() == c);
        if value > u64::MAX / 10 || value * 10 > u64::MAX - v {
            proof {
                if all_digits(d) {
                    lemma_prefix_value(d, k + 1);
                }
            }
            return None;
        }
        value = value * 10 + v;
        i = i + 1;
    }
    assert(d.take(n - start) =~= d);
    Some(value)
}

// ---------------------------------------------------------------------------
// Laws
// ---------------------------------------------------------------------------

/// A digit more makes the number ten times as large and adds the digit.
pub proof fn law_value_of_digits(s: Seq<char>, c: char)
    requires
        '0' <= c <= '9',
    ensures
        digits_value(Seq::empty()) == 0,
        digits_value(s.push(c)) == 10 * digits_value(s) + (c as int - 48),
{
    assert(s.push(c).drop_last() =~= s);
}

/// A decimal number has no zero in front, but for zero itself.
pub proof fn law_decimal_is_short(n: nat)
    ensures
        decimal(n)[0] == '0' ==> n == 0,
        n < 10 ==> decimal(n).len() == 1,
        n >= 10 ==> decimal(n).len() == decimal(n / 10).len() + 1,
    decreases n,
{
    if n >= 10 {
        law_decimal_is_short(n / 10);
        law_decimal_reads_back(n / 10);
        assert(decimal(n)[0] == decimal(n / 10)[0]);
    }
}

/// Each place of a hexadecimal number holds its digit: the figures up to nine, then the letters,
/// capital or small.
pub proof fn law_hex_digits(n: nat, width: nat, capitals: bool, i: int)
    requires
        0 <= i < width,
    ensures
        hex(n, width, capitals).len() == width,
        ({
            let d = (n / (vstd::arithmetic::power::pow(16, (width - 1 - i) as nat) as nat)) % 16;
            let c = hex(n, width, capitals)[i] as int;
            &&& d < 10 ==> c == 0x30 + d
            &&& d >= 10 && capitals ==> c == 0x41 + (d - 10)
            &&& d >= 10 && !capitals ==> c == 0x61 + (d - 10)
        }),
    decreases width,
{
    lemma_hex_len(n, width, capitals);
    let w = (width - 1) as nat;
    lemma_hex_len(n / 16, w, capitals);
    vstd::arithmetic::power::lemma_pow0(16);
    if i == w {
        assert(n / 1 == n);
        assert(hex(n, width, capitals)[i] == hex_digit(n % 16, capitals));
    } else {
        law_hex_digits(n / 16, w, capitals, i);
        let e = (w - 1 - i) as nat;
        let p = vstd::arithmetic::power::pow(16, e);
        vstd::arithmetic::power::lemma_pow_positive(16, e);
        assert(vstd::arithmetic::power::pow(16, (e + 1) as nat) == 16 * p) by {
            reveal(vstd::arithmetic::power::pow);
        }
        vstd::arithmetic::div_mod::lemma_div_denominator(n as int, 16, p);
        assert(hex(n, width, capitals)[i] == hex(n / 16, w, capitals)[i]);
    }
}

proof fn lemma_zero_in_front(s: Seq<char>)
    requires
        all_digits(s),
    ensures
        digits_value(seq!['0'] + s) == digits_value(s),
        all_digits(seq!['0'] + s),
    decreases s.len(),
{
    let t = seq!['0'] + s;
    assert forall|i: int| 0 <= i < t.len() implies '0' <= #[trigger] t[i] <= '9' by {
        if i > 0 {
            assert(t[i] == s[i - 1]);
        }
    }
    if s.len() == 0 {
        assert(t.drop_last() =~= Seq::empty());
        assert(digits_value(Seq::empty()) == 0);
        assert(s =~= Seq::empty());
    } else {
        let front = s.drop_last();
        assert forall|i: int| 0 <= i < front.len() implies '0' <= #[trigger] front[i] <= '9' by {
            assert(front[i] == s[i]);
        }
        lemma_zero_in_front(front);
        assert(t.drop_last() =~= seq!['0'] + front);
    }
}

/// What is written is read again, with or without a plus sign and with zeros in front, where it
/// fits; nothing is read from a text that is empty, is only a sign, or holds anything but digits.
pub proof fn law_numbers_are_read_as_written(n: nat, s: Seq<char>, i: int)
    ensures
        n <= u64::MAX ==> parsed(decimal(n)) == Some(n as u64),
        n <= u64::MAX ==> parsed(seq!['+'] + decimal(n)) == Some(n as u64),
        n <= u64::MAX ==> parsed(seq!['0'] + decimal(n)) == Some(n as u64),
        n > u64::MAX ==> parsed(decimal(n)) is None,
        parsed(Seq::empty()) is None,
        parsed(seq!['+']) is None,
        0 <= i < s.len() && !('0' <= s[i] <= '9') && !(i == 0 && s[0] == '+') ==> parsed(s) is None,
        0 < i < s.len() && s[i] == '+' ==> parsed(s) is None,
{
    law_decimal_reads_back(n);
    let d = decimal(n);
    assert(d[0] != '+') by {
        assert('0' <= d[0] <= '9');
    }
    let plus = seq!['+'] + d;
    assert(plus.drop_first() =~= d);
    lemma_zero_in_front(d);
    assert((seq!['0'] + d)[0] == '0');
    assert(seq!['+'].drop_first() =~= Seq::<char>::empty());
    if 0 <= i < s.len() && !('0' <= s[i] <= '9') && !(i == 0 && s[0] == '+') {
        if s[0] == '+' {
            let t = s.drop_first();
            assert(t[i - 1] == s[i]);
            assert(!all_digits(t));
        } else {
            assert(!all_digits(s));
        }
    }
}

} // verus!
