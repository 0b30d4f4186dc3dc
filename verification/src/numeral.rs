//! Decimal numerals: writing a number as digits and reading digits back.

use crate::text::code_point;
use vstd::prelude::*;

verus! {

/// The character for the digit `d`, for `d` below ten: `0` has the code
/// point 48, and the others follow it.
pub open spec fn digit_char(d: nat) -> char {
    (48 + d) as char
}

/// Whether `c` is one of `0` to `9`.
pub open spec fn is_digit(c: char) -> bool {
    48 <= c as nat <= 57
}

/// The number that the digit `c` stands for; zero for any other character.
pub open spec fn digit_value(c: char) -> nat {
    if is_digit(c) {
        (c as nat - 48) as nat
    } else {
        0
    }
}

/// The decimal numeral of `n`, without leading zeros.
pub open spec fn decimal(n: nat) -> Seq<char>
    decreases n,
{
    if n < 10 {
        seq![digit_char(n)]
    } else {
        decimal(n / 10).push(digit_char(n % 10))
    }
}

/// The decimal numeral of `n`, with zeros in front where it has fewer than
/// `width` digits.
pub open spec fn zero_padded(n: nat, width: nat) -> Seq<char> {
    let d = decimal(n);
    if d.len() >= width {
        d
    } else {
        Seq::new((width - d.len()) as nat, |i: int| '0') + d
    }
}

/// Whether every character of `s` is a digit.
pub open spec fn all_digits(s: Seq<char>) -> bool {
    forall|i: int| 0 <= i < s.len() ==> is_digit(#[trigger] s[i])
}

/// The number that a sequence of digits denotes in base ten. Leading zeros
/// are allowed; the empty sequence denotes zero.
pub open spec fn numeral_value(s: Seq<char>) -> nat
    decreases s.len(),
{
    if s.len() == 0 {
        0
    } else {
        numeral_value(s.drop_last()) * 10 + digit_value(s.last())
    }
}

/// `token` without the `+` that may stand at its start.
pub open spec fn unsigned_part(token: Seq<char>) -> Seq<char> {
    if token.len() > 0 && token[0] == '+' {
        token.drop_first()
    } else {
        token
    }
}

/// The number that `token` denotes: an optional `+`, then one or more
/// digits. The number may be of any size. A token of another form denotes
/// none.
pub open spec fn parse_unsigned(token: Seq<char>) -> Option<nat> {
    let digits = unsigned_part(token);
    if digits.len() > 0 && all_digits(digits) {
        Some(numeral_value(digits))
    } else {
        None
    }
}

/// `n` where it fits in 32 bits, and the largest number of 32 bits where it
/// does not.
pub open spec fn saturated(n: nat) -> u32 {
    if n <= u32::MAX {
        n as u32
    } else {
        u32::MAX
    }
}

/// The numeral of a number below ten has one digit, that of a number below
/// a hundred at most two, and that of any other at least three.
pub proof fn lemma_decimal_len(n: nat)
    ensures
        decimal(n).len() >= 1,
        n < 10 ==> decimal(n).len() == 1,
        10 <= n < 100 ==> decimal(n).len() == 2,
        n >= 100 ==> decimal(n).len() >= 3,
    decreases n,
{
    if n >= 10 {
        lemma_decimal_len(n / 10);
    }
}

/// The numeral of a number is made of digits, and denotes that number.
pub proof fn lemma_decimal_value(n: nat)
    ensures
        all_digits(decimal(n)),
        numeral_value(decimal(n)) == n,
    decreases n,
{
    if n < 10 {
        assert(decimal(n).drop_last() =~= Seq::<char>::empty());
        assert(numeral_value(decimal(n).drop_last()) == 0);
    } else {
        lemma_decimal_value(n / 10);
        assert(decimal(n).drop_last() =~= decimal(n / 10));
    }
}

/// Zeros in front of a numeral do not change what it denotes.
pub proof fn lemma_leading_zeros(k: nat, s: Seq<char>)
    ensures
        numeral_value(Seq::new(k, |i: int| '0') + s) == numeral_value(s),
    decreases s.len(), k,
{
    let zeros = Seq::new(k, |i: int| '0');
    if s.len() > 0 {
        assert((zeros + s).drop_last() =~= zeros + s.drop_last());
        lemma_leading_zeros(k, s.drop_last());
    } else if k > 0 {
        let fewer = Seq::new((k - 1) as nat, |i: int| '0');
        assert(zeros + s =~= zeros);
        assert(zeros.drop_last() =~= fewer);
        assert(fewer + s =~= fewer);
        lemma_leading_zeros((k - 1) as nat, s);
    } else {
        assert(zeros + s =~= s);
    }
}

/// A numeral with zeros in front is read back as its number: it is made of
/// digits, at least one, and `parse_unsigned` gives the number.
pub proof fn lemma_parse_padded(n: nat, width: nat)
    ensures
        zero_padded(n, width).len() >= 1,
        all_digits(zero_padded(n, width)),
        parse_unsigned(zero_padded(n, width)) == Some(n),
{
    lemma_decimal_value(n);
    lemma_decimal_len(n);
    let d = decimal(n);
    if d.len() < width {
        lemma_leading_zeros((width - d.len()) as nat, d);
    }
    let padded = zero_padded(n, width);
    assert(is_digit(padded[0]));
    assert(unsigned_part(padded) == padded);
}

/// The digit character for `d`.
fn digit_of(d: u8) -> (c: char)
    requires
        d < 10,
    ensures
        c == digit_char(d as nat),
{
    (48 + d) as char
}

/// Appends the decimal numeral of `n` to `out`.
pub fn push_decimal(out: &mut String, n: u128)
    ensures
        final(out)@ == old(out)@ + decimal(n as nat),
{
    let mut low: Vec<char> = Vec::new();
    let mut m: u128 = n;
    while m >= 10
        invariant
            decimal(n as nat) == decimal(m as nat) + low@.reverse(),
        decreases m,
    {
        let d: u8 = (m % 10) as u8;
        let ghost before = low@;
        low.push(digit_of(d));
        assert(low@.reverse() == seq![digit_char(d as nat)] + before.reverse());
        m = m / 10;
    }
    out.push(digit_of(m as u8));
    let mut k: usize = low.len();
    while k > 0
        invariant
            k <= low.len(),
            out@ == old(out)@ + seq![digit_char(m as nat)] + low@.reverse().take(low.len() - k),
        decreases k,
    {
        k -= 1;
        out.push(low[k]);
        assert(low@.reverse().take(low.len() - k) == low@.reverse().take(low.len() - k - 1).push(
            low@[k as int],
        ));
    }
    assert(low@.reverse().take(low.len() as int) == low@.reverse());
}

/// Appends the decimal numeral of `n` to `out`, with zeros in front where it
/// has fewer than three digits.
pub fn push_padded(out: &mut String, n: u128)
    ensures
        final(out)@ == old(out)@ + zero_padded(n as nat, 3),
{
    proof {
        lemma_decimal_len(n as nat);
    }
    if n < 10 {
        out.push('0');
        out.push('0');
        assert(old(out)@.push('0').push('0') == old(out)@ + Seq::new(2, |i: int| '0'));
    } else if n < 100 {
        out.push('0');
        assert(old(out)@.push('0') == old(out)@ + Seq::new(1, |i: int| '0'));
    }
    push_decimal(out, n);
}

/// Reads `token` as an unsigned decimal number. A number too large for 32
/// bits is a number all the same: it comes back as the largest number of 32
/// bits.
pub fn parse_number(token: &Vec<char>) -> (r: Option<u32>)
    ensures
        match parse_unsigned(token@) {
            Some(n) => r == Some(saturated(n)),
            None => r is None,
        },
{
    let start: usize = if token.len() > 0 && token[0] == '+' {
        1
    } else {
        0
    };
    let ghost digits = token@.skip(start as int);
    assert(digits == unsigned_part(token@));
    if start == token.len() {
        return None;
    }
    let mut value: u64 = 0;
    let mut i: usize = start;
    assert(digits.take(0) == Seq::<char>::empty());
    while i < token.len()
        invariant
            start <= i <= token.len(),
            digits == token@.skip(start as int),
            digits == unsigned_part(token@),
            all_digits(digits.take(i - start)),
            value == saturated(numeral_value(digits.take(i - start))),
        decreases token.len() - i,
    {
        let c: u32 = code_point(token[i]);
        assert(digits[i - start] == token@[i as int]);
        if c < 48 || c > 57 {
            return None;
        }
        let ghost before = digits.take(i - start);
        let ghost now = digits.take(i - start + 1);
        assert(now.drop_last() == before);
        assert(now.last() == token@[i as int]);
        value = value * 10 + (c - 48) as u64;
        if value > 0xFFFF_FFFF {
            value = 0xFFFF_FFFF;
        }
        i += 1;
    }
    assert(digits.take(digits.len() as int) == digits);
    Some(value as u32)
}

} // verus!
