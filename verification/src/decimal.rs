//! Unsigned decimal numbers as text: reading them and writing them.

use vstd::prelude::*;

verus! {

/// Why a text is not an unsigned decimal number that fits in 64 bits.
#[derive(Clone, Copy, Debug, PartialEq, Eq, Structural)]
pub enum ParseError {
    /// The text holds no character at all.
    Empty,
    /// The text holds a character that is no ASCII digit, or a sign and
    /// nothing after it.
    InvalidDigit,
    /// The text is a decimal number above `u64::MAX`.
    Overflow,
}

impl ParseError {
    /// What is said of a text that is refused for this reason.
    pub open spec fn message_text(self) -> Seq<char> {
        match self {
            ParseError::Empty => "cannot parse integer from empty string"@,
            ParseError::InvalidDigit => "invalid digit found in string"@,
            ParseError::Overflow => "number too large to fit in target type"@,
        }
    }

    /// What is said of a text that is refused for this reason.
    pub fn message(self) -> (m: &'static str)
        ensures
            m@ == self.message_text(),
    {
        match self {
            ParseError::Empty => "cannot parse integer from empty string",
            ParseError::InvalidDigit => "invalid digit found in string",
            ParseError::Overflow => "number too large to fit in target type",
        }
    }
}

/// Whether `c` is one of the ASCII digits `0` to `9`.
pub open spec fn is_digit(c: char) -> bool {
    0x30 <= c as u32 <= 0x39
}

/// The number that the ASCII digit `c` stands for.
pub open spec fn digit_value(c: char) -> nat
    recommends
        is_digit(c),
{
    (c as u32 - 0x30) as nat
}

/// The ASCII digit that stands for `d`.
pub open spec fn digit_char(d: nat) -> char
    recommends
        d < 10,
{
    (0x30 + d) as u8 as char
}

/// Whether `s` holds ASCII digits only.
pub open spec fn all_digits(s: Seq<char>) -> bool {
    forall|i: int| 0 <= i < s.len() ==> is_digit(#[trigger] s[i])
}

/// The number that the digits `s` write in base ten, the most significant
/// digit first. The empty sequence writes zero.
pub open spec fn decimal_value(s: Seq<char>) -> nat
    decreases s.len(),
{
    if s.len() == 0 {
        0
    } else {
        10 * decimal_value(s.drop_last()) + digit_value(s.last())
    }
}

/// The digits of `n` in base ten, the most significant first, with no
/// leading zero but for zero itself.
pub open spec fn decimal_digits(n: nat) -> Seq<char>
    decreases n,
{
    if n < 10 {
        seq![digit_char(n)]
    } else {
        decimal_digits(n / 10).push(digit_char(n % 10))
    }
}

/// `s` without one leading plus sign, where it has one.
pub open spec fn unsigned_part(s: Seq<char>) -> Seq<char> {
    if s.len() > 0 && s[0] == '+' {
        s.skip(1)
    } else {
        s
    }
}

/// What `s` means as an unsigned number: an optional plus sign, then one or
/// more ASCII digits, the whole not above `u64::MAX`.
pub open spec fn parse_unsigned(s: Seq<char>) -> Result<u64, ParseError> {
    let digits = unsigned_part(s);
    if s.len() == 0 {
        Err(ParseError::Empty)
    } else if digits.len() == 0 || !all_digits(digits) {
        Err(ParseError::InvalidDigit)
    } else if decimal_value(digits) > u64::MAX {
        Err(ParseError::Overflow)
    } else {
        Ok(decimal_value(digits) as u64)
    }
}

/// A prefix of a number's digits writes a number that is not larger.
pub proof fn lemma_prefix_value(s: Seq<char>, n: int)
    requires
        0 <= n <= s.len(),
    ensures
        decimal_value(s.take(n)) <= decimal_value(s),
    decreases s.len(),
{
    if n == s.len() {
        assert(s.take(n) =~= s);
    } else {
        assert(s.drop_last().take(n) =~= s.take(n));
        lemma_prefix_value(s.drop_last(), n);
    }
}

/// The digits written for a number are digits, and they write that number.
pub proof fn lemma_digits_value(n: nat)
    ensures
        all_digits(decimal_digits(n)),
        decimal_digits(n).len() >= 1,
        decimal_value(decimal_digits(n)) == n,
    decreases n,
{
    if n < 10 {
        assert(decimal_value(decimal_digits(n).drop_last()) == 0);
    } else {
        lemma_digits_value(n / 10);
        assert(decimal_digits(n).drop_last() =~= decimal_digits(n / 10));
    }
}

/// Reading what was written gives the number back.
pub proof fn lemma_parse_written(n: u64)
    ensures
        parse_unsigned(decimal_digits(n as nat)) == Ok::<u64, ParseError>(n),
{
    lemma_digits_value(n as nat);
}

/// Reads `v` as an unsigned decimal number.
pub fn parse_decimal(v: &Vec<char>) -> (r: Result<u64, ParseError>)
    ensures
        r == parse_unsigned(v@),
{
    if v.len() == 0 {
        return Err(ParseError::Empty);
    }
    let start: usize = if v[0] == '+' {
        1
    } else {
        0
    };
    let ghost digits = unsigned_part(v@);
    if start == v.len() {
        return Err(ParseError::InvalidDigit);
    }
    let mut i: usize = start;
    while i < v.len()
        invariant
            start <= i <= v.len(),
            start < v.len(),
            digits == unsigned_part(v@),
            digits == v@.skip(start as int),
            forall|j: int| 0 <= j < i - start ==> is_digit(#[trigger] digits[j]),
        decreases v.len() - i,
    {
        let c = v[i];
        let n: u32 = c as u32;
        if n < 0x30 || n > 0x39 {
            assert(!is_digit(digits[i - start]));
            return Err(ParseError::InvalidDigit);
        }
        i += 1;
    }
    let mut acc: u64 = 0;
    let mut k: usize = start;
    while k < v.len()
        invariant
            start <= k <= v.len(),
            start < v.len(),
            digits == unsigned_part(v@),
            digits == v@.skip(start as int),
            all_digits(digits),
            acc == decimal_value(digits.take(k - start)),
        decreases v.len() - k,
    {
        let c = v[k];
        assert(c == digits[k - start]);
        let d: u64 = (c as u32 - 0x30) as u64;
        proof {
            let next = digits.take(k - start + 1);
            assert(next.drop_last() =~= digits.take(k - start));
            lemma_prefix_value(digits, k - start + 1);
        }
        if acc > (u64::MAX - d) / 10 {
            return Err(ParseError::Overflow);
        }
        acc = acc * 10 + d;
        k += 1;
    }
    proof {
        assert(digits.take(digits.len() as int) =~= digits);
    }
    Ok(acc)
}

/// The ASCII digit for `d`.
pub(crate) fn digit_of(d: u64) -> (c: char)
    requires
        d < 10,
    ensures
        c == digit_char(d as nat),
{
    (0x30 + d) as u8 as char
}

/// Appends the decimal digits of `n` to `out`.
pub fn push_decimal(out: &mut Vec<char>, n: u64)
    ensures
        final(out)@ == old(out)@ + decimal_digits(n as nat),
    decreases n,
{
    if n >= 10 {
        push_decimal(out, n / 10);
    }
    out.push(digit_of(n % 10));
}

} // verus!
