//! Decimal numerals for 16-bit unsigned integers: an optional `+` sign followed
//! by digits and nothing else.

use vstd::prelude::*;

verus! {

/// Why a piece of text is not a 16-bit unsigned numeral.
#[derive(Clone, Copy, Debug, PartialEq, Eq, Structural)]
pub enum NumberError {
    /// There is no text at all.
    Empty,
    /// A character that is not a digit stands where a digit is expected, or a
    /// sign stands alone.
    InvalidDigit,
    /// The digits denote a value above `u16::MAX`.
    Overflow,
}

impl NumberError {
    /// What went wrong, in words.
    pub open spec fn text(self) -> Seq<char> {
        match self {
            NumberError::Empty => "cannot parse integer from empty string"@,
            NumberError::InvalidDigit => "invalid digit found in string"@,
            NumberError::Overflow => "number too large to fit in target type"@,
        }
    }

    /// What went wrong, in words.
    pub fn message(&self) -> (message: String)
        ensures
            message@ == self.text(),
    {
        match self {
            NumberError::Empty => "cannot parse integer from empty string".to_owned(),
            NumberError::InvalidDigit => "invalid digit found in string".to_owned(),
            NumberError::Overflow => "number too large to fit in target type".to_owned(),
        }
    }
}

/// Whether `c` is one of `0` to `9`.
pub open spec fn is_digit(c: char) -> bool {
    0x30 <= c as u32 <= 0x39
}

/// The value of the digit `c`.
pub open spec fn digit_of(c: char) -> nat {
    (c as u32 - 0x30) as nat
}

/// The number that the digits of `s` denote in base ten.
pub open spec fn decimal_value(s: Seq<char>) -> nat
    decreases s.len(),
{
    if s.len() == 0 {
        0
    } else {
        decimal_value(s.drop_last()) * 10 + digit_of(s.last())
    }
}

/// The length of the longest prefix of `s` that holds digits only.
pub open spec fn digit_run(s: Seq<char>) -> nat
    decreases s.len(),
{
    if s.len() == 0 || !is_digit(s[0]) {
        0
    } else {
        1 + digit_run(s.drop_first())
    }
}

/// What `s` denotes as a 16-bit unsigned numeral. The text is read from the
/// left: the digits up to the first other character must stay within
/// `u16::MAX`, and no other character may follow them.
pub open spec fn parse_u16(s: Seq<char>) -> Result<u16, NumberError> {
    if s.len() == 0 {
        Err(NumberError::Empty)
    } else {
        let digits = if s[0] == '+' {
            s.drop_first()
        } else {
            s
        };
        let run = digits.take(digit_run(digits) as int);
        if digits.len() == 0 {
            Err(NumberError::InvalidDigit)
        } else if decimal_value(run) > u16::MAX {
            Err(NumberError::Overflow)
        } else if run.len() < digits.len() {
            Err(NumberError::InvalidDigit)
        } else {
            Ok(decimal_value(digits) as u16)
        }
    }
}

/// `digit_run` lies within the sequence, everything before it is a digit, and
/// the character at it, if any, is none.
pub proof fn lemma_digit_run(s: Seq<char>)
    ensures
        digit_run(s) <= s.len(),
        digit_run(s) < s.len() ==> !is_digit(s[digit_run(s) as int]),
        forall|j: int| 0 <= j < digit_run(s) ==> is_digit(s[j]),
    decreases s.len(),
{
    if s.len() == 0 || !is_digit(s[0]) {
    } else {
        let t = s.drop_first();
        lemma_digit_run(t);
        assert forall|j: int| 0 <= j < digit_run(s) implies is_digit(s[j]) by {
            if j > 0 {
                assert(s[j] == t[j - 1]);
            }
        }
    }
}

/// A numeral is worth at least as much as each of its prefixes.
pub proof fn lemma_prefix_value(s: Seq<char>, k: int)
    requires
        0 <= k <= s.len(),
    ensures
        decimal_value(s.take(k)) <= decimal_value(s),
    decreases s.len(),
{
    if k == s.len() {
        assert(s.take(k) =~= s);
    } else {
        assert(s.drop_last().take(k) =~= s.take(k));
        lemma_prefix_value(s.drop_last(), k);
        assert(decimal_value(s.drop_last()) * 10 >= decimal_value(s.drop_last()))
            by (nonlinear_arith);
    }
}

/// Whether `c` is one of `0` to `9`.
pub fn is_decimal_digit(c: char) -> (b: bool)
    ensures
        b == is_digit(c),
{
    let n: u32 = c as u32;
    0x30 <= n && n <= 0x39
}

/// Reads `v[lo..hi]` as a 16-bit unsigned numeral.
pub fn parse_number(v: &[char], lo: usize, hi: usize) -> (r: Result<u16, NumberError>)
    requires
        lo <= hi <= v.len(),
    ensures
        r == parse_u16(v@.subrange(lo as int, hi as int)),
{
    let ghost s = v@.subrange(lo as int, hi as int);
    if lo == hi {
        return Err(NumberError::Empty);
    }
    let start: usize = if v[lo] == '+' {
        lo + 1
    } else {
        lo
    };
    let ghost digits = v@.subrange(start as int, hi as int);
    assert(digits == if s[0] == '+' {
        s.drop_first()
    } else {
        s
    });
    if start == hi {
        return Err(NumberError::InvalidDigit);
    }
    proof {
        lemma_digit_run(digits);
    }
    let mut acc: u32 = 0;
    let mut i: usize = start;
    while i < hi
        invariant
            lo <= start <= i <= hi <= v.len(),
            start < hi,
            s == v@.subrange(lo as int, hi as int),
            digits == v@.subrange(start as int, hi as int),
            digits == if s[0] == '+' {
                s.drop_first()
            } else {
                s
            },
            forall|j: int| 0 <= j < i - start ==> is_digit(#[trigger] digits[j]),
            acc == decimal_value(digits.take(i - start)),
            acc <= u16::MAX,
            digit_run(digits) <= digits.len(),
            digit_run(digits) < digits.len() ==> !is_digit(digits[digit_run(digits) as int]),
            forall|j: int| 0 <= j < digit_run(digits) ==> is_digit(digits[j]),
        decreases hi - i,
    {
        let c = v[i];
        assert(c == digits[i - start]);
        if !is_decimal_digit(c) {
            return Err(NumberError::InvalidDigit);
        }
        let d: u32 = c as u32 - 0x30;
        let next: u32 = acc * 10 + d;
        assert(digits.take(i - start + 1).drop_last() == digits.take(i - start));
        if next > 65535 {
            proof {
                let run = digits.take(digit_run(digits) as int);
                assert(run.take(i - start + 1) == digits.take(i - start + 1));
                lemma_prefix_value(run, i - start + 1);
            }
            return Err(NumberError::Overflow);
        }
        acc = next;
        i += 1;
    }
    assert(digits.take(digits.len() as int) == digits);
    Ok(acc as u16)
}

} // verus!
