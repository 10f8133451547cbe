//! Laying out text in columns: numbers in decimal, padding to a width, and
//! keeping a text on one line.

use crate::text::{chars_of, find_char, lemma_first_index};
use vstd::prelude::*;
use vstd::string::{StrSliceExecFns, StringExecFns};

verus! {

/// The character for the digit `d`.
pub open spec fn digit_char(d: nat) -> char {
    if d == 0 {
        '0'
    } else if d == 1 {
        '1'
    } else if d == 2 {
        '2'
    } else if d == 3 {
        '3'
    } else if d == 4 {
        '4'
    } else if d == 5 {
        '5'
    } else if d == 6 {
        '6'
    } else if d == 7 {
        '7'
    } else if d == 8 {
        '8'
    } else {
        '9'
    }
}

/// `n` in decimal, without leading zeros.
pub open spec fn decimal(n: nat) -> Seq<char>
    decreases n,
{
    if n < 10 {
        seq![digit_char(n)]
    } else {
        decimal(n / 10).push(digit_char(n % 10))
    }
}

/// `k` spaces.
pub open spec fn spaces(k: nat) -> Seq<char> {
    Seq::new(k, |i: int| ' ')
}

/// `s` with spaces in front up to `width` characters; `s` itself where it is
/// that wide already.
pub open spec fn pad_left_text(s: Seq<char>, width: nat) -> Seq<char> {
    if s.len() >= width {
        s
    } else {
        spaces((width - s.len()) as nat) + s
    }
}

/// `s` with spaces behind it up to `width` characters; `s` itself where it is
/// that wide already.
pub open spec fn pad_right_text(s: Seq<char>, width: nat) -> Seq<char> {
    if s.len() >= width {
        s
    } else {
        s + spaces((width - s.len()) as nat)
    }
}

/// `s` with a space in place of each line feed.
pub open spec fn flat_text(s: Seq<char>) -> Seq<char> {
    s.map_values(
        |c: char|
            if c == '\n' {
                ' '
            } else {
                c
            },
    )
}

/// A number in decimal has at least one digit, and each of its characters is
/// a digit.
pub proof fn lemma_decimal_digits(n: nat)
    ensures
        decimal(n).len() >= 1,
        forall|i: int| 0 <= i < decimal(n).len() ==> crate::number::is_digit(#[trigger] decimal(n)[i]),
    decreases n,
{
    if n >= 10 {
        lemma_decimal_digits(n / 10);
    }
}

/// Padding gives at least the width asked for, and never shortens.
pub proof fn lemma_padded_len(s: Seq<char>, width: nat)
    ensures
        pad_left_text(s, width).len() == if s.len() >= width {
            s.len()
        } else {
            width
        },
        pad_right_text(s, width).len() == pad_left_text(s, width).len(),
{
}

/// The text of one digit.
fn digit_str(d: u8) -> (text: &'static str)
    requires
        d < 10,
    ensures
        text@ == seq![digit_char(d as nat)],
{
    proof {
        reveal_strlit("0");
        reveal_strlit("1");
        reveal_strlit("2");
        reveal_strlit("3");
        reveal_strlit("4");
        reveal_strlit("5");
        reveal_strlit("6");
        reveal_strlit("7");
        reveal_strlit("8");
        reveal_strlit("9");
    }
    let text = match d {
        0 => "0",
        1 => "1",
        2 => "2",
        3 => "3",
        4 => "4",
        5 => "5",
        6 => "6",
        7 => "7",
        8 => "8",
        _ => "9",
    };
    text
}

/// Appends `n` in decimal to `out`.
pub fn push_decimal(out: &mut String, n: u128)
    ensures
        final(out)@ == old(out)@ + decimal(n as nat),
    decreases n,
{
    if n >= 10 {
        push_decimal(out, n / 10);
    }
    out.append(digit_str((n % 10) as u8));
}

/// `n` in decimal.
pub fn decimal_string(n: u128) -> (text: String)
    ensures
        text@ == decimal(n as nat),
{
    let mut text = String::new();
    push_decimal(&mut text, n);
    text
}

/// Appends `k` spaces to `out`.
pub fn push_spaces(out: &mut String, k: usize)
    ensures
        final(out)@ == old(out)@ + spaces(k as nat),
{
    let mut done: usize = 0;
    while done < k
        invariant
            done <= k,
            out@ == old(out)@ + spaces(done as nat),
        decreases k - done,
    {
        proof {
            reveal_strlit(" ");
        }
        out.append(" ");
        done += 1;
    }
}

/// `text` with spaces in front up to `width` characters.
pub fn pad_left(text: &str, width: usize) -> (padded: String)
    ensures
        padded@ == pad_left_text(text@, width as nat),
{
    let count = text.unicode_len();
    let mut padded = String::new();
    if count < width {
        push_spaces(&mut padded, width - count);
    }
    padded.append(text);
    padded
}

/// `text` with spaces behind it up to `width` characters.
pub fn pad_right(text: &str, width: usize) -> (padded: String)
    ensures
        padded@ == pad_right_text(text@, width as nat),
{
    let count = text.unicode_len();
    let mut padded = text.to_owned();
    if count < width {
        push_spaces(&mut padded, width - count);
    }
    padded
}

/// `text` with a space in place of each line feed.
pub fn flatten(text: &str) -> (flat: String)
    ensures
        flat@ == flat_text(text@),
{
    let chars = chars_of(text);
    let v = chars.as_slice();
    let mut flat = String::new();
    let mut lo: usize = 0;
    loop
        invariant_except_break
            flat@ == flat_text(v@.take(lo as int)),
        invariant
            v@ == text@,
            lo <= v.len(),
        ensures
            flat@ == flat_text(text@),
        decreases v.len() - lo,
    {
        let feed = find_char(v, lo, v.len(), '\n');
        proof {
            lemma_first_index(v@.subrange(lo as int, v.len() as int), '\n');
        }
        flat.append(text.substring_char(lo, feed));
        if feed == v.len() {
            break ;
        }
        proof {
            reveal_strlit(" ");
        }
        flat.append(" ");
        lo = feed + 1;
    }
    flat
}

} // verus!
