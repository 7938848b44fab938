//! Texts and numbers: what a text denotes as a number, how a number is
//! written out, and the calls into the standard library that read and write
//! them.

use vstd::prelude::*;
use vstd::utf8::{decode_utf8, valid_utf8};
use crate::ast::{stmts_view, Stmt, StmtView};
use crate::variables::names_view;

verus! {

/// The value of a run of decimal digits, read as a number in base ten.
pub open spec fn digits_value(digits: Seq<char>) -> int
    decreases digits.len(),
{
    if digits.len() == 0 {
        0
    } else {
        10 * digits_value(digits.drop_last()) + (digits.last() as int - '0' as int)
    }
}

/// Whether a text holds decimal digits only.
pub open spec fn all_digits(text: Seq<char>) -> bool {
    forall|i: int| 0 <= i < text.len() ==> '0' <= #[trigger] text[i] <= '9'
}

/// The number that a text denotes in decimal: an optional sign, then one or
/// more digits and nothing else, with a value that fits 32 bits.
pub open spec fn decimal_i32(text: Seq<char>) -> Option<i32> {
    let signed = text.len() > 0 && (text[0] == '-' || text[0] == '+');
    let digits = if signed {
        text.subrange(1, text.len() as int)
    } else {
        text
    };
    let value = if signed && text[0] == '-' {
        -digits_value(digits)
    } else {
        digits_value(digits)
    };
    if digits.len() > 0 && all_digits(digits) && i32::MIN <= value <= i32::MAX {
        Some(value as i32)
    } else {
        None
    }
}

/// The digits of a natural number in base ten, without leading zeros.
pub open spec fn decimal_digits(n: nat) -> Seq<char>
    decreases n,
{
    if n < 10 {
        seq![('0' as int + n) as u8 as char]
    } else {
        decimal_digits(n / 10).push(('0' as int + n % 10) as u8 as char)
    }
}

/// A number written out in base ten, with a minus sign if it is negative.
pub open spec fn decimal_text(n: int) -> Seq<char> {
    if n < 0 {
        seq!['-'] + decimal_digits((-n) as nat)
    } else {
        decimal_digits(n as nat)
    }
}

/// Texts joined with a separator between each two neighbours.
pub open spec fn joined(parts: Seq<Seq<char>>, separator: Seq<char>) -> Seq<char>
    decreases parts.len(),
{
    if parts.len() == 0 {
        Seq::empty()
    } else if parts.len() == 1 {
        parts[0]
    } else {
        joined(parts.drop_last(), separator) + separator + parts.last()
    }
}

/// The rendering that `{:?}` gives a list of statements.
pub uninterp spec fn debug_text(body: Seq<StmtView>) -> Seq<char>;

/// Parses a decimal integer with `str::parse::<i32>`. By its documentation the
/// text must be an optional `+` or `-` sign followed by digits only, at least
/// one, and the value must fit: anything else is no number.
#[verifier::external_body]
pub(crate) fn parse_i32(text: &str) -> (number: Option<i32>)
    ensures
        number == decimal_i32(text@),
{
    text.parse::<i32>().ok()
}

/// Writes a number in base ten with `i128::to_string`: the digits without
/// leading zeros, after a minus sign if the number is negative.
#[verifier::external_body]
pub(crate) fn decimal_string(n: i128) -> (text: String)
    ensures
        text@ == decimal_text(n as int),
{
    n.to_string()
}

/// Reads bytes as text with `String::from_utf8`, which accepts exactly the
/// well-formed UTF-8 sequences and decodes them.
#[verifier::external_body]
pub(crate) fn utf8_string(bytes: &Vec<u8>) -> (text: Option<String>)
    ensures
        match text {
            Some(t) => valid_utf8(bytes@) && t@ == decode_utf8(bytes@),
            None => !valid_utf8(bytes@),
        },
{
    String::from_utf8(bytes.clone()).ok()
}

/// Renders a list of statements with the `{:?}` format of `format!`. The
/// result depends on nothing but the statements.
#[verifier::external_body]
pub(crate) fn debug_string(body: &Vec<Stmt>) -> (text: String)
    ensures
        text@ == debug_text(stmts_view(*body)),
{
    format!("{:?}", body)
}

/// The texts of `parts` with `separator` between each two neighbours.
pub(crate) fn join(parts: &Vec<String>, separator: &str) -> (text: String)
    ensures
        text@ == joined(names_view(parts@), separator@),
{
    let mut text = String::new();
    let mut i: usize = 0;
    while i < parts.len()
        invariant
            i <= parts.len(),
            text@ == joined(names_view(parts@).take(i as int), separator@),
        decreases parts.len() - i,
    {
        if i > 0 {
            text.append(separator);
        }
        text.append(parts[i].as_str());
        proof {
            let all = names_view(parts@);
            assert(all.take(i + 1).drop_last() == all.take(i as int));
            assert(all.take(i + 1).last() == parts[i as int]@);
        }
        i += 1;
    }
    proof {
        assert(names_view(parts@).take(i as int) == names_view(parts@));
    }
    text
}

/// The digits of a number are digits, at least one, and have the number as
/// their value.
pub proof fn lemma_decimal_digits(n: nat)
    ensures
        decimal_digits(n).len() >= 1,
        all_digits(decimal_digits(n)),
        digits_value(decimal_digits(n)) == n,
    decreases n,
{
    if n < 10 {
        let digit = ('0' as int + n) as u8 as char;
        let digits = seq![digit];
        assert(digits.drop_last() =~= Seq::<char>::empty());
        assert(digits_value(digits.drop_last()) == 0);
        assert(digits.last() == digit);
    } else {
        lemma_decimal_digits(n / 10);
        let digit = ('0' as int + n % 10) as u8 as char;
        let digits = decimal_digits(n / 10).push(digit);
        assert(digits.drop_last() =~= decimal_digits(n / 10));
        assert(digits.last() == digit);
    }
}

/// A number that is written out and read again is the number: the text of an
/// integer denotes that integer.
pub proof fn lemma_decimal_round_trip(i: i32)
    ensures
        decimal_i32(decimal_text(i as int)) == Some(i),
{
    let text = decimal_text(i as int);
    if i < 0 {
        let digits = decimal_digits((-i) as nat);
        lemma_decimal_digits((-i) as nat);
        assert(text.subrange(1, text.len() as int) =~= digits);
        assert(text[0] == '-');
    } else {
        lemma_decimal_digits(i as nat);
        assert('0' <= text[0] <= '9');
    }
}

} // verus!
