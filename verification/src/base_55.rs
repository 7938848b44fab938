//! The numbering of the script alphabet: capital letters count downwards from
//! minus one, small letters upwards from one, the blank is zero, and three
//! punctuation marks follow the small letters after a gap.

use vstd::prelude::*;

verus! {

/// The characters that have a number of their own.
pub open spec fn in_alphabet(c: char) -> bool {
    ||| 'A' <= c <= 'Z'
    ||| 'a' <= c <= 'z'
    ||| c == ' '
    ||| c == '/'
    ||| c == '\\'
    ||| c == '.'
}

/// The number of a character. Every character outside the alphabet counts as
/// the blank. The capital `U` stands apart from its neighbours at -210.
pub open spec fn char_code(c: char) -> int {
    if c == 'U' {
        -210
    } else if 'A' <= c <= 'Z' {
        'A' as int - c as int - 1
    } else if 'a' <= c <= 'z' {
        c as int - 'a' as int + 1
    } else if c == '/' {
        53
    } else if c == '\\' {
        54
    } else if c == '.' {
        55
    } else {
        0
    }
}

/// The numbers that some character of the alphabet has.
pub open spec fn is_code(n: int) -> bool {
    ||| -26 <= n <= 26 && n != -21
    ||| n == -210
    ||| 53 <= n <= 55
}

/// The number of a character.
pub fn char2num(character: char) -> (number: i32)
    ensures
        number == char_code(character),
{
    match character {
        'Z' => -26,
        'Y' => -25,
        'X' => -24,
        'W' => -23,
        'V' => -22,
        'U' => -210,
        'T' => -20,
        'R' => -18,
        'S' => -19,
        'Q' => -17,
        'P' => -16,
        'O' => -15,
        'N' => -14,
        'M' => -13,
        'L' => -12,
        'K' => -11,
        'J' => -10,
        'I' => -9,
        'H' => -8,
        'G' => -7,
        'F' => -6,
        'E' => -5,
        'D' => -4,
        'C' => -3,
        'B' => -2,
        'A' => -1,
        ' ' => 0,
        'a' => 1,
        'b' => 2,
        'c' => 3,
        'd' => 4,
        'e' => 5,
        'f' => 6,
        'g' => 7,
        'h' => 8,
        'i' => 9,
        'j' => 10,
        'k' => 11,
        'l' => 12,
        'm' => 13,
        'n' => 14,
        'o' => 15,
        'p' => 16,
        'q' => 17,
        'r' => 18,
        's' => 19,
        't' => 20,
        'u' => 21,
        'v' => 22,
        'w' => 23,
        'x' => 24,
        'y' => 25,
        'z' => 26,
        '/' => 53,
        '\\' => 54,
        '.' => 55,
        _ => 0,
    }
}

/// The character of a number. A number that no character has gives the
/// blank.
pub fn num2char(number: i32) -> (character: char)
    ensures
        in_alphabet(character),
        is_code(number as int) ==> char_code(character) == number,
        !is_code(number as int) ==> character == ' ',
{
    match number {
        -26 => 'Z',
        -25 => 'Y',
        -24 => 'X',
        -23 => 'W',
        -22 => 'V',
        -210 => 'U',
        -20 => 'T',
        -18 => 'R',
        -19 => 'S',
        -17 => 'Q',
        -16 => 'P',
        -15 => 'O',
        -14 => 'N',
        -13 => 'M',
        -12 => 'L',
        -11 => 'K',
        -10 => 'J',
        -9 => 'I',
        -8 => 'H',
        -7 => 'G',
        -6 => 'F',
        -5 => 'E',
        -4 => 'D',
        -3 => 'C',
        -2 => 'B',
        -1 => 'A',
        0 => ' ',
        1 => 'a',
        2 => 'b',
        3 => 'c',
        4 => 'd',
        5 => 'e',
        6 => 'f',
        7 => 'g',
        8 => 'h',
        9 => 'i',
        10 => 'j',
        11 => 'k',
        12 => 'l',
        13 => 'm',
        14 => 'n',
        15 => 'o',
        16 => 'p',
        17 => 'q',
        18 => 'r',
        19 => 's',
        20 => 't',
        21 => 'u',
        22 => 'v',
        23 => 'w',
        24 => 'x',
        25 => 'y',
        26 => 'z',
        53 => '/',
        54 => '\\',
        55 => '.',
        _ => ' ',
    }
}

/// No two characters of the alphabet share a number, so the number of a
/// character of the alphabet determines it.
pub proof fn lemma_char_code_injective(a: char, b: char)
    requires
        in_alphabet(a),
        in_alphabet(b),
        char_code(a) == char_code(b),
    ensures
        a == b,
{
}

/// Every character of the alphabet has a number that `is_code` accepts, and
/// every such number belongs to a character of the alphabet.
pub proof fn lemma_codes_are_the_numbers_of_the_alphabet(c: char, n: int)
    ensures
        in_alphabet(c) ==> is_code(char_code(c)),
        !in_alphabet(c) ==> char_code(c) == 0,
        is_code(n) ==> exists|d: char| in_alphabet(d) && #[trigger] char_code(d) == n,
{
    if is_code(n) {
        if n == -210 {
            assert(in_alphabet('U') && char_code('U') == n);
        } else if n < 0 {
            let d = (('A' as int - n - 1) as u8) as char;
            assert(in_alphabet(d) && char_code(d) == n);
        } else if n == 0 {
            assert(in_alphabet(' ') && char_code(' ') == n);
        } else if n <= 26 {
            let d = ((n + 'a' as int - 1) as u8) as char;
            assert(in_alphabet(d) && char_code(d) == n);
        } else if n == 53 {
            assert(in_alphabet('/') && char_code('/') == n);
        } else if n == 54 {
            assert(in_alphabet('\\') && char_code('\\') == n);
        } else {
            assert(in_alphabet('.') && char_code('.') == n);
        }
    }
}

} // verus!
