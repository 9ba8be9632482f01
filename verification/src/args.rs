//! The command line: `<program> STORE_URL FILENAME [SKIP]`.
//!
//! The skip count is a decimal number: digits, with one `+` in front of them
//! if the operator likes. It must fit the machine's word.

use crate::error::PurgeError;
use vstd::prelude::*;
use vstd::utf8::encode_utf8;

verus! {

/// The byte `+`.
pub const PLUS_SIGN: u8 = 43;

/// The byte `0`.
pub const DIGIT_ZERO: u8 = 48;

/// The byte `9`.
pub const DIGIT_NINE: u8 = 57;

/// What one run was asked to do.
#[derive(Debug)]
pub struct Invocation {
    /// The connection string of the store.
    pub store_url: String,
    /// The path of the compressed key list.
    pub file: String,
    /// The number of leading lines to leave alone.
    pub skip: usize,
}

/// Whether a byte is a decimal digit.
pub open spec fn is_digit(byte: u8) -> bool {
    DIGIT_ZERO <= byte <= DIGIT_NINE
}

/// The value of one decimal digit; zero for any other byte.
pub open spec fn digit_value(byte: u8) -> nat {
    if is_digit(byte) {
        (byte - DIGIT_ZERO) as nat
    } else {
        0
    }
}

/// The number that a run of decimal digits spells, most significant first.
pub open spec fn digits_value(digits: Seq<u8>) -> nat
    decreases digits.len(),
{
    if digits.len() == 0 {
        0
    } else {
        10 * digits_value(digits.drop_last()) + digit_value(digits.last())
    }
}

/// The text without the plus sign that may lead it.
pub open spec fn unsigned_part(text: Seq<u8>) -> Seq<u8> {
    if text.len() > 0 && text[0] == PLUS_SIGN {
        text.drop_first()
    } else {
        text
    }
}

/// The number that `text` spells, or `None` where it spells none: where,
/// the plus sign aside, it is empty or holds anything but digits.
pub open spec fn number_of(text: Seq<u8>) -> Option<nat> {
    let digits = unsigned_part(text);
    if digits.len() > 0 && forall|i: int| 0 <= i < digits.len() ==> is_digit(#[trigger] digits[i]) {
        Some(digits_value(digits))
    } else {
        None
    }
}

/// The skip count that `text` asks for: the number it spells, if it spells
/// one that fits.
pub open spec fn skip_of(text: Seq<u8>) -> Option<usize> {
    match number_of(text) {
        Some(value) => if value <= usize::MAX {
            Some(value as usize)
        } else {
            None
        },
        None => None,
    }
}

/// What a command line asks for. The program's own name counts as the first
/// argument, so two or three more must follow it.
pub open spec fn invocation_of(args: Seq<Seq<char>>) -> Result<(Seq<char>, Seq<char>, usize), PurgeError> {
    if args.len() == 3 {
        Ok((args[1], args[2], 0usize))
    } else if args.len() == 4 {
        match skip_of(encode_utf8(args[3])) {
            Some(skip) => Ok((args[1], args[2], skip)),
            None => Err(PurgeError::Argument),
        }
    } else {
        Err(PurgeError::Argument)
    }
}

/// The characters of each argument.
pub open spec fn args_view(args: Seq<String>) -> Seq<Seq<char>> {
    Seq::new(args.len(), |i: int| args[i]@)
}

/// An invocation as plain values.
pub open spec fn invocation_view(parsed: Result<Invocation, PurgeError>) -> Result<
    (Seq<char>, Seq<char>, usize),
    PurgeError,
> {
    match parsed {
        Ok(invocation) => Ok((invocation.store_url@, invocation.file@, invocation.skip)),
        Err(error) => Err(error),
    }
}

/// A number never spells less than one of its prefixes.
pub proof fn lemma_prefix_value(digits: Seq<u8>, n: int)
    requires
        0 <= n <= digits.len(),
    ensures
        digits_value(digits.take(n)) <= digits_value(digits),
    decreases digits.len(),
{
    if n == digits.len() {
        assert(digits.take(n) =~= digits);
    } else {
        lemma_prefix_value(digits.drop_last(), n);
        assert(digits.drop_last().take(n) =~= digits.take(n));
    }
}

/// Reads a skip count.
pub fn parse_skip(text: &[u8]) -> (skip: Option<usize>)
    ensures
        skip == skip_of(text@),
{
    let len: usize = text.len();
    let start: usize = if len > 0 && text[0] == PLUS_SIGN {
        1
    } else {
        0
    };
    let ghost digits = unsigned_part(text@);
    assert(digits =~= text@.skip(start as int));
    if start == len {
        return None;
    }
    let mut value: usize = 0;
    let mut i: usize = start;
    assert(digits.take(0) =~= Seq::<u8>::empty());
    while i < len
        invariant
            start <= i <= len,
            len == text@.len(),
            digits == text@.skip(start as int),
            digits == unsigned_part(text@),
            forall|j: int| 0 <= j < i - start ==> is_digit(#[trigger] digits[j]),
            value == digits_value(digits.take(i - start)),
        decreases len - i,
    {
        let byte: u8 = text[i];
        assert(byte == digits[i - start]);
        if byte < DIGIT_ZERO || byte > DIGIT_NINE {
            return None;
        }
        let digit: usize = (byte - DIGIT_ZERO) as usize;
        proof {
            let longer = digits.take(i - start + 1);
            assert(longer.drop_last() =~= digits.take(i - start));
            assert(longer.last() == byte);
            assert(digits_value(longer) == 10 * value + digit);
            lemma_prefix_value(digits, i - start + 1);
        }
        let tens: usize = match value.checked_mul(10) {
            Some(tens) => tens,
            None => {
                return None;
            },
        };
        value = match tens.checked_add(digit) {
            Some(sum) => sum,
            None => {
                return None;
            },
        };
        i += 1;
    }
    assert(digits.take(len - start) =~= digits);
    Some(value)
}

/// A command line with fewer than two or more than three arguments behind
/// the program's name is refused, whatever the arguments are.
pub proof fn law_argument_count(args: Seq<Seq<char>>)
    requires
        args.len() != 3,
        args.len() != 4,
    ensures
        invocation_of(args) == Err::<(Seq<char>, Seq<char>, usize), PurgeError>(
            PurgeError::Argument,
        ),
{
}

/// Reads a command line, the program's name included.
pub fn parse_invocation(args: &Vec<String>) -> (parsed: Result<Invocation, PurgeError>)
    ensures
        invocation_view(parsed) == invocation_of(args_view(args@)),
{
    let count: usize = args.len();
    if count != 3 && count != 4 {
        return Err(PurgeError::Argument);
    }
    let skip: usize = if count == 4 {
        match parse_skip(args[3].as_str().as_bytes()) {
            Some(skip) => skip,
            None => {
                return Err(PurgeError::Argument);
            },
        }
    } else {
        0
    };
    Ok(Invocation { store_url: args[1].clone(), file: args[2].clone(), skip })
}

} // verus!
