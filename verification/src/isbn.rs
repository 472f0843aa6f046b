//! ISBN-13 validation.
//!
//! An ISBN-13 is written as thirteen decimal digits, usually interspersed
//! with hyphens. The first twelve digits determine the thirteenth, the check
//! digit: each digit is weighted alternately 1 and 3 (starting with 1), the
//! weighted digits are summed, and the check digit is what brings the sum up
//! to the next multiple of 10.

use vstd::prelude::*;

verus! {

/// Whether a character is a decimal digit, `'0'` through `'9'`.
pub open spec fn is_decimal_digit(c: char) -> bool {
    48 <= c as u32 <= 57
}

/// The numeric value of a decimal digit character.
pub open spec fn digit_value(c: char) -> u8 {
    (c as u32 - 48) as u8
}

/// The decimal digits of a string, in order, with all other characters
/// dropped.
pub open spec fn digit_seq(s: Seq<char>) -> Seq<u8>
    decreases s.len(),
{
    if s.len() == 0 {
        Seq::empty()
    } else {
        let rest = digit_seq(s.drop_last());
        if is_decimal_digit(s.last()) {
            rest.push(digit_value(s.last()))
        } else {
            rest
        }
    }
}

/// The ISBN-13 weighted sum: each digit times 1 at even positions and 3 at
/// odd positions (counting from 0).
pub open spec fn weighted_sum(digits: Seq<u8>) -> nat
    decreases digits.len(),
{
    if digits.len() == 0 {
        0
    } else {
        weighted_sum(digits.drop_last()) + (digits.last() as nat) * (if (digits.len() - 1) % 2 == 0 {
            1nat
        } else {
            3nat
        })
    }
}

/// The check digit owed to a sequence of digits: what brings the weighted
/// sum up to the next multiple of 10.
pub open spec fn check_digit(digits: Seq<u8>) -> u8 {
    if weighted_sum(digits) % 10 == 0 {
        0
    } else {
        (10 - weighted_sum(digits) % 10) as u8
    }
}

/// Why a string was rejected as an ISBN-13: it does not hold exactly
/// thirteen decimal digits, or its last digit is not the check digit owed to
/// the first twelve.
#[derive(Clone, Copy, Debug, PartialEq, Eq, Structural)]
pub enum IsbnError {
    InvalidLength,
    InvalidCheckDigit,
}

/// The error returned when a string fails ISBN-13 validation.
#[derive(Clone, Copy, Debug, PartialEq, Eq, Structural)]
pub struct Error {
    pub error: IsbnError,
}

impl From<IsbnError> for Error {
    fn from(error: IsbnError) -> (r: Error) {
        Error { error }
    }
}

impl vstd::std_specs::convert::FromSpecImpl<IsbnError> for Error {
    open spec fn obeys_from_spec() -> bool {
        true
    }

    open spec fn from_spec(error: IsbnError) -> Error {
        Error { error }
    }
}

impl Error {
    /// A short description of the error, suitable for display.
    pub fn message(&self) -> (m: &'static str)
        ensures
            self.error is InvalidLength ==> m@ == "Invalid length"@,
            self.error is InvalidCheckDigit ==> m@ == "Invalid check digit"@,
    {
        match self.error {
            IsbnError::InvalidLength => "Invalid length",
            IsbnError::InvalidCheckDigit => "Invalid check digit",
        }
    }
}

/// A validated ISBN-13: the text it was read from, and the thirteen decimal
/// digits found in it, whose last digit is the check digit owed to the
/// first twelve.
#[derive(Debug)]
pub struct Isbn {
    /// The text the ISBN was read from, hyphens and all.
    pub raw: String,
    /// The thirteen decimal digits of `raw`, in order.
    pub digits: Vec<u8>,
}

impl Isbn {
    /// Read an ISBN-13 from text. Every decimal digit of the text counts,
    /// wherever it stands; all other characters (hyphens, spaces) are
    /// ignored. The text is accepted exactly when it holds thirteen digits
    /// and the thirteenth is the check digit owed to the first twelve.
    pub fn from_str(s: &str) -> (r: Result<Isbn, Error>)
        ensures
            ({
                let ds = digit_seq(s@);
                match r {
                    Ok(isbn) => ds.len() == 13 && ds[12] == check_digit(ds.take(12))
                        && isbn.raw@ == s@ && isbn.digits@ == ds,
                    Err(e) => match e.error {
                        IsbnError::InvalidLength => ds.len() != 13,
                        IsbnError::InvalidCheckDigit => ds.len() == 13 && ds[12] != check_digit(
                            ds.take(12),
                        ),
                    },
                }
            }),
    {
        let raw = s.to_owned();
        let mut digits: Vec<u8> = Vec::new();
        let n = s.unicode_len();
        let mut i: usize = 0;
        while i < n
            invariant
                i <= n,
                n == s@.len(),
                digits@ == digit_seq(s@.take(i as int)),
            decreases n - i,
        {
            let c = s.get_char(i);
            proof {
                assert(s@.take(i + 1).drop_last() =~= s@.take(i as int));
                assert(s@.take(i + 1).last() == s@[i as int]);
            }
            let u = c as u32;
            if 48 <= u && u <= 57 {
                digits.push((u - 48) as u8);
            }
            i = i + 1;
        }
        assert(s@.take(n as int) =~= s@);

        if digits.len() != 13 {
            return Err(Error::from(IsbnError::InvalidLength));
        }

        let head = vstd::slice::slice_subrange(digits.as_slice(), 0, 12);
        assert(head@ =~= digit_seq(s@).take(12));
        let check = calculate_check_digit(head);
        if check != digits[12] {
            return Err(Error::from(IsbnError::InvalidCheckDigit));
        }

        Ok(Isbn { raw, digits })
    }
}

/// Compute the ISBN-13 check digit for a sequence of digits (for a full
/// ISBN-13, the first twelve): the weighted sum of the digits is taken
/// modulo 10, and the check digit is its distance to the next multiple of
/// 10, with 10 itself folded to 0.
pub fn calculate_check_digit(digits: &[u8]) -> (check: u8)
    ensures
        check == check_digit(digits@),
        check <= 9,
{
    let mut sum: u32 = 0;
    let mut i: usize = 0;
    while i < digits.len()
        invariant
            i <= digits@.len(),
            sum == weighted_sum(digits@.take(i as int)) % 10,
        decreases digits@.len() - i,
    {
        let weight: u32 = if i % 2 == 0 {
            1
        } else {
            3
        };
        let term: u32 = (digits[i] as u32) * weight;
        proof {
            assert(digits@.take(i + 1).drop_last() =~= digits@.take(i as int));
            assert(digits@.take(i + 1).last() == digits@[i as int]);
            vstd::arithmetic::div_mod::lemma_add_mod_noop_right(
                term as int,
                weighted_sum(digits@.take(i as int)) as int,
                10,
            );
        }
        sum = (sum + term) % 10;
        i = i + 1;
    }
    assert(digits@.take(digits@.len() as int) =~= digits@);
    let check: u32 = 10 - sum;
    if check == 10 {
        0
    } else {
        check as u8
    }
}

} // verus!
