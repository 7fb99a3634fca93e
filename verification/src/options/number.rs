//! Reading decimal numbers given on the command line or in the environment.

use vstd::prelude::*;

use crate::options::error::NumberError;

verus! {

/// Whether a byte is an ASCII decimal digit.
pub open spec fn is_digit(c: u8) -> bool {
    48 <= c <= 57
}

/// Reading the digits `d[i..]`, given the value `acc` of the digits before
/// them: digits are read left to right, and the first byte that is not a
/// digit, or the first digit that takes the value past `usize::MAX`, is an
/// error.
pub open spec fn digits_from(d: Seq<u8>, i: int, acc: nat) -> Result<usize, NumberError>
    decreases d.len() - i,
{
    if i < 0 || i >= d.len() {
        Ok(acc as usize)
    } else if !is_digit(d[i]) {
        Err(NumberError::InvalidDigit)
    } else if acc * 10 + (d[i] - 48) > usize::MAX {
        Err(NumberError::Overflow)
    } else {
        digits_from(d, i + 1, (acc * 10 + (d[i] - 48)) as nat)
    }
}

/// What reading `s` as an unsigned decimal number gives: an optional
/// leading `+`, then one or more ASCII digits.
pub open spec fn spec_parse_usize(s: Seq<u8>) -> Result<usize, NumberError> {
    if s.len() == 0 {
        Err(NumberError::Empty)
    } else if s[0] == 43 {
        if s.len() == 1 {
            Err(NumberError::InvalidDigit)
        } else {
            digits_from(s, 1, 0)
        }
    } else {
        digits_from(s, 0, 0)
    }
}

/// Reads `s` as an unsigned decimal number, as `str::parse::<usize>` does.
pub fn parse_usize(s: &[u8]) -> (r: Result<usize, NumberError>)
    ensures
        r == spec_parse_usize(s@),
{
    if s.len() == 0 {
        return Err(NumberError::Empty);
    }
    let mut i: usize = 0;
    if s[0] == 43 {
        if s.len() == 1 {
            return Err(NumberError::InvalidDigit);
        }
        i = 1;
    }
    let ghost start = i as int;
    let mut acc: usize = 0;
    while i < s.len()
        invariant
            start == 0 || start == 1,
            start <= i <= s@.len(),
            spec_parse_usize(s@) == digits_from(s@, i as int, acc as nat),
        decreases s@.len() - i,
    {
        let c = s[i];
        if c < 48 || c > 57 {
            return Err(NumberError::InvalidDigit);
        }
        let v: usize = (c - 48) as usize;
        match acc.checked_mul(10) {
            None => {
                return Err(NumberError::Overflow);
            },
            Some(m) => match m.checked_add(v) {
                None => {
                    return Err(NumberError::Overflow);
                },
                Some(n) => {
                    acc = n;
                },
            },
        }
        i = i + 1;
    }
    Ok(acc)
}

} // verus!
