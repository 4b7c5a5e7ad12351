//! The reports command: the permissions report needs API version 4.

use vstd::prelude::*;
use crate::errors::DcCmdError;
use crate::text::{chars_of, lemma_split_nonempty, split, split_chars, views};

verus! {

/// The value of a string of decimal digits.
pub open spec fn digits_value(ds: Seq<char>) -> nat
    decreases ds.len(),
{
    if ds.len() == 0 {
        0
    } else {
        digits_value(ds.drop_last()) * 10 + ((ds.last() as u32) - ('0' as u32)) as nat
    }
}

pub open spec fn is_digit(c: char) -> bool {
    '0' <= c && c <= '9'
}

/// Whether every character is a decimal digit.
pub open spec fn all_digits(ds: Seq<char>) -> bool {
    forall|i: int| 0 <= i < ds.len() ==> is_digit(#[trigger] ds[i])
}

/// The digits of a number text: without a leading `+`.
pub open spec fn u8_digits(s: Seq<char>) -> Seq<char> {
    if s.len() > 0 && s[0] == '+' {
        s.drop_first()
    } else {
        s
    }
}

/// `str::parse::<u8>`: an optional `+`, then at least one decimal digit, with
/// a value of at most 255.
pub open spec fn parse_u8_spec(s: Seq<char>) -> Option<u8> {
    let ds = u8_digits(s);
    if ds.len() > 0 && all_digits(ds) && digits_value(ds) <= 255 {
        Some(digits_value(ds) as u8)
    } else {
        None
    }
}

/// Parses a `u8` (see `parse_u8_spec`).
pub fn parse_u8(s: &[char]) -> (r: Option<u8>)
    ensures
        r == parse_u8_spec(s@),
{
    let start: usize = if s.len() > 0 && s[0] == '+' {
        1
    } else {
        0
    };
    let ghost ds = u8_digits(s@);
    assert(ds =~= s@.subrange(start as int, s@.len() as int));
    if start >= s.len() {
        return None;
    }
    let mut value: u32 = 0;
    let mut i: usize = start;
    assert(ds.subrange(0, 0) =~= Seq::<char>::empty());
    while i < s.len()
        invariant
            start <= i <= s.len(),
            start < s.len(),
            ds =~= s@.subrange(start as int, s@.len() as int),
            ds == u8_digits(s@),
            forall|k: int| 0 <= k < i - start ==> is_digit(#[trigger] ds[k]),
            value == digits_value(ds.subrange(0, i - start)),
            value <= 255,
        decreases s.len() - i,
    {
        let c = s[i];
        if !('0' <= c && c <= '9') {
            assert(!is_digit(ds[i - start]));
            assert(!all_digits(ds));
            return None;
        }
        assert(ds.subrange(0, i - start + 1).drop_last() =~= ds.subrange(0, i - start));
        assert(ds.subrange(0, i - start + 1).last() == c);
        let d = (c as u32) - ('0' as u32);
        assert(d <= 9);
        value = value * 10 + d;
        if value > 255 {
            proof {
                if all_digits(ds) {
                    lemma_digits_value_prefix(ds, i - start + 1);
                    assert(digits_value(ds) > 255);
                }
            }
            return None;
        }
        i = i + 1;
    }
    assert(ds.subrange(0, ds.len() as int) =~= ds);
    Some(value as u8)
}

/// A prefix of digits has a value no larger than all of them.
proof fn lemma_digits_value_prefix(ds: Seq<char>, k: int)
    requires
        0 <= k <= ds.len(),
        forall|i: int| 0 <= i < ds.len() ==> is_digit(#[trigger] ds[i]),
    ensures
        digits_value(ds.subrange(0, k)) <= digits_value(ds),
    decreases ds.len() - k,
{
    if k < ds.len() {
        let next = ds.subrange(0, k + 1);
        assert(next.drop_last() =~= ds.subrange(0, k));
        assert(next.last() == ds[k]);
        assert(is_digit(ds[k]));
        lemma_digits_value_prefix(ds, k + 1);
    } else {
        assert(ds.subrange(0, k) =~= ds);
    }
}

/// The permissions report refuses an API whose major version (the text before
/// the first `.`) is a number above 4; anything else is accepted.
pub fn check_api_version(rest_api_version: &str) -> (r: Result<(), DcCmdError>)
    ensures
        (parse_u8_spec(split(rest_api_version@, '.')[0]) matches Some(n) && n > 4) ==> (r matches Err(
            DcCmdError::InvalidArgument(m),
        ) && m@ == "Permissions report is only available for API version 4.x (DRACOON Server)"@),
        !(parse_u8_spec(split(rest_api_version@, '.')[0]) matches Some(n) && n > 4) ==> r is Ok,
{
    let c = chars_of(rest_api_version);
    let parts = split_chars(c.as_slice(), '.');
    proof {
        lemma_split_nonempty(c@, '.');
    }
    assert(views(parts@)[0] == parts@[0]@);
    match parse_u8(parts[0].as_slice()) {
        Some(n) => {
            if n > 4 {
                return Err(DcCmdError::InvalidArgument(
                    "Permissions report is only available for API version 4.x (DRACOON Server)".to_owned(),
                ));
            }
            Ok(())
        },
        None => Ok(()),
    }
}

} // verus!
