//! Indices into arrays: how a path token is read as one, and how a relative index is resolved.
use vstd::prelude::*;

use crate::json::{array_index, digits_value, index_digits};

verus! {

/// The start of a text that denotes a number denotes a number that is no greater.
proof fn lemma_digits_prefix(s: Seq<char>, n: int)
    requires
        0 <= n <= s.len(),
        digits_value(s) is Some,
    ensures
        digits_value(s.take(n)) is Some,
        digits_value(s.take(n))->0 <= digits_value(s)->0,
    decreases s.len(),
{
    if n == s.len() {
        assert(s.take(n) =~= s);
    } else {
        lemma_digits_prefix(s.drop_last(), n);
        assert(s.drop_last().take(n) =~= s.take(n));
    }
}

/// Every character of a text that denotes a number is a digit.
proof fn lemma_digits_all(s: Seq<char>, i: int)
    requires
        0 <= i < s.len(),
        digits_value(s) is Some,
    ensures
        '0' <= s[i] && s[i] <= '9',
{
    lemma_digits_prefix(s, i + 1);
    assert(s.take(i + 1).last() == s[i]);
}

/// Reads a path token as an array index.
pub fn parse_index(token: &str) -> (r: Option<usize>)
    ensures
        match r {
            Some(i) => array_index(token@) == Some(i as nat),
            None => array_index(token@) is None,
        },
{
    broadcast use vstd::string::is_ascii_spec_bytes;

    if !token.is_ascii() {
        proof {
            if array_index(token@) is Some {
                let digits = index_digits(token@);
                assert forall|i: int| 0 <= i < token@.len() implies '\0' <= #[trigger] token@[i]
                    <= '\u{7f}' by {
                    if token@[0] == '+' {
                        if i > 0 {
                            lemma_digits_all(digits, i - 1);
                            assert(digits[i - 1] == token@[i]);
                        }
                    } else {
                        lemma_digits_all(digits, i);
                    }
                }
                assert(vstd::string::is_ascii(token));
            }
        }
        return None;
    }
    let bytes: &[u8] = token.as_bytes();
    let len: usize = bytes.len();
    let start: usize = if len > 0 && bytes[0] == 43 {
        1
    } else {
        0
    };
    let ghost digits = index_digits(token@);
    proof {
        assert(len == token@.len());
        assert(digits =~= token@.skip(start as int));
    }
    if start == len {
        return None;
    }
    let mut value: usize = 0;
    let mut i: usize = start;
    while i < len
        invariant
            start <= i <= len,
            len == bytes@.len(),
            len == token@.len(),
            start <= 1,
            digits == token@.skip(start as int),
            digits == index_digits(token@),
            bytes@ =~= Seq::new(token@.len(), |k: int| token@[k] as u8),
            vstd::utf8::is_ascii_chars(token@),
            digits_value(digits.take(i - start)) == Some(value as nat),
        decreases len - i,
    {
        let b: u8 = bytes[i];
        let ghost next = digits.take(i + 1 - start);
        proof {
            assert(next.drop_last() =~= digits.take(i - start));
            assert(next.last() == token@[i as int]);
            assert(b == token@[i as int] as u8);
            if array_index(token@) is Some {
                lemma_digits_prefix(digits, i + 1 - start);
            }
        }
        if b < 48 || b > 57 {
            return None;
        }
        value = match value.checked_mul(10) {
            Some(tens) => match tens.checked_add((b - 48) as usize) {
                Some(sum) => sum,
                None => {
                    return None;
                },
            },
            None => {
                return None;
            },
        };
        i = i + 1;
    }
    proof {
        assert(digits.take(len - start) =~= digits);
    }
    Some(value)
}

/// The element that a relative index names in an array of `len` elements: counted from the end
/// where it is negative, and moved to the nearest element where it is outside the array.
pub open spec fn nearest_index(index: int, len: int) -> int {
    if index < 0 {
        if len + index > 0 {
            len + index
        } else {
            0
        }
    } else if len == 0 {
        0
    } else if index < len {
        index
    } else {
        len - 1
    }
}

/// Resolves a relative index into an array of `len` elements.
pub fn normalize_arr_start_index(index: i64, len: usize) -> (r: usize)
    ensures
        r == nearest_index(index as int, len as int),
{
    let index: i128 = index as i128;
    let len: i128 = len as i128;
    let nearest: i128 = if index < 0 {
        if len + index > 0 {
            len + index
        } else {
            0
        }
    } else if len == 0 {
        0
    } else if index < len {
        index
    } else {
        len - 1
    };
    nearest as usize
}

}
