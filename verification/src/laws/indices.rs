//! What holds of the indices that path tokens denote, and of indices that count from the end.
use vstd::prelude::*;

use crate::index::{nearest_index, normalize_arr_start_index, parse_index};
use crate::json::{array_index, digits_value, index_digits, lookup, put, Json};
use crate::laws::model::law_step_into_array;

verus! {

/// The decimal digits of a number.
pub open spec fn numeral(n: nat) -> Seq<char>
    decreases n,
{
    if n < 10 {
        seq![digit(n)]
    } else {
        numeral(n / 10).push(digit(n % 10))
    }
}

/// The digit for a number below ten.
pub open spec fn digit(d: nat) -> char {
    (('0' as u32) + d) as char
}

/// A single digit denotes its number.
pub proof fn law_single_digit(c: char)
    requires
        '0' <= c <= '9',
    ensures
        array_index(seq![c]) == Some((c as u32 - '0' as u32) as nat),
{
    let token = seq![c];
    assert(token[0] == c);
    assert(index_digits(token) == token);
    assert(token.drop_last() =~= Seq::<char>::empty());
    assert(token.last() == c);
    reveal_with_fuel(digits_value, 3);
    assert(digits_value(Seq::<char>::empty()) == Some(0nat));
}

/// A digit after an index denotes ten times that index and the digit, where a `usize` can hold it;
/// where it cannot, and after a text that denotes none, there is no index.
pub proof fn law_one_more_digit(token: Seq<char>, c: char)
    requires
        token.len() > 0,
        token[0] == '+' ==> token.len() > 1,
        '0' <= c <= '9',
    ensures
        match array_index(token) {
            Some(n) => if 10 * n + (c as u32 - '0' as u32) <= usize::MAX {
                array_index(token.push(c)) == Some((10 * n + (c as u32 - '0' as u32)) as nat)
            } else {
                array_index(token.push(c)) is None
            },
            None => array_index(token.push(c)) is None,
        },
{
    let longer = token.push(c);
    assert(longer[0] == token[0]);
    let digits = index_digits(token);
    assert(index_digits(longer) =~= digits.push(c));
    assert(digits.push(c).drop_last() =~= digits);
    assert(digits.push(c).last() == c);
}

/// A plus sign before an index changes nothing; alone, or before another, it denotes none.
pub proof fn law_plus_sign(token: Seq<char>)
    ensures
        token.len() > 0 && token[0] != '+' ==> array_index(seq!['+'] + token) == array_index(token),
        token.len() > 0 && token[0] == '+' ==> array_index(seq!['+'] + token) is None,
        array_index(seq!['+']) is None,
        array_index(Seq::empty()) is None,
{
    let signed = seq!['+'] + token;
    assert(signed[0] == '+');
    assert(signed.drop_first() =~= token);
    assert(seq!['+'][0] == '+');
    assert(seq!['+'].drop_first().len() == 0);
    if token.len() > 0 && token[0] == '+' {
        lemma_all_digits(token);
    }
}

/// An index is written with digits alone, after at most one plus sign.
pub proof fn law_index_is_digits(token: Seq<char>, i: int)
    requires
        array_index(token) is Some,
        0 <= i < token.len(),
    ensures
        '0' <= token[i] <= '9' || (i == 0 && token[0] == '+' && token.len() > 1),
{
    let digits = index_digits(token);
    lemma_all_digits(digits);
    if token[0] == '+' {
        if i > 0 {
            assert(digits[i - 1] == token[i]);
        }
    }
}

proof fn lemma_all_digits(s: Seq<char>)
    ensures
        digits_value(s) is Some <==> forall|i: int| 0 <= i < s.len() ==> '0' <= #[trigger] s[i]
            <= '9',
    decreases s.len(),
{
    if s.len() > 0 {
        lemma_all_digits(s.drop_last());
        if digits_value(s) is Some {
            assert forall|i: int| 0 <= i < s.len() implies '0' <= #[trigger] s[i] <= '9' by {
                if i < s.len() - 1 {
                    assert(s.drop_last()[i] == s[i]);
                }
            }
        }
        if forall|i: int| 0 <= i < s.len() ==> '0' <= #[trigger] s[i] <= '9' {
            assert forall|i: int| 0 <= i < s.drop_last().len() implies '0'
                <= #[trigger] s.drop_last()[i] <= '9' by {
                assert(s.drop_last()[i] == s[i]);
            }
            assert('0' <= s[s.len() - 1] <= '9');
        }
    }
}

/// The digits of a number denote that number.
pub proof fn law_numeral(n: nat)
    requires
        n <= usize::MAX,
    ensures
        array_index(numeral(n)) == Some(n),
        numeral(n).len() > 0,
        '0' <= numeral(n)[0] <= '9',
    decreases n,
{
    if n < 10 {
        lemma_digit(n);
        law_single_digit(digit(n));
        assert(numeral(n)[0] == digit(n));
    } else {
        law_numeral(n / 10);
        lemma_digit(n % 10);
        law_one_more_digit(numeral(n / 10), digit(n % 10));
        assert(numeral(n)[0] == numeral(n / 10)[0]);
    }
}

proof fn lemma_digit(d: nat)
    requires
        d < 10,
    ensures
        '0' <= digit(d) <= '9',
        digit(d) as u32 - '0' as u32 == d,
{
    assert(('0' as u32) == 48);
    assert(48 + d <= 0x7f);
}

/// Each element of an array is reached by the digits of its index: it is read there, and what is
/// put there takes its place alone.
pub proof fn law_elements_by_numeral(es: Seq<Json>, i: nat, x: Json)
    requires
        i < es.len(),
        i <= usize::MAX,
    ensures
        lookup(Json::Array(es), seq![numeral(i)]) == Some(es[i as int]),
        put(Json::Array(es), seq![numeral(i)], x) == Json::Array(es.update(i as int, x)),
{
    law_numeral(i);
    law_step_into_array(es, numeral(i), x);
    let us = put(Json::Array(es), seq![numeral(i)], x)->Array_0;
    assert(us =~= es.update(i as int, x));
}

/// A call of `parse_index` on the digits of a number gives that number, with or without a plus
/// sign.
pub proof fn law_parse_index_call(token: &str, n: nat, r: Option<usize>)
    requires
        call_ensures(parse_index, (token,), r),
    ensures
        n <= usize::MAX && (token@ == numeral(n) || token@ == seq!['+'] + numeral(n)) ==> r == Some(
            n as usize,
        ),
        match r {
            Some(i) => array_index(token@) == Some(i as nat),
            None => array_index(token@) is None,
        },
{
    if n <= usize::MAX {
        law_numeral(n);
        law_plus_sign(numeral(n));
    }
}

// ---------------------------------------------------------------------------------------------
// Relative indices

/// A relative index names an element where there is one: itself where it is inside the array, the
/// one that is as far from the end where it is negative, and the nearest where it is outside.
pub proof fn law_nearest_index(index: int, len: int)
    requires
        0 <= len,
    ensures
        len == 0 ==> nearest_index(index, len) == 0,
        len > 0 ==> 0 <= nearest_index(index, len) < len,
        0 <= index < len ==> nearest_index(index, len) == index,
        -len <= index < 0 ==> nearest_index(index, len) == index + len,
        len > 0 && index >= len ==> nearest_index(index, len) == len - 1,
        index < -len ==> nearest_index(index, len) == 0,
{
}

/// A call of `normalize_arr_start_index` resolves a relative index.
pub proof fn law_normalize_call(index: i64, len: usize, r: usize)
    requires
        call_ensures(normalize_arr_start_index, (index, len), r),
    ensures
        len == 0 ==> r == 0,
        0 <= index < len ==> r == index,
        -len <= index < 0 ==> r == index + len,
        len > 0 && index >= len ==> r == len - 1,
        index < -len ==> r == 0,
{
}

}
