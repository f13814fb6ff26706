//! What each operation does to the one value that it is applied to.
use ijson::{IArray, IValue};
use vstd::prelude::*;

use crate::error::Error;
use crate::index::{nearest_index, normalize_arr_start_index};
use crate::json::{
    byte_len, is_long, member, storable, type_of, Json, Num, SelectValueType, STRING_LIMIT,
};
use crate::number::{calculate_integers, integer_result, NumOp, Number};
use crate::values::{
    array_clear, array_extend, array_len, array_push, array_remove, array_rotate_left,
    array_rotate_right_from, array_truncate, bool_value, clone_value, destructure_mut,
    destructure_ref, elements, has_decimal_point, integer_value, json, jsons, nearest_double,
    object_clear, object_contains_key, object_insert, string_value, to_double_bits, to_i64,
    ValueMut, ValueRef,
};

verus! {

/// The failure of an operation that is for another kind of value.
pub open spec fn wrong_type<T>(expected: SelectValueType, t: Json) -> Result<T, Error> {
    Err(Error::WrongType { expected, found: type_of(t) })
}

/// The kind of a value.
pub fn get_type(v: &IValue) -> (r: SelectValueType)
    ensures
        r == type_of(json(*v)),
{
    match destructure_ref(v) {
        ValueRef::Null => SelectValueType::Null,
        ValueRef::Bool(_) => SelectValueType::Bool,
        ValueRef::Number => match has_decimal_point(v) {
            Some(false) => match to_i64(v) {
                Some(_) => SelectValueType::Long,
                None => SelectValueType::Double,
            },
            _ => SelectValueType::Double,
        },
        ValueRef::String(_) => SelectValueType::String,
        ValueRef::Array(_) => SelectValueType::Array,
        ValueRef::Object(_) => SelectValueType::Object,
    }
}

// ---------------------------------------------------------------------------------------------
// Booleans and strings

/// A boolean turned over.
pub open spec fn toggled(t: Json) -> (Json, Result<bool, Error>) {
    match t {
        Json::Bool(b) => (Json::Bool(!b), Ok(!b)),
        _ => (t, wrong_type(SelectValueType::Bool, t)),
    }
}

/// Turns a boolean over and returns its new value.
pub fn toggle(v: &mut IValue) -> (r: Result<bool, Error>)
    ensures
        (json(*final(v)), r) == toggled(json(*old(v))),
{
    let current: Option<bool> = match destructure_ref(v) {
        ValueRef::Bool(b) => Some(b),
        _ => None,
    };
    match current {
        Some(b) => {
            *v = bool_value(!b);
            Ok(!b)
        },
        None => Err(Error::WrongType { expected: SelectValueType::Bool, found: get_type(v) }),
    }
}

/// A string with `text` at its end, and its length in bytes.
pub open spec fn text_appended(t: Json, text: Seq<char>) -> (Json, Result<usize, Error>) {
    match t {
        Json::String(s) => if storable(s + text) {
            (Json::String(s + text), Ok(byte_len(s + text) as usize))
        } else {
            (t, Err(Error::StringTooLong))
        },
        _ => (t, wrong_type(SelectValueType::String, t)),
    }
}

/// Appends `text` to a string and returns the length of the result in bytes.
pub fn append_text(v: &mut IValue, text: &str) -> (r: Result<usize, Error>)
    ensures
        (json(*final(v)), r) == text_appended(json(*old(v)), text@),
{
    let current: Option<String> = match destructure_ref(v) {
        ValueRef::String(s) => Some(s.to_owned()),
        _ => None,
    };
    match current {
        Some(s) => {
            let mut joined: String = s;
            joined.append(text);
            let len: usize = joined.as_str().as_bytes().len();
            if len as u64 >= STRING_LIMIT {
                return Err(Error::StringTooLong);
            }
            *v = string_value(joined.as_str());
            Ok(len)
        },
        None => Err(Error::WrongType { expected: SelectValueType::String, found: get_type(v) }),
    }
}

// ---------------------------------------------------------------------------------------------
// Arrays

/// Pushes a copy of each value onto an array.
fn push_all(array: &mut IArray, args: &[IValue])
    ensures
        elements(*final(array)) == elements(*old(array)) + jsons(args@),
{
    let mut i: usize = 0;
    proof {
        assert(elements(*array) + jsons(args@).take(0) =~= elements(*array));
    }
    while i < args.len()
        invariant
            i <= args@.len(),
            elements(*array) == elements(*old(array)) + jsons(args@).take(i as int),
        decreases args@.len() - i,
    {
        array_push(array, clone_value(&args[i]));
        i = i + 1;
        proof {
            assert(elements(*array) =~= elements(*old(array)) + jsons(args@).take(i as int));
        }
    }
    proof {
        assert(jsons(args@).take(i as int) =~= jsons(args@));
    }
}

/// An array with `args` at its end, and its length.
pub open spec fn items_appended(t: Json, args: Seq<Json>) -> (Json, Result<usize, Error>) {
    match t {
        Json::Array(es) => (Json::Array(es + args), Ok((es + args).len() as usize)),
        _ => (t, wrong_type(SelectValueType::Array, t)),
    }
}

/// Appends a copy of each value to an array and returns the new length.
pub fn append_items(v: &mut IValue, args: &[IValue]) -> (r: Result<usize, Error>)
    ensures
        (json(*final(v)), r) == items_appended(json(*old(v)), jsons(args@)),
{
    let found: SelectValueType = get_type(v);
    match destructure_mut(v) {
        ValueMut::Array(array) => {
            push_all(array, args);
            Ok(array_len(array))
        },
        _ => Err(Error::WrongType { expected: SelectValueType::Array, found }),
    }
}

/// Where a relative index points in an array of `len` elements; from the end if it is negative.
pub open spec fn absolute_index(index: int, len: int) -> int {
    if index < 0 {
        len + index
    } else {
        index
    }
}

/// An array with `args` before the element at `index`, and its length. The index may also be
/// that of the end.
pub open spec fn items_inserted(t: Json, args: Seq<Json>, index: int) -> (
    Json,
    Result<usize, Error>,
) {
    match t {
        Json::Array(es) => {
            let at = absolute_index(index, es.len() as int);
            if 0 <= at <= es.len() {
                (
                    Json::Array(es.take(at) + args + es.skip(at)),
                    Ok((es.len() + args.len()) as usize),
                )
            } else {
                (t, Err(Error::IndexOutOfBounds))
            }
        },
        _ => (t, wrong_type(SelectValueType::Array, t)),
    }
}

/// Inserts a copy of each value into an array and returns the new length.
pub fn insert_items(v: &mut IValue, args: &[IValue], index: i64) -> (r: Result<usize, Error>)
    ensures
        (json(*final(v)), r) == items_inserted(json(*old(v)), jsons(args@), index as int),
{
    let found: SelectValueType = get_type(v);
    match destructure_mut(v) {
        ValueMut::Array(array) => {
            let ghost es = elements(*array);
            // Verify legal index in bounds
            let len: i128 = array_len(array) as i128;
            let index: i128 = if index < 0 {
                len + index as i128
            } else {
                index as i128
            };
            if index < 0 || index > len {
                return Err(Error::IndexOutOfBounds);
            }
            array_extend(array, args);
            let ghost all = elements(*array);
            array_rotate_right_from(array, index as usize, args.len());
            proof {
                let at = index as int;
                assert(all.take(at) =~= es.take(at));
                assert(all.skip(all.len() - args@.len()) =~= jsons(args@));
                assert(all.subrange(at, all.len() - args@.len()) =~= es.skip(at));
            }
            Ok(array_len(array))
        },
        _ => Err(Error::WrongType { expected: SelectValueType::Array, found }),
    }
}

/// An array without the element at `index`, and that element. An index outside the array is
/// moved to the nearest element; an empty array has none to give.
pub open spec fn item_popped(t: Json, index: int) -> (Json, Result<Option<Json>, Error>) {
    match t {
        Json::Array(es) => if es.len() == 0 {
            (t, Ok(None))
        } else {
            let at = nearest_index(index, es.len() as int);
            (Json::Array(es.remove(at)), Ok(Some(es[at])))
        },
        _ => (t, wrong_type(SelectValueType::Array, t)),
    }
}

/// The documents that an optional value holds.
pub open spec fn optional_json(v: Option<IValue>) -> Option<Json> {
    match v {
        Some(x) => Some(json(x)),
        None => None,
    }
}

/// Takes an element out of an array.
pub fn pop_item(v: &mut IValue, index: i64) -> (r: Result<Option<IValue>, Error>)
    ensures
        json(*final(v)) == item_popped(json(*old(v)), index as int).0,
        match r {
            Ok(x) => item_popped(json(*old(v)), index as int).1 == Ok::<Option<Json>, Error>(
                optional_json(x),
            ),
            Err(e) => item_popped(json(*old(v)), index as int).1 == Err::<Option<Json>, Error>(e),
        },
{
    let found: SelectValueType = get_type(v);
    match destructure_mut(v) {
        ValueMut::Array(array) => {
            let len: usize = array_len(array);
            if len == 0 {
                return Ok(None);
            }
            // Verify legal index in bounds
            let index: usize = normalize_arr_start_index(index, len);
            Ok(array_remove(array, index))
        },
        _ => Err(Error::WrongType { expected: SelectValueType::Array, found }),
    }
}

/// The elements from `start` to `stop`, both included. Either is moved to the nearest element,
/// but nothing is at or after a start beyond the end.
pub open spec fn elements_between(es: Seq<Json>, start: int, stop: int) -> Seq<Json> {
    let len = es.len() as int;
    let first = nearest_index(start, len);
    let last = nearest_index(stop, len);
    if len == 0 || start >= len || first > last {
        Seq::empty()
    } else {
        es.subrange(first, last + 1)
    }
}

/// An array cut down to its elements from `start` to `stop`, and its length.
pub open spec fn items_trimmed(t: Json, start: int, stop: int) -> (Json, Result<usize, Error>) {
    match t {
        Json::Array(es) => (
            Json::Array(elements_between(es, start, stop)),
            Ok(elements_between(es, start, stop).len() as usize),
        ),
        _ => (t, wrong_type(SelectValueType::Array, t)),
    }
}

/// Cuts an array down to its elements from `start` to `stop` and returns the new length.
pub fn trim_items(v: &mut IValue, start: i64, stop: i64) -> (r: Result<usize, Error>)
    ensures
        (json(*final(v)), r) == items_trimmed(json(*old(v)), start as int, stop as int),
{
    let found: SelectValueType = get_type(v);
    match destructure_mut(v) {
        ValueMut::Array(array) => {
            let ghost es = elements(*array);
            let len: usize = array_len(array);
            let last: usize = normalize_arr_start_index(stop, len);
            let first: usize = normalize_arr_start_index(start, len);
            let (from, count): (usize, usize) = if len == 0 || start as i128 >= len as i128 || first
                > last {
                (0, 0)  // Return an empty array
            } else {
                (first, last - first + 1)
            };
            array_rotate_left(array, from);
            let ghost rotated = elements(*array);
            array_truncate(array, count);
            proof {
                assert(elements(*array) =~= rotated.take(count as int));
                assert(rotated.take(count as int) =~= elements_between(
                    es,
                    start as int,
                    stop as int,
                ));
            }
            Ok(array_len(array))
        },
        _ => Err(Error::WrongType { expected: SelectValueType::Array, found }),
    }
}

// ---------------------------------------------------------------------------------------------
// Objects, and values of every kind

/// An object with one more member, unless it has the key already. Nothing else gets a member.
pub open spec fn member_added(t: Json, key: Seq<char>, x: Json) -> (Json, Result<bool, Error>) {
    match t {
        Json::Object(ms) => if member(ms, key) is Some {
            (t, Ok(false))
        } else {
            (Json::Object(ms.push((key, x))), Ok(true))
        },
        _ => (t, Ok(false)),
    }
}

/// Adds a member to an object that does not have the key yet, and tells whether it did.
pub fn add_member(v: &mut IValue, key: &str, x: IValue) -> (r: Result<bool, Error>)
    requires
        storable(key@),
    ensures
        (json(*final(v)), r) == member_added(json(*old(v)), key@, json(x)),
{
    match destructure_mut(v) {
        ValueMut::Object(o) => {
            let missing: bool = !object_contains_key(o, key);
            if missing {
                object_insert(o, key, x);
            }
            Ok(missing)
        },
        _ => Ok(false),
    }
}

/// A container emptied, a number set to zero; the count of values that were cleared.
pub open spec fn cleared(t: Json) -> (Json, Result<usize, Error>) {
    match t {
        Json::Object(_) => (Json::Object(Seq::empty()), Ok(1)),
        Json::Array(_) => (Json::Array(Seq::empty()), Ok(1)),
        Json::Number(_) => (Json::Number(Num::Integer(0)), Ok(1)),
        _ => (t, Ok(0)),
    }
}

/// Empties a container or sets a number to zero, and returns how many values were cleared.
pub fn clear_value(v: &mut IValue) -> (r: Result<usize, Error>)
    ensures
        (json(*final(v)), r) == cleared(json(*old(v))),
{
    let is_number: bool = match destructure_mut(v) {
        ValueMut::Object(o) => {
            object_clear(o);
            return Ok(1);
        },
        ValueMut::Array(a) => {
            array_clear(a);
            return Ok(1);
        },
        ValueMut::Number => true,
        _ => false,
    };
    if is_number {
        *v = integer_value(0);
        Ok(1)
    } else {
        Ok(0)
    }
}

// ---------------------------------------------------------------------------------------------
// Numbers

/// The bit pattern of a number's value as a double.
pub open spec fn double_of(n: Num) -> u64 {
    match n {
        Num::Integer(i) => nearest_double(i),
        Num::Double(bits) => bits,
    }
}

/// The number that a value is returned as: an integer that fits an `i64`, or a double.
pub open spec fn number_of(j: Json) -> Option<Number> {
    match j {
        Json::Number(Num::Integer(i)) => if is_long(i) {
            Some(Number::Int(i as i64))
        } else {
            None
        },
        Json::Number(Num::Double(bits)) => Some(Number::Double(bits)),
        _ => None,
    }
}

/// The number that a value is returned as.
pub fn to_number(v: &IValue) -> (r: Option<Number>)
    ensures
        r == number_of(json(*v)),
{
    match has_decimal_point(v) {
        Some(true) => match to_double_bits(v) {
            Some(bits) => Some(Number::Double(bits)),
            None => None,
        },
        Some(false) => match to_i64(v) {
            Some(i) => Some(Number::Int(i)),
            None => None,
        },
        None => None,
    }
}

/// A value replaced by the result of double arithmetic; where there is no result, nothing
/// changes. The result is returned as a number.
pub open spec fn double_stored(t: Json, result: Option<Json>) -> (Json, Result<Number, Error>) {
    match result {
        Some(x) => (
            x,
            match number_of(x) {
                Some(n) => Ok(n),
                None => Err(Error::NotANumber),
            },
        ),
        None => (t, Err(Error::NotANumber)),
    }
}

/// Replaces a value by the result of double arithmetic and returns that as a number.
pub fn store_double(v: &mut IValue, result: Option<IValue>) -> (r: Result<Number, Error>)
    ensures
        (json(*final(v)), r) == double_stored(json(*old(v)), optional_json(result)),
{
    match result {
        Some(new_val) => {
            *v = clone_value(&new_val);
            match to_number(&new_val) {
                Some(n) => Ok(n),
                None => Err(Error::NotANumber),
            }
        },
        None => Err(Error::NotANumber),
    }
}

/// What arithmetic on the number `t` with an operand came to: integer arithmetic where both are
/// integers that fit an `i64`, double arithmetic otherwise.
pub open spec fn calculated<F2>(
    op: NumOp,
    op2_fun: F2,
    long: Option<i64>,
    double: u64,
    t: Num,
    after: Json,
    r: Result<Number, Error>,
) -> bool where F2: FnOnce(u64, u64) -> Option<IValue> {
    match (t, long) {
        (Num::Integer(i), Some(num2)) if is_long(i) => {
            let res = integer_result(op, i, num2 as int);
            &&& after == Json::Number(Num::Integer(res))
            &&& r == Ok::<Number, Error>(Number::Int(res as i64))
        },
        _ => exists|res: Option<IValue>|
            {
                &&& #[trigger] call_ensures(op2_fun, (double_of(t), double), res)
                &&& (after, r) == double_stored(Json::Number(t), optional_json(res))
            },
    }
}

/// Calculates with a number and an operand, stores the result in the number's place and returns
/// it.
///
/// `op2_fun` is the double arithmetic: it takes the bit patterns of both numbers and gives the
/// result as a value, or nothing where it is not finite.
pub fn calculate<F2>(
    v: &mut IValue,
    long: Option<i64>,
    double: u64,
    op: NumOp,
    op2_fun: F2,
) -> (r: Result<Number, Error>) where F2: FnOnce(u64, u64) -> Option<IValue>
    requires
        json(*old(v)) is Number,
        forall|a: u64, b: u64| #[trigger] call_requires(op2_fun, (a, b)),
    ensures
        calculated(op, op2_fun, long, double, json(*old(v))->Number_0, json(*final(v)), r),
{
    let num1: Option<i64> = match get_type(v) {
        SelectValueType::Long => to_i64(v),
        _ => None,
    };
    match (num1, long) {
        (Some(num1), Some(num2)) => {
            let res: i64 = calculate_integers(op, num1, num2);
            *v = integer_value(res);
            Ok(Number::Int(res))
        },
        _ => {
            let bits: u64 = match to_double_bits(v) {
                Some(bits) => bits,
                None => 0,
            };
            let res: Option<IValue> = op2_fun(bits, double);
            store_double(v, res)
        },
    }
}

}
