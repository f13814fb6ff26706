//! What the library relies on from `ijson`: the value types, the names for what they hold, and
//! the calls that read and change them. None of this is proved here.
use ijson::{DestructuredMut, DestructuredRef, IArray, IObject, IString, IValue};
use vstd::layout::size_of;
use vstd::prelude::*;

use crate::json::{
    is_long, member, position, storable, swap_removed, with_member, Json, Members, Num,
};

verus! {

/// `ijson::IValue`: a JSON value.
#[verifier::external_type_specification]
#[verifier::external_body]
pub struct ExIValue(IValue);

/// `ijson::IArray`: the array that a value can be.
#[verifier::external_type_specification]
#[verifier::external_body]
pub struct ExIArray(IArray);

/// `ijson::IObject`: the object that a value can be.
#[verifier::external_type_specification]
#[verifier::external_body]
pub struct ExIObject(IObject);

/// The document that a value holds.
pub uninterp spec fn json(v: IValue) -> Json;

/// The elements that an array holds.
pub uninterp spec fn elements(a: IArray) -> Seq<Json>;

/// The members that an object holds, in the order in which it walks them.
pub uninterp spec fn members(o: IObject) -> Members;

/// The documents that a list of values holds.
pub open spec fn jsons(vs: Seq<IValue>) -> Seq<Json> {
    vs.map_values(|v: IValue| json(v))
}

// ---------------------------------------------------------------------------------------------
// Values

/// A value seen through a shared reference.
pub enum ValueRef<'a> {
    Null,
    Bool(bool),
    Number,
    String(&'a str),
    Array(&'a IArray),
    Object(&'a IObject),
}

/// A value seen through a unique reference: arrays and objects can be changed in place.
pub enum ValueMut<'a> {
    Null,
    Bool,
    Number,
    String,
    Array(&'a mut IArray),
    Object(&'a mut IObject),
}

/// `IValue::destructure_ref` gives the kind of a value and a reference to what it holds.
/// A string comes as the text that `IString::as_str` lends.
#[verifier::external_body]
pub(crate) fn destructure_ref(v: &IValue) -> (r: ValueRef<'_>)
    ensures
        match r {
            ValueRef::Null => json(*v) is Null,
            ValueRef::Bool(b) => json(*v) == Json::Bool(b),
            ValueRef::Number => json(*v) is Number,
            ValueRef::String(s) => json(*v) == Json::String(s@),
            ValueRef::Array(a) => json(*v) == Json::Array(elements(*a)),
            ValueRef::Object(o) => json(*v) == Json::Object(members(*o)),
        },
{
    match v.destructure_ref() {
        DestructuredRef::Null => ValueRef::Null,
        DestructuredRef::Bool(b) => ValueRef::Bool(b),
        DestructuredRef::Number(_) => ValueRef::Number,
        DestructuredRef::String(s) => ValueRef::String(s.as_str()),
        DestructuredRef::Array(a) => ValueRef::Array(a),
        DestructuredRef::Object(o) => ValueRef::Object(o),
    }
}

/// `IValue::destructure_mut` gives the kind of a value and, for an array or an object, a
/// reference through which the value itself is changed. Any other value stays as it is.
#[verifier::external_body]
pub(crate) fn destructure_mut(v: &mut IValue) -> (r: ValueMut<'_>)
    ensures
        match r {
            ValueMut::Null => json(*old(v)) is Null && *final(v) == *old(v),
            ValueMut::Bool => json(*old(v)) is Bool && *final(v) == *old(v),
            ValueMut::Number => json(*old(v)) is Number && *final(v) == *old(v),
            ValueMut::String => json(*old(v)) is String && *final(v) == *old(v),
            ValueMut::Array(a) => {
                &&& json(*old(v)) == Json::Array(elements(*a))
                &&& json(*final(v)) == Json::Array(elements(*final(a)))
            },
            ValueMut::Object(o) => {
                &&& json(*old(v)) == Json::Object(members(*o))
                &&& json(*final(v)) == Json::Object(members(*final(o)))
            },
        },
{
    match v.destructure_mut() {
        DestructuredMut::Null => ValueMut::Null,
        DestructuredMut::Bool(_) => ValueMut::Bool,
        DestructuredMut::Number(_) => ValueMut::Number,
        DestructuredMut::String(_) => ValueMut::String,
        DestructuredMut::Array(a) => ValueMut::Array(a),
        DestructuredMut::Object(o) => ValueMut::Object(o),
    }
}

/// `IValue::clone` gives a value that holds the same document.
#[verifier::external_body]
pub(crate) fn clone_value(v: &IValue) -> (r: IValue)
    ensures
        json(r) == json(*v),
{
    v.clone()
}

/// `IValue::NULL` is the null value.
#[verifier::external_body]
pub(crate) fn null_value() -> (r: IValue)
    ensures
        json(r) == Json::Null,
{
    IValue::NULL
}

/// `IValue::from` on a `bool` gives the boolean value.
#[verifier::external_body]
pub(crate) fn bool_value(b: bool) -> (r: IValue)
    ensures
        json(r) == Json::Bool(b),
{
    IValue::from(b)
}

/// `IValue::from` on an `i64` gives the integer, without a decimal point.
#[verifier::external_body]
pub(crate) fn integer_value(i: i64) -> (r: IValue)
    ensures
        json(r) == Json::Number(Num::Integer(i as int)),
{
    IValue::from(i)
}

/// `IString::intern` makes a string of the given text; the value is that string. It asserts that
/// the text is below 2^48 bytes.
#[verifier::external_body]
pub(crate) fn string_value(s: &str) -> (r: IValue)
    requires
        storable(s@),
    ensures
        json(r) == Json::String(s@),
{
    IValue::from(IString::intern(s))
}

/// `IObject::new` gives an object without members; the value is that object.
#[verifier::external_body]
pub(crate) fn empty_object_value() -> (r: IValue)
    ensures
        json(r) == Json::Object(Seq::empty()),
{
    IValue::from(IObject::new())
}

/// `INumber::has_decimal_point` tells a double from an integer; for a value that is no number
/// there is no answer.
#[verifier::external_body]
pub(crate) fn has_decimal_point(v: &IValue) -> (r: Option<bool>)
    ensures
        r == match json(*v) {
            Json::Number(Num::Integer(_)) => Some(false),
            Json::Number(Num::Double(_)) => Some(true),
            _ => None,
        },
{
    v.as_number().map(|n| n.has_decimal_point())
}

/// `IValue::to_i64` gives an integer where an `i64` can hold it, and nothing for a value that is
/// no number. It is not asked of a double.
#[verifier::external_body]
pub(crate) fn to_i64(v: &IValue) -> (r: Option<i64>)
    requires
        !(json(*v) matches Json::Number(Num::Double(_))),
    ensures
        match json(*v) {
            Json::Number(Num::Integer(i)) => match r {
                Some(x) => is_long(i) && x == i,
                None => !is_long(i),
            },
            _ => r is None,
        },
{
    v.to_i64()
}

/// The bit pattern of the double that `IValue::to_f64_lossy` converts an integer to.
pub uninterp spec fn nearest_double(i: int) -> u64;

/// `IValue::to_f64_lossy` gives a double as it is and converts an integer, for every number; it
/// gives nothing for any other value. The double comes as its bit pattern.
#[verifier::external_body]
pub(crate) fn to_double_bits(v: &IValue) -> (r: Option<u64>)
    ensures
        r == match json(*v) {
            Json::Number(Num::Integer(i)) => Some(nearest_double(i)),
            Json::Number(Num::Double(bits)) => Some(bits),
            _ => None,
        },
{
    v.to_f64_lossy().map(|d| d.to_bits())
}

// ---------------------------------------------------------------------------------------------
// Arrays

/// `IArray::len` counts the elements.
#[verifier::external_body]
pub(crate) fn array_len(a: &IArray) -> (r: usize)
    ensures
        r == elements(*a).len(),
{
    a.len()
}

/// `IArray::capacity` gives the number of elements for which room is allocated: at least as many
/// as there are, and no more than one allocation of a word each can hold. What it is between
/// these is up to how the array came to be, and not stated.
#[verifier::external_body]
pub(crate) fn array_capacity(a: &IArray) -> (r: usize)
    ensures
        r >= elements(*a).len(),
        size_of::<usize>() * r <= isize::MAX,
{
    a.capacity()
}

/// An array lends its elements as a slice; the slice's `get` gives the element at an index.
#[verifier::external_body]
pub(crate) fn array_get(a: &IArray, i: usize) -> (r: Option<&IValue>)
    ensures
        match r {
            Some(v) => i < elements(*a).len() && json(*v) == elements(*a)[i as int],
            None => i >= elements(*a).len(),
        },
{
    a.get(i)
}

/// An array lends its elements as a slice; the slice's `get_mut` gives the element at an index,
/// to be changed in place.
#[verifier::external_body]
pub(crate) fn array_get_mut(a: &mut IArray, i: usize) -> (r: Option<&mut IValue>)
    ensures
        match r {
            Some(v) => {
                &&& i < elements(*old(a)).len()
                &&& json(*v) == elements(*old(a))[i as int]
                &&& elements(*final(a)) == elements(*old(a)).update(i as int, json(*final(v)))
            },
            None => i >= elements(*old(a)).len() && *final(a) == *old(a),
        },
{
    a.get_mut(i)
}

/// `IArray::push` adds an element at the end.
#[verifier::external_body]
pub(crate) fn array_push(a: &mut IArray, v: IValue)
    ensures
        elements(*final(a)) == elements(*old(a)).push(json(v)),
{
    a.push(v)
}

/// `IArray::extend` makes room for all the values at once and adds a copy of each at the end, as
/// `IValue::clone` gives it. How much room there is then is not stated.
#[verifier::external_body]
pub(crate) fn array_extend(a: &mut IArray, args: &[IValue])
    ensures
        elements(*final(a)) == elements(*old(a)) + jsons(args@),
{
    a.extend(args.iter().map(IValue::clone))
}

/// `IArray::remove` takes the element at an index out and closes the gap; outside the bounds it
/// gives nothing and changes nothing.
#[verifier::external_body]
pub(crate) fn array_remove(a: &mut IArray, i: usize) -> (r: Option<IValue>)
    ensures
        match r {
            Some(v) => {
                &&& i < elements(*old(a)).len()
                &&& json(v) == elements(*old(a))[i as int]
                &&& elements(*final(a)) == elements(*old(a)).remove(i as int)
            },
            None => i >= elements(*old(a)).len() && *final(a) == *old(a),
        },
{
    a.remove(i)
}

/// `rotate_right` of the slice of elements from `from` on: the last `k` of them come first.
#[verifier::external_body]
pub(crate) fn array_rotate_right_from(a: &mut IArray, from: usize, k: usize)
    requires
        from + k <= elements(*old(a)).len(),
    ensures
        ({
            let es = elements(*old(a));
            elements(*final(a)) == es.take(from as int) + es.skip(es.len() - k) + es.subrange(
                from as int,
                es.len() - k,
            )
        }),
{
    a.as_mut_slice()[from..].rotate_right(k)
}

/// `rotate_left` of the slice of all elements: the first `k` of them come last.
#[verifier::external_body]
pub(crate) fn array_rotate_left(a: &mut IArray, k: usize)
    requires
        k <= elements(*old(a)).len(),
    ensures
        elements(*final(a)) == elements(*old(a)).skip(k as int) + elements(*old(a)).take(k as int),
{
    a.rotate_left(k)
}

/// `IArray::truncate` keeps the first `n` elements, or all where there are no more.
#[verifier::external_body]
pub(crate) fn array_truncate(a: &mut IArray, n: usize)
    ensures
        elements(*final(a)) == if n < elements(*old(a)).len() {
            elements(*old(a)).take(n as int)
        } else {
            elements(*old(a))
        },
{
    a.truncate(n)
}

/// `IArray::clear` removes every element.
#[verifier::external_body]
pub(crate) fn array_clear(a: &mut IArray)
    ensures
        elements(*final(a)) == Seq::<Json>::empty(),
{
    a.clear()
}

// ---------------------------------------------------------------------------------------------
// Objects

/// `IObject::capacity` gives the number of members for which room is allocated: at least as many
/// as there are, and no more than one allocation of three words each can hold. What it is between
/// these is up to how the object came to be, and not stated.
#[verifier::external_body]
pub(crate) fn object_capacity(o: &IObject) -> (r: usize)
    ensures
        r >= members(*o).len(),
        size_of::<usize>() * (r * 3) <= isize::MAX,
{
    o.capacity()
}

/// `IObject::iter` walks the members; each comes as its key's text and a reference to its value.
#[verifier::external_body]
pub(crate) fn object_members(o: &IObject) -> (r: Vec<(&str, &IValue)>)
    ensures
        r@.len() == members(*o).len(),
        forall|i: int|
            0 <= i < r@.len() ==> (#[trigger] r@[i]).0@ == members(*o)[i].0 && json(*r@[i].1)
                == members(*o)[i].1,
{
    o.iter().map(|(k, v)| (k.as_str(), v)).collect()
}

/// `IObject::iter_mut` walks the members, and `IValue::take` moves each value out and leaves null.
/// Each member comes as its key's text and its value. Keys are strings, so each is storable.
#[verifier::external_body]
pub(crate) fn object_take_members(o: &mut IObject) -> (r: Vec<(String, IValue)>)
    ensures
        r@.len() == members(*old(o)).len(),
        forall|i: int|
            0 <= i < r@.len() ==> {
                &&& (#[trigger] r@[i]).0@ == members(*old(o))[i].0
                &&& json(r@[i].1) == members(*old(o))[i].1
                &&& storable(r@[i].0@)
            },
        members(*final(o)) == members(*old(o)).map_values(|m: (Seq<char>, Json)| (m.0, Json::Null)),
{
    o.iter_mut().map(|(k, v)| (k.as_str().to_string(), v.take())).collect()
}

/// `IObject::get` gives the value under a key. It interns the key, as `string_value` does.
#[verifier::external_body]
pub(crate) fn object_get<'a>(o: &'a IObject, key: &str) -> (r: Option<&'a IValue>)
    requires
        storable(key@),
    ensures
        match r {
            Some(v) => member(members(*o), key@) == Some(json(*v)),
            None => member(members(*o), key@) is None,
        },
{
    o.get(key)
}

/// `IObject::get_mut` gives the value under a key, to be changed in place. It interns the key, as
/// `string_value` does.
#[verifier::external_body]
pub(crate) fn object_get_mut<'a>(o: &'a mut IObject, key: &str) -> (r: Option<&'a mut IValue>)
    requires
        storable(key@),
    ensures
        match r {
            Some(v) => {
                &&& position(members(*old(o)), key@) matches Some(i)
                &&& json(*v) == members(*old(o))[i].1
                &&& members(*final(o)) == members(*old(o)).update(i, (key@, json(*final(v))))
            },
            None => position(members(*old(o)), key@) is None && *final(o) == *old(o),
        },
{
    o.get_mut(key)
}

/// `IObject::contains_key` tells whether a key is there. It interns the key, as `string_value`
/// does.
#[verifier::external_body]
pub(crate) fn object_contains_key(o: &IObject, key: &str) -> (r: bool)
    requires
        storable(key@),
    ensures
        r == (member(members(*o), key@) is Some),
{
    o.contains_key(key)
}

/// `IObject::insert` sets the value under a key: in place where the key is there, as a new last
/// member where it is not. It interns the key, as `string_value` does.
#[verifier::external_body]
pub(crate) fn object_insert(o: &mut IObject, key: &str, v: IValue) -> (r: Option<IValue>)
    requires
        storable(key@),
    ensures
        members(*final(o)) == with_member(members(*old(o)), key@, json(v)),
        match r {
            Some(x) => member(members(*old(o)), key@) == Some(json(x)),
            None => member(members(*old(o)), key@) is None,
        },
{
    o.insert(key, v)
}

/// `IObject::entry` with `or_insert` gives the value under a key, to be changed in place; where
/// the key is not there it first adds `default` under it, as a new last member. It interns the
/// key, as `string_value` does.
#[verifier::external_body]
pub(crate) fn object_entry_or_insert<'a>(
    o: &'a mut IObject,
    key: &str,
    default: IValue,
) -> (r: &'a mut IValue)
    requires
        storable(key@),
    ensures
        json(*r) == match member(members(*old(o)), key@) {
            Some(x) => x,
            None => json(default),
        },
        members(*final(o)) == with_member(members(*old(o)), key@, json(*final(r))),
{
    o.entry(key).or_insert(default)
}

/// `IObject::remove` takes the member with a key out; the last member takes its place. Where the
/// key is not there it gives nothing and changes nothing. It interns the key, as `string_value`
/// does.
#[verifier::external_body]
pub(crate) fn object_remove(o: &mut IObject, key: &str) -> (r: Option<IValue>)
    requires
        storable(key@),
    ensures
        match r {
            Some(v) => {
                &&& position(members(*old(o)), key@) matches Some(i)
                &&& json(v) == members(*old(o))[i].1
                &&& members(*final(o)) == swap_removed(members(*old(o)), i)
            },
            None => position(members(*old(o)), key@) is None && *final(o) == *old(o),
        },
{
    o.remove(key)
}

/// `IObject::clear` removes every member.
#[verifier::external_body]
pub(crate) fn object_clear(o: &mut IObject)
    ensures
        members(*final(o)) == Seq::<(Seq<char>, Json)>::empty(),
{
    o.clear()
}

}
