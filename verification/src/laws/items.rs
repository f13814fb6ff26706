//! What the operations on booleans, strings, arrays and objects do, element by element.
use ijson::IValue;
use vstd::prelude::*;
use vstd::utf8::encode_utf8;

use crate::error::Error;
use crate::json::{type_of, Json, Num, SelectValueType};
use crate::laws::model::{law_position, lemma_encode_concat};
use crate::ops::{
    add_member, append_items, append_text, clear_value, cleared, insert_items, item_popped,
    items_appended, items_inserted, items_trimmed, member_added, pop_item, text_appended, toggle,
    toggled, trim_items,
};
use crate::values::{json, jsons};

verus! {

// ---------------------------------------------------------------------------------------------
// The wrong kind of value

/// An operation that is for another kind of value names both kinds and changes nothing.
pub proof fn law_wrong_kind(
    t: Json,
    text: Seq<char>,
    args: Seq<Json>,
    index: int,
    stop: int,
)
    ensures
        !(t is Bool) ==> toggled(t) == (
            t,
            Err::<bool, Error>(
                Error::WrongType { expected: SelectValueType::Bool, found: type_of(t) },
            ),
        ),
        !(t is String) ==> text_appended(t, text) == (
            t,
            Err::<usize, Error>(
                Error::WrongType { expected: SelectValueType::String, found: type_of(t) },
            ),
        ),
        !(t is Array) ==> {
            let wrong = Error::WrongType { expected: SelectValueType::Array, found: type_of(t) };
            &&& items_appended(t, args) == (t, Err::<usize, Error>(wrong))
            &&& items_inserted(t, args, index) == (t, Err::<usize, Error>(wrong))
            &&& item_popped(t, index) == (t, Err::<Option<Json>, Error>(wrong))
            &&& items_trimmed(t, index, stop) == (t, Err::<usize, Error>(wrong))
        },
{
}

// ---------------------------------------------------------------------------------------------
// Booleans and strings

/// A boolean is turned over, and its new value returned.
pub proof fn law_toggled(b: bool)
    ensures
        toggled(Json::Bool(b)) == (Json::Bool(!b), Ok::<bool, Error>(!b)),
{
}

/// The characters of a text come after those of the string; the bytes of both together are
/// returned. At 2^48 bytes and above this is refused, and nothing changes.
pub proof fn law_appended_text(s: Seq<char>, text: Seq<char>)
    ensures
        ({
            let bytes = encode_utf8(s).len() + encode_utf8(text).len();
            let after = text_appended(Json::String(s), text);
            if bytes < 281_474_976_710_656 {
                &&& after.0 matches Json::String(joined)
                &&& joined.len() == s.len() + text.len()
                &&& forall|i: int| 0 <= i < s.len() ==> #[trigger] joined[i] == s[i]
                &&& forall|i: int|
                    0 <= i < text.len() ==> joined[s.len() + i] == #[trigger] text[i]
                &&& bytes <= usize::MAX ==> after.1 == Ok::<usize, Error>(bytes as usize)
                &&& after.1 is Ok
            } else {
                after == (Json::String(s), Err::<usize, Error>(Error::StringTooLong))
            }
        }),
{
    lemma_encode_concat(s, text);
}

// ---------------------------------------------------------------------------------------------
// Arrays

/// What is appended comes after the elements, in its order, and the new length is returned.
pub proof fn law_appended_items(es: Seq<Json>, args: Seq<Json>)
    ensures
        ({
            let after = items_appended(Json::Array(es), args);
            &&& after.0 matches Json::Array(us)
            &&& us.len() == es.len() + args.len()
            &&& forall|i: int| 0 <= i < es.len() ==> #[trigger] us[i] == es[i]
            &&& forall|k: int| 0 <= k < args.len() ==> us[es.len() + k] == #[trigger] args[k]
            &&& after.1 is Ok
            &&& es.len() + args.len() <= usize::MAX ==> after.1 == Ok::<usize, Error>(
                (es.len() + args.len()) as usize,
            )
        }),
{
}

/// Appending in turn is appending all at once.
pub proof fn law_append_items_in_turn(es: Seq<Json>, a: Seq<Json>, b: Seq<Json>)
    ensures
        items_appended(items_appended(Json::Array(es), a).0, b).0 == items_appended(
            Json::Array(es),
            a + b,
        ).0,
{
    assert((es + a) + b =~= es + (a + b));
}

/// What is inserted stands from the index on, in its order; the elements before the index stay,
/// and those from it on follow. The new length is returned.
pub proof fn law_inserted_items(es: Seq<Json>, args: Seq<Json>, index: int)
    requires
        0 <= index <= es.len(),
    ensures
        ({
            let after = items_inserted(Json::Array(es), args, index);
            &&& after.0 matches Json::Array(us)
            &&& us.len() == es.len() + args.len()
            &&& forall|i: int| 0 <= i < index ==> #[trigger] us[i] == es[i]
            &&& forall|k: int| 0 <= k < args.len() ==> us[index + k] == #[trigger] args[k]
            &&& forall|i: int| index <= i < es.len() ==> us[args.len() + i] == #[trigger] es[i]
            &&& after.1 is Ok
            &&& es.len() + args.len() <= usize::MAX ==> after.1 == Ok::<usize, Error>(
                (es.len() + args.len()) as usize,
            )
        }),
{
}

/// Inserting two lists at once is inserting the second and then the first, at the same index.
pub proof fn law_insert_in_turn(es: Seq<Json>, a: Seq<Json>, b: Seq<Json>, index: int)
    requires
        0 <= index <= es.len(),
    ensures
        items_inserted(items_inserted(Json::Array(es), b, index).0, a, index).0 == items_inserted(
            Json::Array(es),
            a + b,
            index,
        ).0,
{
    law_inserted_items(es, b, index);
    let mid = items_inserted(Json::Array(es), b, index).0->Array_0;
    law_inserted_items(mid, a, index);
    law_inserted_items(es, a + b, index);
    let left = items_inserted(Json::Array(mid), a, index).0->Array_0;
    let right = items_inserted(Json::Array(es), a + b, index).0->Array_0;
    assert(left =~= right);
}

/// A negative index counts from the end; outside the array nothing is inserted.
pub proof fn law_insert_index(es: Seq<Json>, args: Seq<Json>, index: int)
    ensures
        -es.len() <= index < 0 ==> items_inserted(Json::Array(es), args, index) == items_inserted(
            Json::Array(es),
            args,
            es.len() + index,
        ),
        index < -es.len() || index > es.len() ==> items_inserted(Json::Array(es), args, index) == (
            Json::Array(es),
            Err::<usize, Error>(Error::IndexOutOfBounds),
        ),
{
}

/// The element at the index is taken out and returned; those before it stay, and those after it
/// move up by one.
pub proof fn law_popped_item(es: Seq<Json>, index: int)
    requires
        0 <= index < es.len(),
    ensures
        ({
            let after = item_popped(Json::Array(es), index);
            &&& after.1 == Ok::<Option<Json>, Error>(Some(es[index]))
            &&& after.0 matches Json::Array(us)
            &&& us.len() == es.len() - 1
            &&& forall|i: int| 0 <= i < index ==> #[trigger] us[i] == es[i]
            &&& forall|i: int| index <= i < us.len() ==> #[trigger] us[i] == es[i + 1]
        }),
{
}

/// A negative index counts from the end, one outside the array is that of the nearest element, and
/// an empty array has nothing to give.
pub proof fn law_pop_index(es: Seq<Json>, index: int)
    ensures
        -es.len() <= index < 0 ==> item_popped(Json::Array(es), index) == item_popped(
            Json::Array(es),
            es.len() + index,
        ),
        es.len() > 0 && index >= es.len() ==> item_popped(Json::Array(es), index) == item_popped(
            Json::Array(es),
            es.len() - 1,
        ),
        es.len() > 0 && index < -es.len() ==> item_popped(Json::Array(es), index) == item_popped(
            Json::Array(es),
            0,
        ),
        es.len() == 0 ==> item_popped(Json::Array(es), index) == (
            Json::Array(es),
            Ok::<Option<Json>, Error>(None),
        ),
{
}

/// Trimming leaves the elements from the start to the stop, both included, in their order, and
/// returns how many.
pub proof fn law_trimmed_items(es: Seq<Json>, start: int, stop: int)
    requires
        0 <= start <= stop < es.len(),
    ensures
        ({
            let after = items_trimmed(Json::Array(es), start, stop);
            &&& after.0 matches Json::Array(us)
            &&& us.len() == stop - start + 1
            &&& forall|k: int| 0 <= k < us.len() ==> #[trigger] us[k] == es[start + k]
            &&& after.1 is Ok
            &&& stop - start + 1 <= usize::MAX ==> after.1 == Ok::<usize, Error>(
                (stop - start + 1) as usize,
            )
        }),
{
}

/// Nothing is left where the start is after the stop, at the end or after it, and of nothing.
pub proof fn law_trimmed_to_nothing(es: Seq<Json>, start: int, stop: int)
    requires
        es.len() == 0 || start >= es.len() || (0 <= stop < start),
    ensures
        items_trimmed(Json::Array(es), start, stop) == (
            Json::Array(Seq::<Json>::empty()),
            Ok::<usize, Error>(0),
        ),
{
}

/// A negative start or stop counts from the end, whatever the other is.
pub proof fn law_trim_from_the_end(es: Seq<Json>, start: int, stop: int)
    ensures
        -es.len() <= start < 0 ==> items_trimmed(Json::Array(es), start, stop) == items_trimmed(
            Json::Array(es),
            es.len() + start,
            stop,
        ),
        -es.len() <= stop < 0 ==> items_trimmed(Json::Array(es), start, stop) == items_trimmed(
            Json::Array(es),
            start,
            es.len() + stop,
        ),
        -es.len() <= start < 0 && -es.len() <= stop < 0 ==> items_trimmed(
            Json::Array(es),
            start,
            stop,
        ) == items_trimmed(Json::Array(es), es.len() + start, es.len() + stop),
{
}

/// A start before the first element is that of the first, and a stop outside the array is that of
/// the nearest element.
pub proof fn law_trim_outside(es: Seq<Json>, start: int, stop: int)
    requires
        es.len() > 0,
    ensures
        start < -es.len() ==> items_trimmed(Json::Array(es), start, stop) == items_trimmed(
            Json::Array(es),
            0,
            stop,
        ),
        stop >= es.len() ==> items_trimmed(Json::Array(es), start, stop) == items_trimmed(
            Json::Array(es),
            start,
            es.len() - 1,
        ),
        stop < -es.len() ==> items_trimmed(Json::Array(es), start, stop) == items_trimmed(
            Json::Array(es),
            start,
            0,
        ),
{
}

// ---------------------------------------------------------------------------------------------
// Objects, and values of every kind

/// A member is added last to an object in which no member has its key; nothing else is changed,
/// and what has the key, or is no object, is left as it is.
pub proof fn law_member_added(t: Json, key: Seq<char>, x: Json)
    ensures
        t matches Json::Object(ms) ==> {
            &&& (forall|i: int| 0 <= i < ms.len() ==> (#[trigger] ms[i]).0 != key) ==> {
                &&& member_added(t, key, x).1 == Ok::<bool, Error>(true)
                &&& member_added(t, key, x).0 matches Json::Object(us)
                &&& us.len() == ms.len() + 1
                &&& us[ms.len() as int] == (key, x)
                &&& forall|i: int| 0 <= i < ms.len() ==> #[trigger] us[i] == ms[i]
            }
            &&& (exists|i: int| 0 <= i < ms.len() && (#[trigger] ms[i]).0 == key) ==> member_added(
                t,
                key,
                x,
            ) == (t, Ok::<bool, Error>(false))
        },
        !(t is Object) ==> member_added(t, key, x) == (t, Ok::<bool, Error>(false)),
{
    if let Json::Object(ms) = t {
        law_position(ms, key);
    }
}

/// Containers are emptied and numbers set to zero, and count as one; anything else is left.
pub proof fn law_cleared(t: Json)
    ensures
        t is Object ==> cleared(t) == (
            Json::Object(Seq::<(Seq<char>, Json)>::empty()),
            Ok::<usize, Error>(1),
        ),
        t is Array ==> cleared(t) == (Json::Array(Seq::<Json>::empty()), Ok::<usize, Error>(1)),
        t is Number ==> cleared(t) == (Json::Number(Num::Integer(0)), Ok::<usize, Error>(1)),
        t is Null || t is Bool || t is String ==> cleared(t) == (t, Ok::<usize, Error>(0)),
{
}

// ---------------------------------------------------------------------------------------------
// Calls

/// Calls on booleans, strings, objects and values of every kind do what is said above.
pub proof fn law_value_calls(t: Json, text: &str, key: &str, x: IValue)
    ensures
        forall|v: &mut IValue, r: Result<bool, Error>| #[trigger]
            call_ensures(toggle, (v,), r) && json(*v) == t ==> (json(*final(v)), r) == toggled(t),
        forall|v: &mut IValue, r: Result<usize, Error>| #[trigger]
            call_ensures(append_text, (v, text), r) && json(*v) == t ==> (json(*final(v)), r)
                == text_appended(t, text@),
        forall|v: &mut IValue, r: Result<bool, Error>| #[trigger]
            call_ensures(add_member, (v, key, x), r) && json(*v) == t ==> (json(*final(v)), r)
                == member_added(t, key@, json(x)),
        forall|v: &mut IValue, r: Result<usize, Error>| #[trigger]
            call_ensures(clear_value, (v,), r) && json(*v) == t ==> (json(*final(v)), r)
                == cleared(t),
{
}

/// Calls on arrays do what is said above.
pub proof fn law_array_calls(t: Json, args: &[IValue], index: i64, stop: i64)
    ensures
        forall|v: &mut IValue, r: Result<usize, Error>| #[trigger]
            call_ensures(append_items, (v, args), r) && json(*v) == t ==> (json(*final(v)), r)
                == items_appended(t, jsons(args@)),
        forall|v: &mut IValue, r: Result<usize, Error>| #[trigger]
            call_ensures(insert_items, (v, args, index), r) && json(*v) == t ==> (
            json(*final(v)), r) == items_inserted(t, jsons(args@), index as int),
        forall|v: &mut IValue, r: Result<Option<IValue>, Error>| #[trigger]
            call_ensures(pop_item, (v, index), r) && json(*v) == t ==> {
                &&& json(*final(v)) == item_popped(t, index as int).0
                &&& match r {
                    Ok(None) => item_popped(t, index as int).1 == Ok::<Option<Json>, Error>(None),
                    Ok(Some(x)) => item_popped(t, index as int).1 == Ok::<Option<Json>, Error>(
                        Some(json(x)),
                    ),
                    Err(e) => item_popped(t, index as int).1 == Err::<Option<Json>, Error>(e),
                }
            },
        forall|v: &mut IValue, r: Result<usize, Error>| #[trigger]
            call_ensures(trim_items, (v, index, stop), r) && json(*v) == t ==> (json(*final(v)), r)
                == items_trimmed(t, index as int, stop as int),
{
}

}
