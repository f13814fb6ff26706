//! What holds of the operations on values at paths.
use ijson::IValue;
use vstd::arithmetic::div_mod::{lemma_fundamental_div_mod, lemma_mod_multiples_vanish};
use vstd::arithmetic::power::{lemma_pow1, pow};
use vstd::prelude::*;

use crate::error::Error;
use crate::holder::{at_path, calculable, num_op_applied};
use crate::index::nearest_index;
use crate::json::{
    is_long, lemma_position, lookup, member, position, put, storable, swap_removed, taken_out,
    well_formed, Json, Num,
};
use crate::laws::merging::lemma_with_member;
use crate::laws::paths::{
    law_lookup_well_formed, law_put_leaves_the_rest, law_put_then_lookup,
    law_put_then_lookup_below, law_put_twice, law_put_well_formed, part_ways,
};
use crate::number::{
    exponent_of, integer_result, lemma_wrapped_low_bits, low_bits, wrapped, NumOp, Number,
};
use crate::ops::{
    absolute_index, cleared, double_of, double_stored, elements_between, item_popped,
    items_appended, items_inserted, items_trimmed, member_added, number_of, optional_json,
    text_appended, toggled,
};
use crate::path::lemma_put_same;
use crate::text::InputView;
use crate::values::json;

verus! {

// ---------------------------------------------------------------------------------------------
// Every operation

/// An operation changes the value at its path as it changes a value alone, and leaves everything
/// that parts ways with the path.
pub proof fn law_operation_is_local<T>(
    doc: Json,
    path: Seq<Seq<char>>,
    op: spec_fn(Json) -> (Json, Result<T, Error>),
    other: Seq<Seq<char>>,
)
    ensures
        lookup(at_path(doc, path, op).0, path) == match lookup(doc, path) {
            Some(t) => Some(op(t).0),
            None => None,
        },
        part_ways(doc, path, other) ==> lookup(at_path(doc, path, op).0, other) == lookup(
            doc,
            other,
        ),
{
    if let Some(t) = lookup(doc, path) {
        law_put_then_lookup(doc, path, op(t).0);
        if part_ways(doc, path, other) {
            law_put_leaves_the_rest(doc, path, op(t).0, other);
        }
    }
}

/// Two operations on one path are one operation: the second goes on from what the first left.
pub proof fn law_operations_in_turn<T, U>(
    doc: Json,
    path: Seq<Seq<char>>,
    first: spec_fn(Json) -> (Json, Result<T, Error>),
    second: spec_fn(Json) -> (Json, Result<U, Error>),
)
    ensures
        at_path(at_path(doc, path, first).0, path, second) == at_path(
            doc,
            path,
            |t: Json| second(first(t).0),
        ),
{
    if let Some(t) = lookup(doc, path) {
        law_put_then_lookup(doc, path, first(t).0);
        law_put_twice(doc, path, first(t).0, second(first(t).0).0);
    }
}

/// An operation that keeps values well formed keeps documents well formed.
pub proof fn law_operation_well_formed<T>(
    doc: Json,
    path: Seq<Seq<char>>,
    op: spec_fn(Json) -> (Json, Result<T, Error>),
)
    requires
        well_formed(doc),
        forall|t: Json| well_formed(t) ==> well_formed((#[trigger] op(t)).0),
    ensures
        well_formed(at_path(doc, path, op).0),
{
    if let Some(t) = lookup(doc, path) {
        law_lookup_well_formed(doc, path);
        law_put_well_formed(doc, path, op(t).0);
    }
}

/// An operation that leaves a value when it fails leaves the document when it fails. It also
/// fails where nothing is at its path.
pub proof fn law_failure_changes_nothing<T>(
    doc: Json,
    path: Seq<Seq<char>>,
    op: spec_fn(Json) -> (Json, Result<T, Error>),
)
    requires
        forall|t: Json| (#[trigger] op(t)).1 is Err ==> op(t).0 == t,
    ensures
        at_path(doc, path, op).1 is Err ==> at_path(doc, path, op).0 == doc,
        lookup(doc, path) is None ==> at_path(doc, path, op).1 == Err::<T, Error>(
            Error::PathDoesntExist,
        ),
{
    if lookup(doc, path) is Some {
        lemma_put_same(doc, path);
    }
}

/// The operations on booleans, strings, arrays and objects leave a value when they fail.
pub proof fn law_failure_leaves_the_value(
    t: Json,
    text: Seq<char>,
    args: Seq<Json>,
    index: int,
    stop: int,
    key: Seq<char>,
    x: Json,
)
    ensures
        toggled(t).1 is Err ==> toggled(t).0 == t,
        text_appended(t, text).1 is Err ==> text_appended(t, text).0 == t,
        items_appended(t, args).1 is Err ==> items_appended(t, args).0 == t,
        items_inserted(t, args, index).1 is Err ==> items_inserted(t, args, index).0 == t,
        item_popped(t, index).1 is Err ==> item_popped(t, index).0 == t,
        items_trimmed(t, index, stop).1 is Err ==> items_trimmed(t, index, stop).0 == t,
        member_added(t, key, x).1 is Ok,
        cleared(t).1 is Ok,
{
}

/// The operations keep a value well formed when they are given well-formed values.
pub proof fn law_operations_keep_well_formed(
    t: Json,
    text: Seq<char>,
    args: Seq<Json>,
    index: int,
    stop: int,
    key: Seq<char>,
    x: Json,
)
    requires
        well_formed(t),
        forall|i: int| 0 <= i < args.len() ==> well_formed(#[trigger] args[i]),
        well_formed(x),
    ensures
        well_formed(toggled(t).0),
        well_formed(text_appended(t, text).0),
        well_formed(items_appended(t, args).0),
        well_formed(items_inserted(t, args, index).0),
        well_formed(item_popped(t, index).0),
        well_formed(items_trimmed(t, index, stop).0),
        well_formed(member_added(t, key, x).0),
        well_formed(cleared(t).0),
{
    match t {
        Json::Array(es) => {
            lemma_elements_well_formed(es + args, es, args);
            let at = absolute_index(index, es.len() as int);
            if 0 <= at <= es.len() {
                lemma_elements_well_formed(es.take(at) + args + es.skip(at), es, args);
            }
            if es.len() > 0 {
                lemma_elements_well_formed(es.remove(nearest_index(index, es.len() as int)), es, args);
            }
            lemma_elements_well_formed(elements_between(es, index, stop), es, args);
        },
        Json::Object(ms) => {
            lemma_position(ms, key);
            if member(ms, key) is None {
                lemma_with_member(ms, key, x);
                let after = ms.push((key, x));
                assert forall|i: int| 0 <= i < after.len() implies well_formed(
                    (#[trigger] after[i]).1,
                ) by {
                    if i < ms.len() {
                        assert(after[i] == ms[i]);
                    }
                }
            }
        },
        _ => {},
    }
}

/// Elements that all come from well-formed ones make a well-formed array.
proof fn lemma_elements_well_formed(after: Seq<Json>, es: Seq<Json>, args: Seq<Json>)
    requires
        forall|i: int| 0 <= i < es.len() ==> well_formed(#[trigger] es[i]),
        forall|i: int| 0 <= i < args.len() ==> well_formed(#[trigger] args[i]),
        forall|i: int|
            0 <= i < after.len() ==> es.contains(#[trigger] after[i]) || args.contains(after[i]),
    ensures
        well_formed(Json::Array(after)),
{
}

// ---------------------------------------------------------------------------------------------
// One operation after another

/// Turning a boolean over twice gives back the document, and the boolean.
pub proof fn law_toggle_twice(doc: Json, path: Seq<Seq<char>>)
    requires
        lookup(doc, path) matches Some(t) && t is Bool,
    ensures
        ({
            let once = at_path(doc, path, |t: Json| toggled(t)).0;
            at_path(once, path, |t: Json| toggled(t)) == (
                doc,
                Ok::<bool, Error>(lookup(doc, path)->0->Bool_0),
            )
        }),
{
    law_operations_in_turn(doc, path, |t: Json| toggled(t), |t: Json| toggled(t));
    lemma_put_same(doc, path);
}

/// Appending two texts in turn is appending both at once.
pub proof fn law_append_in_turn(s: Seq<char>, a: Seq<char>, b: Seq<char>)
    requires
        storable(s + a),
    ensures
        text_appended(text_appended(Json::String(s), a).0, b).1 == text_appended(
            Json::String(s),
            a + b,
        ).1,
        storable(s + a + b) ==> text_appended(text_appended(Json::String(s), a).0, b).0
            == text_appended(Json::String(s), a + b).0,
{
    assert((s + a) + b =~= s + (a + b));
}

/// Appending is inserting at the end.
pub proof fn law_append_is_insert_at_end(es: Seq<Json>, args: Seq<Json>)
    ensures
        items_inserted(Json::Array(es), args, es.len() as int) == items_appended(
            Json::Array(es),
            args,
        ),
{
    let n = es.len() as int;
    assert(es.take(n) + args + es.skip(n) =~= es + args);
}

/// Appending no element changes nothing, nor does inserting none.
pub proof fn law_nothing_to_add(es: Seq<Json>, index: int)
    ensures
        items_appended(Json::Array(es), Seq::empty()).0 == Json::Array(es),
        items_inserted(Json::Array(es), Seq::empty(), index).0 == Json::Array(es),
{
    assert(es + Seq::<Json>::empty() =~= es);
    let at = absolute_index(index, es.len() as int);
    if 0 <= at <= es.len() {
        assert(es.take(at) + Seq::<Json>::empty() + es.skip(at) =~= es);
    }
}

/// An element that was inserted is at its index, and popping it there gives back the array.
pub proof fn law_insert_then_pop(es: Seq<Json>, x: Json, index: int)
    requires
        0 <= index <= es.len(),
    ensures
        item_popped(items_inserted(Json::Array(es), seq![x], index).0, index) == (
            Json::Array(es),
            Ok::<Option<Json>, Error>(Some(x)),
        ),
{
    let more = es.take(index) + seq![x] + es.skip(index);
    assert(more[index] == x);
    assert(more.remove(index) =~= es);
}

/// The element that was appended last is popped from the end.
pub proof fn law_append_then_pop(es: Seq<Json>, x: Json)
    ensures
        item_popped(items_appended(Json::Array(es), seq![x]).0, -1) == (
            Json::Array(es),
            Ok::<Option<Json>, Error>(Some(x)),
        ),
{
    let more = es + seq![x];
    assert(more.remove(es.len() as int) =~= es);
}

/// An element that was popped can be inserted again where it was.
pub proof fn law_pop_then_insert(es: Seq<Json>, index: int)
    requires
        0 <= index < es.len(),
    ensures
        item_popped(Json::Array(es), index).1 == Ok::<Option<Json>, Error>(Some(es[index])),
        items_inserted(item_popped(Json::Array(es), index).0, seq![es[index]], index).0
            == Json::Array(es),
{
    let left = es.remove(index);
    assert(left.take(index) + seq![es[index]] + left.skip(index) =~= es);
}

/// A negative index counts from the end.
pub proof fn law_negative_index(es: Seq<Json>, args: Seq<Json>, index: int)
    requires
        -es.len() <= index < 0,
    ensures
        items_inserted(Json::Array(es), args, index) == items_inserted(
            Json::Array(es),
            args,
            es.len() + index,
        ),
        item_popped(Json::Array(es), index) == item_popped(Json::Array(es), es.len() + index),
{
}

/// Popping outside the array pops the element that is nearest.
pub proof fn law_pop_outside(es: Seq<Json>, index: int)
    requires
        es.len() > 0,
    ensures
        index >= es.len() ==> item_popped(Json::Array(es), index) == item_popped(
            Json::Array(es),
            es.len() - 1,
        ),
        index < -es.len() ==> item_popped(Json::Array(es), index) == item_popped(
            Json::Array(es),
            0,
        ),
{
}

/// Inserting is refused outside the array, and only there.
pub proof fn law_insert_outside(es: Seq<Json>, args: Seq<Json>, index: int)
    ensures
        items_inserted(Json::Array(es), args, index).1 is Err <==> (index > es.len() || index
            < -es.len()),
        items_inserted(Json::Array(es), args, index).1 is Err ==> items_inserted(
            Json::Array(es),
            args,
            index,
        ).1 == Err::<usize, Error>(Error::IndexOutOfBounds),
{
}

/// Trimming to the whole array changes nothing.
pub proof fn law_trim_to_the_whole(es: Seq<Json>)
    ensures
        items_trimmed(Json::Array(es), 0, -1).0 == Json::Array(es),
{
    assert(elements_between(es, 0, -1) =~= es);
}

/// Trimming leaves elements that stood next to each other, and nothing where the start is after
/// the stop or after the end.
pub proof fn law_trim_leaves_a_range(es: Seq<Json>, start: int, stop: int)
    ensures
        exists|i: int, n: int|
            0 <= i <= n <= es.len() && elements_between(es, start, stop) == #[trigger] es.subrange(
                i,
                n,
            ),
        start >= es.len() ==> elements_between(es, start, stop).len() == 0,
        0 <= stop < start ==> elements_between(es, start, stop).len() == 0,
        0 <= start <= stop < es.len() ==> elements_between(es, start, stop) == es.subrange(
            start,
            stop + 1,
        ),
{
    let len = es.len() as int;
    let first = nearest_index(start, len);
    let last = nearest_index(stop, len);
    if len == 0 || start >= len || first > last {
        assert(es.subrange(0, 0) =~= elements_between(es, start, stop));
    } else {
        assert(es.subrange(first, last + 1) == elements_between(es, start, stop));
    }
}

/// What was cleared stays as it is when it is cleared again.
pub proof fn law_clear_twice(t: Json)
    ensures
        cleared(cleared(t).0).0 == cleared(t).0,
{
}

/// A member that was added is under its key, is not added again, and removing it gives back the
/// document.
pub proof fn law_added_member(
    doc: Json,
    path: Seq<Seq<char>>,
    key: Seq<char>,
    x: Json,
    y: Json,
)
    requires
        lookup(doc, path) matches Some(Json::Object(ms)) && member(ms, key) is None,
    ensures
        ({
            let after = at_path(doc, path, |t: Json| member_added(t, key, x));
            &&& after.1 == Ok::<bool, Error>(true)
            &&& lookup(after.0, path.push(key)) == Some(x)
            &&& at_path(after.0, path, |t: Json| member_added(t, key, y)) == (
                after.0,
                Ok::<bool, Error>(false),
            )
            &&& taken_out(after.0, path.push(key)) == Some(doc)
        }),
{
    let ms = lookup(doc, path)->0->Object_0;
    let more = ms.push((key, x));
    let after = put(doc, path, Json::Object(more));
    assert(at_path(doc, path, |t: Json| member_added(t, key, x)).0 == after);
    law_put_then_lookup(doc, path, Json::Object(more));
    lemma_put_same(after, path);
    assert(more.last() == (key, x));
    assert(position(more, key) == Some(ms.len() as int));
    law_put_then_lookup_below(doc, path, Json::Object(more), seq![key]);
    assert(path + seq![key] =~= path.push(key));
    assert(seq![key][0] == key);
    assert(lookup(x, seq![key].drop_first()) == Some(x));
    assert(path.push(key).drop_last() =~= path);
    assert(swap_removed(more, ms.len() as int) =~= ms);
    law_put_twice(doc, path, Json::Object(more), Json::Object(ms));
    lemma_put_same(doc, path);
}

// ---------------------------------------------------------------------------------------------
// Arithmetic

/// Integer arithmetic gives the exact result where an `i64` can hold it, and, for a power, a `u32`
/// the exponent. Whatever it gives fits an `i64`.
pub proof fn law_exact_where_it_fits(a: int, b: int)
    ensures
        is_long(a + b) ==> integer_result(NumOp::Incr, a, b) == a + b,
        is_long(a * b) ==> integer_result(NumOp::Mult, a, b) == a * b,
        0 <= b <= u32::MAX && is_long(pow(a, b as nat)) ==> integer_result(NumOp::Pow, a, b) == pow(
            a,
            b as nat,
        ),
        is_long(integer_result(NumOp::Incr, a, b)),
        is_long(integer_result(NumOp::Mult, a, b)),
        is_long(integer_result(NumOp::Pow, a, b)),
{
    lemma_wrapped_low_bits(a + b);
    lemma_wrapped_low_bits(a * b);
    lemma_wrapped_low_bits(pow(a, exponent_of(b)));
}

/// Adding a number and then its opposite gives back the number, also where the sum wraps around.
pub proof fn law_add_then_subtract(a: int, b: int)
    requires
        is_long(a),
    ensures
        integer_result(NumOp::Incr, integer_result(NumOp::Incr, a, b), -b) == a,
{
    let m: int = 0x1_0000_0000_0000_0000;
    let sum = wrapped(a + b);
    lemma_wrapped_low_bits(a + b);
    lemma_wrapped_low_bits(a);
    // The sum differs from the exact one by a multiple of 2^64.
    let q = (a + b) / m;
    assert(a + b == q * m + low_bits(a + b)) by {
        lemma_fundamental_div_mod(a + b, m);
    }
    if sum == low_bits(a + b) {
        assert(sum - b == m * (-q) + a) by (nonlinear_arith)
            requires
                a + b == q * m + sum,
        ;
        lemma_mod_multiples_vanish(-q, a, m);
    } else {
        assert(sum - b == m * (-q - 1) + a) by (nonlinear_arith)
            requires
                a + b == q * m + (sum + m),
        ;
        lemma_mod_multiples_vanish(-q - 1, a, m);
    }
    assert(low_bits(sum - b) == low_bits(a));
}

/// Adding zero, multiplying by one and raising to the first power change nothing.
pub proof fn law_neutral_operands(a: int)
    requires
        is_long(a),
    ensures
        integer_result(NumOp::Incr, a, 0) == a,
        integer_result(NumOp::Mult, a, 1) == a,
        integer_result(NumOp::Pow, a, 1) == a,
{
    lemma_wrapped_low_bits(a);
    lemma_pow1(a);
}

/// Arithmetic that fails changes nothing, where the double arithmetic gives numbers only.
pub proof fn law_failed_arithmetic<F2>(
    op: NumOp,
    op2_fun: F2,
    operand: InputView,
    doc: Option<Json>,
    path: Seq<Seq<char>>,
    after: Option<Json>,
    r: Result<Number, Error>,
) where F2: FnOnce(u64, u64) -> Option<IValue>
    requires
        calculable(doc, path, operand),
        num_op_applied(op, op2_fun, operand, doc, path, after, r),
        forall|a: u64, b: u64, v: IValue|
            #[trigger] call_ensures(op2_fun, (a, b), Some(v)) ==> number_of(json(v)) is Some,
        r is Err,
    ensures
        after == doc,
{
    if operand is Number && lookup(doc->0, path) is Some {
        lemma_put_same(doc->0, path);
    }
}

/// What arithmetic returns is the number that it leaves at the path.
pub proof fn law_arithmetic_returns_what_it_stores<F2>(
    op: NumOp,
    op2_fun: F2,
    operand: InputView,
    doc: Option<Json>,
    path: Seq<Seq<char>>,
    after: Option<Json>,
    r: Result<Number, Error>,
) where F2: FnOnce(u64, u64) -> Option<IValue>
    requires
        calculable(doc, path, operand),
        num_op_applied(op, op2_fun, operand, doc, path, after, r),
        r is Ok,
    ensures
        after is Some,
        lookup(after->0, path) matches Some(x) && number_of(x) == Some(r->Ok_0),
{
    let t = lookup(doc->0, path)->0;
    match (operand, t) {
        (InputView::Number { long: Some(b), .. }, Json::Number(Num::Integer(i))) if is_long(i) => {
            let res = integer_result(op, i, b as int);
            law_exact_where_it_fits(i, b as int);
            law_put_then_lookup(doc->0, path, Json::Number(Num::Integer(res)));
        },
        (InputView::Number { double, .. }, _) => {
            let res = choose|res: Option<IValue>|
                {
                    &&& #[trigger] call_ensures(op2_fun, (double_of(t->Number_0), double), res)
                    &&& after == Some(put(doc->0, path, double_stored(t, optional_json(res)).0))
                    &&& r == double_stored(t, optional_json(res)).1
                };
            law_put_then_lookup(doc->0, path, double_stored(t, optional_json(res)).0);
        },
        _ => {},
    }
}

}
