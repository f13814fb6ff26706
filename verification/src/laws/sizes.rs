//! What holds of how much memory documents take.
use ijson::{IArray, IObject, IValue};
use vstd::layout::size_of;
use vstd::prelude::*;
use vstd::utf8::encode_utf8;

use crate::error::Error;
use crate::json::{byte_len, Json, Members, Num};
use crate::laws::model::lemma_encode_concat;
use crate::manager::RedisIValueJsonKeyManager;
use crate::memory::{
    array_bytes, array_measures_as, array_memory, array_size, fitted, items_bytes, lay_out_elements,
    lay_out_members, lays_out, measures_as, member_bytes, number_size, object_bytes,
    object_measures_as, object_memory, object_size, scalar_bytes, size_sum, told, total_bytes,
    Layout,
};
use crate::values::{elements, json, members};

verus! {

/// A document that is no container takes what its value says, however it came to be.
pub proof fn law_size_of_a_scalar(l: Layout, j: Json)
    requires
        lays_out(l, j),
        !(j is Array),
        !(j is Object),
    ensures
        total_bytes(l) == size_of::<IValue>() + scalar_bytes(j),
{
}

/// A container that never held anything takes no more than the value itself.
pub proof fn law_size_of_an_empty_container(l: Layout)
    requires
        l matches Layout::Array { capacity, .. } && capacity == 0 || (l matches Layout::Object {
            capacity,
            ..
        } && capacity == 0),
    ensures
        total_bytes(l) == size_of::<IValue>(),
{
}

/// A container that holds something takes its own allocation and all that is in it.
pub proof fn law_size_of_a_container(l: Layout, j: Json)
    requires
        lays_out(l, j),
    ensures
        l matches Layout::Array { capacity, items } ==> items.len() > 0 ==> total_bytes(l)
            == size_of::<IValue>() + array_bytes(capacity) + items_bytes(items),
        l matches Layout::Object { capacity, members } ==> members.len() > 0 ==> total_bytes(l)
            == size_of::<IValue>() + object_bytes(capacity) + member_bytes(members),
{
}

/// An element takes less than the array that it is in.
pub proof fn law_size_of_an_element(l: Layout, j: Json, i: int)
    requires
        lays_out(l, j),
        l matches Layout::Array { items, .. } && 0 <= i < items.len(),
    ensures
        total_bytes(l->items[i]) < total_bytes(l),
{
    broadcast use vstd::layout::group_layout_axioms;

    lemma_items_bytes(l->items, i);
    let capacity = l->Array_capacity;
    assert(array_bytes(capacity) > 0) by (nonlinear_arith)
        requires
            size_of::<usize>() > 0,
            array_bytes(capacity) == size_of::<usize>() * (capacity + 2),
    ;
}

proof fn lemma_items_bytes(items: Seq<Layout>, i: int)
    requires
        0 <= i < items.len(),
    ensures
        total_bytes(items[i]) <= items_bytes(items),
    decreases items.len(),
{
    if i < items.len() - 1 {
        lemma_items_bytes(items.drop_last(), i);
    }
}

/// The value of a member takes less than the object that it is in.
pub proof fn law_size_of_a_member(l: Layout, j: Json, i: int)
    requires
        lays_out(l, j),
        l matches Layout::Object { members, .. } && 0 <= i < members.len(),
    ensures
        total_bytes(l->members[i].1) < total_bytes(l),
{
    broadcast use vstd::layout::group_layout_axioms;

    lemma_member_bytes(l->members, i);
    let capacity = l->Object_capacity;
    assert(object_bytes(capacity) > 0) by (nonlinear_arith)
        requires
            size_of::<usize>() > 0,
            object_bytes(capacity) == size_of::<usize>() * (capacity * 3 + 2),
    ;
}

proof fn lemma_member_bytes(ms: Seq<(Seq<char>, Layout)>, i: int)
    requires
        0 <= i < ms.len(),
    ensures
        total_bytes(ms[i].1) <= member_bytes(ms),
    decreases ms.len(),
{
    if i < ms.len() - 1 {
        lemma_member_bytes(ms.drop_last(), i);
    }
}

// ---------------------------------------------------------------------------------------------
// Measuring a container and measuring what is in it

/// Whether an array can have room for `capacity` elements when it holds `len`.
pub open spec fn array_room(capacity: nat, len: nat) -> bool {
    len <= capacity && size_of::<usize>() * capacity <= isize::MAX
}

/// Whether an object can have room for `capacity` members when it holds `len`.
pub open spec fn object_room(capacity: nat, len: nat) -> bool {
    len <= capacity && size_of::<usize>() * (capacity * 3) <= isize::MAX
}

/// Whether each of `sizes` is what measuring the element at its index comes to.
pub open spec fn elements_measure_as(es: Seq<Json>, sizes: Seq<usize>) -> bool {
    &&& sizes.len() == es.len()
    &&& forall|i: int|
        0 <= i < es.len() ==> measures_as(#[trigger] es[i], Ok::<usize, Error>(sizes[i]))
}

/// Whether each of `sizes` is what measuring the value of the member at its index comes to.
pub open spec fn members_measure_as(ms: Members, sizes: Seq<usize>) -> bool {
    &&& sizes.len() == ms.len()
    &&& forall|i: int|
        0 <= i < ms.len() ==> measures_as((#[trigger] ms[i]).1, Ok::<usize, Error>(sizes[i]))
}

/// The sum of sizes.
pub open spec fn sizes_sum(sizes: Seq<usize>) -> nat
    decreases sizes.len(),
{
    if sizes.len() == 0 {
        0
    } else {
        sizes_sum(sizes.drop_last()) + sizes.last() as nat
    }
}

/// The sum of the bytes of keys.
pub open spec fn keys_sum(ms: Members) -> nat
    decreases ms.len(),
{
    if ms.len() == 0 {
        0
    } else {
        keys_sum(ms.drop_last()) + byte_len(ms.last().0)
    }
}

/// The size of an array with room for `capacity` elements whose sizes are `sizes`.
pub open spec fn array_total(capacity: nat, sizes: Seq<usize>) -> nat {
    size_of::<IValue>() + if capacity == 0 {
        0
    } else {
        size_of::<usize>() * (capacity + 2) + sizes_sum(sizes)
    }
}

/// The size of an object with room for `capacity` members, of which the values' sizes are `sizes`.
pub open spec fn object_total(capacity: nat, ms: Members, sizes: Seq<usize>) -> nat {
    size_of::<IValue>() + if capacity == 0 {
        0
    } else {
        size_of::<usize>() * (capacity * 3 + 2) + keys_sum(ms) + sizes_sum(sizes)
    }
}

/// Measuring an array is measuring it for the room that it has, whatever that is.
pub proof fn law_room_of_an_array(es: Seq<Json>, r: Result<usize, Error>)
    ensures
        measures_as(Json::Array(es), r) <==> exists|capacity: nat| #[trigger]
            array_room(capacity, es.len()) && array_measures_as(es, capacity, r),
{
    let j = Json::Array(es);
    if measures_as(j, r) {
        let l = choose|l: Layout| #[trigger] lays_out(l, j) && r == told(total_bytes(l));
        assert(array_room(l->Array_capacity, es.len()));
        assert(lay_out_elements(l->items, es));
        assert(l == Layout::Array { capacity: l->Array_capacity, items: l->items });
    }
    if exists|capacity: nat| #[trigger]
        array_room(capacity, es.len()) && array_measures_as(es, capacity, r) {
        let capacity = choose|capacity: nat| #[trigger]
            array_room(capacity, es.len()) && array_measures_as(es, capacity, r);
        let items = choose|items: Seq<Layout>| #[trigger]
            lay_out_elements(items, es) && r == told(
                total_bytes(Layout::Array { capacity, items }),
            );
        assert(lays_out(Layout::Array { capacity, items }, j));
    }
}

/// Measuring an object is measuring it for the room that it has, whatever that is.
pub proof fn law_room_of_an_object(ms: Members, r: Result<usize, Error>)
    ensures
        measures_as(Json::Object(ms), r) <==> exists|capacity: nat| #[trigger]
            object_room(capacity, ms.len()) && object_measures_as(ms, capacity, r),
{
    let j = Json::Object(ms);
    if measures_as(j, r) {
        let l = choose|l: Layout| #[trigger] lays_out(l, j) && r == told(total_bytes(l));
        assert(object_room(l->Object_capacity, ms.len()));
        assert(lay_out_members(l->members, ms));
        assert(l == Layout::Object { capacity: l->Object_capacity, members: l->members });
    }
    if exists|capacity: nat| #[trigger]
        object_room(capacity, ms.len()) && object_measures_as(ms, capacity, r) {
        let capacity = choose|capacity: nat| #[trigger]
            object_room(capacity, ms.len()) && object_measures_as(ms, capacity, r);
        let ls = choose|ls: Seq<(Seq<char>, Layout)>| #[trigger]
            lay_out_members(ls, ms) && r == told(
                total_bytes(Layout::Object { capacity, members: ls }),
            );
        assert(lays_out(Layout::Object { capacity, members: ls }, j));
    }
}

/// Measuring an array that has room for `capacity` elements adds up the value itself, two words
/// and one for each element that there is room for, and what measuring each element comes to. It
/// comes to nothing else, and to each such sum that a `usize` can tell.
pub proof fn law_measuring_an_array(es: Seq<Json>, capacity: nat, n: usize)
    requires
        array_room(capacity, es.len()),
    ensures
        array_measures_as(es, capacity, Ok::<usize, Error>(n)) <==> exists|sizes: Seq<usize>|
            #[trigger]
            elements_measure_as(es, sizes) && n == array_total(capacity, sizes),
{
    if array_measures_as(es, capacity, Ok::<usize, Error>(n)) {
        let items = choose|items: Seq<Layout>| #[trigger]
            lay_out_elements(items, es) && Ok::<usize, Error>(n) == told(
                total_bytes(Layout::Array { capacity, items }),
            );
        let sizes = Seq::new(items.len(), |i: int| total_bytes(items[i]) as usize);
        assert forall|i: int| 0 <= i < es.len() implies {
            &&& measures_as(#[trigger] es[i], Ok::<usize, Error>(sizes[i]))
            &&& sizes[i] == total_bytes(items[i])
        } by {
            lemma_items_bytes(items, i);
            assert(lays_out(items[i], es[i]));
        }
        lemma_items_sum(items, sizes);
        assert(elements_measure_as(es, sizes));
    }
    if exists|sizes: Seq<usize>| #[trigger]
        elements_measure_as(es, sizes) && n == array_total(capacity, sizes) {
        let sizes = choose|sizes: Seq<usize>| #[trigger]
            elements_measure_as(es, sizes) && n == array_total(capacity, sizes);
        let items = Seq::new(es.len(), |i: int| layout_of_size(es[i], sizes[i]));
        assert forall|i: int| 0 <= i < es.len() implies {
            &&& lays_out(#[trigger] items[i], es[i])
            &&& sizes[i] == total_bytes(items[i])
        } by {
            assert(measures_as(es[i], Ok::<usize, Error>(sizes[i])));
            lemma_layout_of_size(es[i], sizes[i]);
        }
        lemma_items_sum(items, sizes);
        assert(lay_out_elements(items, es));
    }
}

/// Measuring an object that has room for `capacity` members adds up the value itself, two words
/// and three for each member that there is room for, the bytes of each key, and what measuring
/// each member's value comes to. It comes to nothing else, and to each such sum that a `usize` can
/// tell.
pub proof fn law_measuring_an_object(ms: Members, capacity: nat, n: usize)
    requires
        object_room(capacity, ms.len()),
    ensures
        object_measures_as(ms, capacity, Ok::<usize, Error>(n)) <==> exists|sizes: Seq<usize>|
            #[trigger]
            members_measure_as(ms, sizes) && n == object_total(capacity, ms, sizes),
{
    if object_measures_as(ms, capacity, Ok::<usize, Error>(n)) {
        let ls = choose|ls: Seq<(Seq<char>, Layout)>| #[trigger]
            lay_out_members(ls, ms) && Ok::<usize, Error>(n) == told(
                total_bytes(Layout::Object { capacity, members: ls }),
            );
        let sizes = Seq::new(ls.len(), |i: int| total_bytes(ls[i].1) as usize);
        assert forall|i: int| 0 <= i < ms.len() implies {
            &&& measures_as((#[trigger] ms[i]).1, Ok::<usize, Error>(sizes[i]))
            &&& sizes[i] == total_bytes(ls[i].1)
            &&& ls[i].0 == ms[i].0
        } by {
            lemma_member_bytes(ls, i);
            assert(ls[i].0 == ms[i].0);
            assert(lays_out(ls[i].1, ms[i].1));
        }
        lemma_members_sum(ms, ls, sizes);
        assert(members_measure_as(ms, sizes));
    }
    if exists|sizes: Seq<usize>| #[trigger]
        members_measure_as(ms, sizes) && n == object_total(capacity, ms, sizes) {
        let sizes = choose|sizes: Seq<usize>| #[trigger]
            members_measure_as(ms, sizes) && n == object_total(capacity, ms, sizes);
        let ls = Seq::new(ms.len(), |i: int| (ms[i].0, layout_of_size(ms[i].1, sizes[i])));
        assert forall|i: int| 0 <= i < ms.len() implies {
            &&& (#[trigger] ls[i]).0 == ms[i].0
            &&& lays_out(ls[i].1, ms[i].1)
            &&& sizes[i] == total_bytes(ls[i].1)
        } by {
            assert(measures_as(ms[i].1, Ok::<usize, Error>(sizes[i])));
            lemma_layout_of_size(ms[i].1, sizes[i]);
        }
        lemma_members_sum(ms, ls, sizes);
        assert(lay_out_members(ls, ms));
    }
}

/// A layout of `j` that takes `size` bytes.
spec fn layout_of_size(j: Json, size: usize) -> Layout {
    choose|l: Layout| #[trigger] lays_out(l, j) && total_bytes(l) == size
}

proof fn lemma_layout_of_size(j: Json, size: usize)
    requires
        measures_as(j, Ok::<usize, Error>(size)),
    ensures
        lays_out(layout_of_size(j, size), j),
        total_bytes(layout_of_size(j, size)) == size,
{
    let l = choose|l: Layout| #[trigger]
        lays_out(l, j) && Ok::<usize, Error>(size) == told(total_bytes(l));
    assert(lays_out(l, j) && total_bytes(l) == size);
}

proof fn lemma_items_sum(items: Seq<Layout>, sizes: Seq<usize>)
    requires
        items.len() == sizes.len(),
        forall|i: int| 0 <= i < items.len() ==> sizes[i] == total_bytes(#[trigger] items[i]),
    ensures
        items_bytes(items) == sizes_sum(sizes),
    decreases items.len(),
{
    if items.len() > 0 {
        assert forall|i: int| 0 <= i < items.drop_last().len() implies sizes.drop_last()[i]
            == total_bytes(#[trigger] items.drop_last()[i]) by {
            assert(items.drop_last()[i] == items[i]);
        }
        lemma_items_sum(items.drop_last(), sizes.drop_last());
        assert(sizes[items.len() - 1] == total_bytes(items[items.len() - 1]));
    }
}

proof fn lemma_members_sum(ms: Members, ls: Seq<(Seq<char>, Layout)>, sizes: Seq<usize>)
    requires
        ls.len() == ms.len(),
        ls.len() == sizes.len(),
        forall|i: int|
            0 <= i < ls.len() ==> {
                &&& (#[trigger] ls[i]).0 == ms[i].0
                &&& sizes[i] == total_bytes(ls[i].1)
            },
    ensures
        member_bytes(ls) == keys_sum(ms) + sizes_sum(sizes),
    decreases ls.len(),
{
    if ls.len() > 0 {
        assert forall|i: int| 0 <= i < ls.drop_last().len() implies {
            &&& (#[trigger] ls.drop_last()[i]).0 == ms.drop_last()[i].0
            &&& sizes.drop_last()[i] == total_bytes(ls.drop_last()[i].1)
        } by {
            assert(ls.drop_last()[i] == ls[i]);
        }
        lemma_members_sum(ms.drop_last(), ls.drop_last(), sizes.drop_last());
        assert(ls[ls.len() - 1].0 == ms[ls.len() - 1].0);
    }
}

// ---------------------------------------------------------------------------------------------
// Part by part

/// Null and a boolean take the value itself alone.
pub proof fn law_measure_of_null_and_bool(b: bool, r: Result<usize, Error>)
    ensures
        measures_as(Json::Null, r) <==> match r {
            Ok(n) => n == size_of::<IValue>(),
            Err(e) => e == Error::SizeOverflow && size_of::<IValue>() > usize::MAX,
        },
        measures_as(Json::Bool(b), r) <==> match r {
            Ok(n) => n == size_of::<IValue>(),
            Err(e) => e == Error::SizeOverflow && size_of::<IValue>() > usize::MAX,
        },
{
    lemma_scalar_measure(Json::Null, r);
    lemma_scalar_measure(Json::Bool(b), r);
}

/// A string takes the value itself and the bytes of its text in UTF-8, whatever the text.
pub proof fn law_measure_of_a_string(s: Seq<char>, r: Result<usize, Error>)
    ensures
        measures_as(Json::String(s), r) <==> match r {
            Ok(n) => n == size_of::<IValue>() + encode_utf8(s).len(),
            Err(e) => e == Error::SizeOverflow && size_of::<IValue>() + encode_utf8(s).len()
                > usize::MAX,
        },
{
    lemma_scalar_measure(Json::String(s), r);
}

/// A string with a text appended takes the bytes of the text more.
pub proof fn law_measure_of_a_longer_string(s: Seq<char>, t: Seq<char>, m: usize, n: usize)
    requires
        measures_as(Json::String(s), Ok::<usize, Error>(m)),
        measures_as(Json::String(s + t), Ok::<usize, Error>(n)),
    ensures
        n == m + encode_utf8(t).len(),
{
    law_measure_of_a_string(s, Ok::<usize, Error>(m));
    law_measure_of_a_string(s + t, Ok::<usize, Error>(n));
    lemma_encode_concat(s, t);
}

/// A number takes the value itself, and beside it nothing from -128 to 383, four bytes where 24
/// bits with a sign hold it, and sixteen bytes otherwise, as every double does.
pub proof fn law_measure_of_a_number(i: int, bits: u64, r: Result<usize, Error>)
    ensures
        measures_as(Json::Number(Num::Double(bits)), r) <==> match r {
            Ok(n) => n == size_of::<IValue>() + 16,
            Err(e) => e == Error::SizeOverflow && size_of::<IValue>() + 16 > usize::MAX,
        },
        measures_as(Json::Number(Num::Integer(i)), r) <==> {
            let bytes: int = if -128 <= i && i <= 383 {
                0
            } else if -8_388_608 < i && i <= 8_388_607 {
                4
            } else {
                16
            };
            match r {
                Ok(n) => n == size_of::<IValue>() + bytes,
                Err(e) => e == Error::SizeOverflow && size_of::<IValue>() + bytes > usize::MAX,
            }
        },
{
    lemma_scalar_measure(Json::Number(Num::Double(bits)), r);
    lemma_scalar_measure(Json::Number(Num::Integer(i)), r);
}

proof fn lemma_scalar_measure(j: Json, r: Result<usize, Error>)
    requires
        !(j is Array),
        !(j is Object),
    ensures
        measures_as(j, r) <==> r == told(size_of::<IValue>() + scalar_bytes(j)),
{
    let l = Layout::Scalar(j);
    assert(lays_out(l, j));
    assert(total_bytes(l) == size_of::<IValue>() + scalar_bytes(j));
    if measures_as(j, r) {
        let other = choose|l: Layout| #[trigger] lays_out(l, j) && r == told(total_bytes(l));
        assert(other == l);
    }
}

/// A size is told where a `usize` holds it, and is an error otherwise.
pub proof fn law_told(n: nat)
    ensures
        n <= usize::MAX ==> told(n) == Ok::<usize, Error>(n as usize) && fitted(n) == Some(
            n as usize,
        ),
        n > usize::MAX ==> told(n) == Err::<usize, Error>(Error::SizeOverflow) && fitted(n)
            is None,
{
}

/// An array without elements takes the value itself, and two words and one for each element that
/// there is room for, where there is any room.
pub proof fn law_measure_of_an_empty_array(capacity: nat, r: Result<usize, Error>)
    ensures
        array_measures_as(Seq::empty(), capacity, r) <==> {
            let total: nat = if capacity == 0 {
                size_of::<IValue>()
            } else {
                size_of::<IValue>() + size_of::<usize>() * (capacity + 2)
            };
            match r {
                Ok(n) => n == total,
                Err(e) => e == Error::SizeOverflow && total > usize::MAX,
            }
        },
{
    let es = Seq::<Json>::empty();
    let items = Seq::<Layout>::empty();
    assert(lay_out_elements(items, es));
    if array_measures_as(es, capacity, r) {
        let other = choose|items: Seq<Layout>| #[trigger]
            lay_out_elements(items, es) && r == told(
                total_bytes(Layout::Array { capacity, items }),
            );
        assert(other =~= items);
    }
}

/// One more element adds what measuring it comes to.
pub proof fn law_measure_of_one_more_element(
    es: Seq<Json>,
    x: Json,
    capacity: nat,
    r: Result<usize, Error>,
)
    requires
        capacity > 0,
    ensures
        array_measures_as(es.push(x), capacity, r) <==> exists|
            a: Result<usize, Error>,
            b: Result<usize, Error>,
        |
            {
                &&& #[trigger] array_measures_as(es, capacity, a)
                &&& #[trigger] measures_as(x, b)
                &&& r == match (a, b) {
                    (Ok(m), Ok(n)) if m + n <= usize::MAX => Ok::<usize, Error>((m + n) as usize),
                    _ => Err::<usize, Error>(Error::SizeOverflow),
                }
            },
{
    let more = es.push(x);
    if array_measures_as(more, capacity, r) {
        let items = choose|items: Seq<Layout>| #[trigger]
            lay_out_elements(items, more) && r == told(
                total_bytes(Layout::Array { capacity, items }),
            );
        let start = items.drop_last();
        let last = items.last();
        assert forall|i: int| 0 <= i < start.len() implies lays_out(#[trigger] start[i], es[i]) by {
            assert(start[i] == items[i]);
            assert(more[i] == es[i]);
        }
        assert(lay_out_elements(start, es));
        assert(lays_out(items[items.len() - 1], more[items.len() - 1]));
        assert(lays_out(last, x));
        assert(array_measures_as(
            es,
            capacity,
            told(total_bytes(Layout::Array { capacity, items: start })),
        ));
        assert(measures_as(x, told(total_bytes(last))));
    }
    if exists|a: Result<usize, Error>, b: Result<usize, Error>|
        {
            &&& #[trigger] array_measures_as(es, capacity, a)
            &&& #[trigger] measures_as(x, b)
            &&& r == match (a, b) {
                (Ok(m), Ok(n)) if m + n <= usize::MAX => Ok::<usize, Error>((m + n) as usize),
                _ => Err::<usize, Error>(Error::SizeOverflow),
            }
        } {
        let (a, b) = choose|a: Result<usize, Error>, b: Result<usize, Error>|
            {
                &&& #[trigger] array_measures_as(es, capacity, a)
                &&& #[trigger] measures_as(x, b)
                &&& r == match (a, b) {
                    (Ok(m), Ok(n)) if m + n <= usize::MAX => Ok::<usize, Error>((m + n) as usize),
                    _ => Err::<usize, Error>(Error::SizeOverflow),
                }
            };
        let start = choose|items: Seq<Layout>| #[trigger]
            lay_out_elements(items, es) && a == told(
                total_bytes(Layout::Array { capacity, items }),
            );
        let last = choose|l: Layout| #[trigger] lays_out(l, x) && b == told(total_bytes(l));
        let items = start.push(last);
        assert(items.drop_last() =~= start);
        assert(items.last() == last);
        assert forall|i: int| 0 <= i < items.len() implies lays_out(
            #[trigger] items[i],
            more[i],
        ) by {
            if i < start.len() {
                assert(items[i] == start[i]);
            }
        }
        assert(lay_out_elements(items, more));
    }
}

/// An object without members takes the value itself, and two words and three for each member that
/// there is room for, where there is any room.
pub proof fn law_measure_of_an_empty_object(capacity: nat, r: Result<usize, Error>)
    ensures
        object_measures_as(Seq::empty(), capacity, r) <==> {
            let total: nat = if capacity == 0 {
                size_of::<IValue>()
            } else {
                size_of::<IValue>() + size_of::<usize>() * (capacity * 3 + 2)
            };
            match r {
                Ok(n) => n == total,
                Err(e) => e == Error::SizeOverflow && total > usize::MAX,
            }
        },
{
    let ms: Members = Seq::empty();
    let ls = Seq::<(Seq<char>, Layout)>::empty();
    assert(lay_out_members(ls, ms));
    if object_measures_as(ms, capacity, r) {
        let other = choose|ls: Seq<(Seq<char>, Layout)>| #[trigger]
            lay_out_members(ls, ms) && r == told(
                total_bytes(Layout::Object { capacity, members: ls }),
            );
        assert(other =~= ls);
    }
}

/// One more member adds the bytes of its key in UTF-8 and what measuring its value comes to.
pub proof fn law_measure_of_one_more_member(
    ms: Members,
    key: Seq<char>,
    x: Json,
    capacity: nat,
    r: Result<usize, Error>,
)
    requires
        capacity > 0,
    ensures
        object_measures_as(ms.push((key, x)), capacity, r) <==> exists|
            a: Result<usize, Error>,
            b: Result<usize, Error>,
        |
            {
                &&& #[trigger] object_measures_as(ms, capacity, a)
                &&& #[trigger] measures_as(x, b)
                &&& r == match (a, b) {
                    (Ok(m), Ok(n)) if m + encode_utf8(key).len() + n <= usize::MAX => Ok::<
                        usize,
                        Error,
                    >((m + encode_utf8(key).len() + n) as usize),
                    _ => Err::<usize, Error>(Error::SizeOverflow),
                }
            },
{
    let more = ms.push((key, x));
    if object_measures_as(more, capacity, r) {
        let ls = choose|ls: Seq<(Seq<char>, Layout)>| #[trigger]
            lay_out_members(ls, more) && r == told(
                total_bytes(Layout::Object { capacity, members: ls }),
            );
        let start = ls.drop_last();
        let last = ls.last().1;
        assert forall|i: int| 0 <= i < start.len() implies {
            &&& (#[trigger] start[i]).0 == ms[i].0
            &&& lays_out(start[i].1, ms[i].1)
        } by {
            assert(start[i] == ls[i]);
            assert(more[i] == ms[i]);
        }
        assert(lay_out_members(start, ms));
        assert(ls[ls.len() - 1].0 == more[ls.len() - 1].0);
        assert(lays_out(last, x));
        assert(object_measures_as(
            ms,
            capacity,
            told(total_bytes(Layout::Object { capacity, members: start })),
        ));
        assert(measures_as(x, told(total_bytes(last))));
    }
    if exists|a: Result<usize, Error>, b: Result<usize, Error>|
        {
            &&& #[trigger] object_measures_as(ms, capacity, a)
            &&& #[trigger] measures_as(x, b)
            &&& r == match (a, b) {
                (Ok(m), Ok(n)) if m + encode_utf8(key).len() + n <= usize::MAX => Ok::<
                    usize,
                    Error,
                >((m + encode_utf8(key).len() + n) as usize),
                _ => Err::<usize, Error>(Error::SizeOverflow),
            }
        } {
        let (a, b) = choose|a: Result<usize, Error>, b: Result<usize, Error>|
            {
                &&& #[trigger] object_measures_as(ms, capacity, a)
                &&& #[trigger] measures_as(x, b)
                &&& r == match (a, b) {
                    (Ok(m), Ok(n)) if m + encode_utf8(key).len() + n <= usize::MAX => Ok::<
                        usize,
                        Error,
                    >((m + encode_utf8(key).len() + n) as usize),
                    _ => Err::<usize, Error>(Error::SizeOverflow),
                }
            };
        let start = choose|ls: Seq<(Seq<char>, Layout)>| #[trigger]
            lay_out_members(ls, ms) && a == told(
                total_bytes(Layout::Object { capacity, members: ls }),
            );
        let last = choose|l: Layout| #[trigger] lays_out(l, x) && b == told(total_bytes(l));
        let ls = start.push((key, last));
        assert(ls.drop_last() =~= start);
        assert(ls.last() == (key, last));
        assert forall|i: int| 0 <= i < ls.len() implies {
            &&& (#[trigger] ls[i]).0 == more[i].0
            &&& lays_out(ls[i].1, more[i].1)
        } by {
            if i < start.len() {
                assert(ls[i] == start[i]);
            }
        }
        assert(lay_out_members(ls, more));
    }
}

/// A container without room takes the value itself alone.
pub proof fn law_measure_without_room(es: Seq<Json>, ms: Members, n: usize)
    ensures
        array_measures_as(es, 0, Ok::<usize, Error>(n)) ==> n == size_of::<IValue>(),
        object_measures_as(ms, 0, Ok::<usize, Error>(n)) ==> n == size_of::<IValue>(),
        array_measures_as(es, 0, Err::<usize, Error>(Error::SizeOverflow)) ==> size_of::<IValue>()
            > usize::MAX,
        object_measures_as(ms, 0, Err::<usize, Error>(Error::SizeOverflow)) ==> size_of::<IValue>()
            > usize::MAX,
{
}

/// Measuring a container is measuring it for a room that it can have: for all that is in it, and
/// no more than one allocation can be.
pub proof fn law_measure_for_some_room(es: Seq<Json>, ms: Members, r: Result<usize, Error>)
    ensures
        measures_as(Json::Array(es), r) <==> exists|capacity: nat|
            {
                &&& es.len() <= capacity
                &&& size_of::<usize>() * capacity <= isize::MAX
                &&& #[trigger] array_measures_as(es, capacity, r)
            },
        measures_as(Json::Object(ms), r) <==> exists|capacity: nat|
            {
                &&& ms.len() <= capacity
                &&& size_of::<usize>() * (capacity * 3) <= isize::MAX
                &&& #[trigger] object_measures_as(ms, capacity, r)
            },
{
    law_room_of_an_array(es, r);
    law_room_of_an_object(ms, r);
    if measures_as(Json::Array(es), r) {
        let capacity = choose|capacity: nat| #[trigger]
            array_room(capacity, es.len()) && array_measures_as(es, capacity, r);
        assert(array_measures_as(es, capacity, r));
    }
    if exists|capacity: nat|
        {
            &&& es.len() <= capacity
            &&& size_of::<usize>() * capacity <= isize::MAX
            &&& #[trigger] array_measures_as(es, capacity, r)
        } {
        let capacity = choose|capacity: nat|
            {
                &&& es.len() <= capacity
                &&& size_of::<usize>() * capacity <= isize::MAX
                &&& #[trigger] array_measures_as(es, capacity, r)
            };
        assert(array_room(capacity, es.len()));
    }
    if measures_as(Json::Object(ms), r) {
        let capacity = choose|capacity: nat| #[trigger]
            object_room(capacity, ms.len()) && object_measures_as(ms, capacity, r);
        assert(object_measures_as(ms, capacity, r));
    }
    if exists|capacity: nat|
        {
            &&& ms.len() <= capacity
            &&& size_of::<usize>() * (capacity * 3) <= isize::MAX
            &&& #[trigger] object_measures_as(ms, capacity, r)
        } {
        let capacity = choose|capacity: nat|
            {
                &&& ms.len() <= capacity
                &&& size_of::<usize>() * (capacity * 3) <= isize::MAX
                &&& #[trigger] object_measures_as(ms, capacity, r)
            };
        assert(object_room(capacity, ms.len()));
    }
}

/// Calls give the measures, and calls on parts the parts of them.
pub proof fn law_size_calls<'a>(
    m: &RedisIValueJsonKeyManager<'a>,
    v: &IValue,
    a: &IArray,
    o: &IObject,
    capacity: usize,
    r: Result<usize, Error>,
)
    ensures
        call_ensures(RedisIValueJsonKeyManager::<'a>::get_memory, (m, v), r) ==> measures_as(
            json(*v),
            r,
        ),
        call_ensures(array_memory, (a, capacity), r) ==> array_measures_as(
            elements(*a),
            capacity as nat,
            r,
        ),
        call_ensures(object_memory, (o, capacity), r) ==> object_measures_as(
            members(*o),
            capacity as nat,
            r,
        ),
{
}

/// Calls that add sizes up give the sums, where a `usize` holds them.
pub proof fn law_size_parts(
    capacity: usize,
    x: usize,
    y: usize,
    v: &IValue,
    n: usize,
    r: Option<usize>,
)
    ensures
        call_ensures(size_sum, (Some(x), Some(y)), r) ==> match r {
            Some(z) => z == x + y,
            None => x + y > usize::MAX,
        },
        call_ensures(size_sum, (None, Some(y)), r) ==> r is None,
        call_ensures(size_sum, (Some(x), None), r) ==> r is None,
        call_ensures(size_sum, (None, None), r) ==> r is None,
        call_ensures(array_size, (0, Some(x)), r) ==> r == Some(0usize),
        call_ensures(array_size, (0, None), r) ==> r == Some(0usize),
        capacity > 0 && call_ensures(array_size, (capacity, None), r) ==> r is None,
        capacity > 0 && call_ensures(array_size, (capacity, Some(x)), r) ==> match r {
            Some(z) => z == size_of::<usize>() * (capacity + 2) + x,
            None => size_of::<usize>() * (capacity + 2) + x > usize::MAX,
        },
        call_ensures(object_size, (0, Some(x)), r) ==> r == Some(0usize),
        call_ensures(object_size, (0, None), r) ==> r == Some(0usize),
        capacity > 0 && call_ensures(object_size, (capacity, None), r) ==> r is None,
        capacity > 0 && call_ensures(object_size, (capacity, Some(x)), r) ==> match r {
            Some(z) => z == size_of::<usize>() * (capacity * 3 + 2) + x,
            None => size_of::<usize>() * (capacity * 3 + 2) + x > usize::MAX,
        },
        call_ensures(number_size, (v,), n) ==> {
            &&& json(*v) matches Json::Number(Num::Double(_)) ==> n == 16
            &&& json(*v) matches Json::Number(Num::Integer(i)) ==> n == if -128 <= i && i <= 383 {
                0int
            } else if -8_388_608 < i && i <= 8_388_607 {
                4int
            } else {
                16int
            }
        },
{
}

}
