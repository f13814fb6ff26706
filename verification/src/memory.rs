//! How much memory a document takes.
use ijson::{IArray, IObject, IValue};
use std::mem::size_of;
use vstd::prelude::*;

use crate::error::Error;
use crate::json::{byte_len, Json, Members, Num};
use crate::values::{
    array_capacity, array_get, array_len, destructure_ref, elements, has_decimal_point, json,
    members, object_capacity, object_members, to_i64, ValueRef,
};

verus! {

/// A document with the room that each of its containers has allocated, for elements or members.
pub enum Layout {
    Scalar(Json),
    Array { capacity: nat, items: Seq<Layout> },
    Object { capacity: nat, members: Seq<(Seq<char>, Layout)> },
}

/// Whether `l` lays out the document `j`: the same tree, with room for what is in each container,
/// and no more than one allocation can be.
pub open spec fn lays_out(l: Layout, j: Json) -> bool
    decreases l,
{
    match (l, j) {
        (Layout::Array { capacity, items }, Json::Array(es)) => {
            &&& es.len() <= capacity
            &&& vstd::layout::size_of::<usize>() * capacity <= isize::MAX
            &&& items.len() == es.len()
            &&& forall|i: int| 0 <= i < items.len() ==> lays_out(#[trigger] items[i], es[i])
        },
        (Layout::Object { capacity, members: ls }, Json::Object(ms)) => {
            &&& ms.len() <= capacity
            &&& vstd::layout::size_of::<usize>() * (capacity * 3) <= isize::MAX
            &&& ls.len() == ms.len()
            &&& forall|i: int|
                0 <= i < ls.len() ==> {
                    &&& (#[trigger] ls[i]).0 == ms[i].0
                    &&& lays_out(ls[i].1, ms[i].1)
                }
        },
        (Layout::Scalar(s), _) => s == j && !(j is Array) && !(j is Object),
        _ => false,
    }
}

/// The bytes that a number takes beside the value itself.
pub open spec fn number_bytes(n: Num) -> nat {
    match n {
        // 64bit float
        Num::Double(_) => 16,
        Num::Integer(i) => if -128 <= i <= 383 {
            // 8bit
            0
        } else if -8_388_608 < i <= 8_388_607 {
            // 24bit
            4
        } else {
            // 64bit
            16
        },
    }
}

/// The bytes that a scalar takes beside the value itself.
pub open spec fn scalar_bytes(j: Json) -> nat {
    match j {
        Json::Number(n) => number_bytes(n),
        Json::String(s) => byte_len(s),
        _ => 0,
    }
}

/// The bytes of an array's own allocation: two words, and one word for each element.
pub open spec fn array_bytes(capacity: nat) -> nat {
    vstd::layout::size_of::<usize>() * (capacity + 2)
}

/// The bytes of an object's own allocation: two words, and three words for each member.
pub open spec fn object_bytes(capacity: nat) -> nat {
    vstd::layout::size_of::<usize>() * (capacity * 3 + 2)
}

/// The bytes that a document takes: the value itself, what it has allocated, and what is in it.
pub open spec fn total_bytes(l: Layout) -> nat
    decreases l,
{
    vstd::layout::size_of::<IValue>() + match l {
        Layout::Scalar(j) => scalar_bytes(j),
        Layout::Array { capacity, items } => if capacity == 0 {
            0
        } else {
            array_bytes(capacity) + items_bytes(items)
        },
        Layout::Object { capacity, members } => if capacity == 0 {
            0
        } else {
            object_bytes(capacity) + member_bytes(members)
        },
    }
}

/// The bytes that elements take.
pub open spec fn items_bytes(items: Seq<Layout>) -> nat
    decreases items,
{
    if items.len() == 0 {
        0
    } else {
        items_bytes(items.drop_last()) + total_bytes(items.last())
    }
}

/// The bytes that members take: the keys' texts and the values.
pub open spec fn member_bytes(ms: Seq<(Seq<char>, Layout)>) -> nat
    decreases ms,
{
    if ms.len() == 0 {
        0
    } else {
        member_bytes(ms.drop_last()) + byte_len(ms.last().0) + total_bytes(ms.last().1)
    }
}

/// A size, where a `usize` can tell it.
pub open spec fn fitted(n: nat) -> Option<usize> {
    if n <= usize::MAX {
        Some(n as usize)
    } else {
        None
    }
}

/// A size as it is returned: an error, where no `usize` can tell it.
pub open spec fn told(n: nat) -> Result<usize, Error> {
    if n <= usize::MAX {
        Ok(n as usize)
    } else {
        Err(Error::SizeOverflow)
    }
}

/// Whether each of `items` lays out the element at its index.
pub open spec fn lay_out_elements(items: Seq<Layout>, es: Seq<Json>) -> bool {
    &&& items.len() == es.len()
    &&& forall|i: int| 0 <= i < items.len() ==> lays_out(#[trigger] items[i], es[i])
}

/// Whether each of `ls` has the key of the member at its index and lays out its value.
pub open spec fn lay_out_members(ls: Seq<(Seq<char>, Layout)>, ms: Members) -> bool {
    &&& ls.len() == ms.len()
    &&& forall|i: int|
        0 <= i < ls.len() ==> {
            &&& (#[trigger] ls[i]).0 == ms[i].0
            &&& lays_out(ls[i].1, ms[i].1)
        }
}

/// Whether `r` is what measuring a value that holds `j` comes to: the bytes of one of the layouts
/// that `j` can have.
pub open spec fn measures_as(j: Json, r: Result<usize, Error>) -> bool {
    exists|l: Layout| #[trigger] lays_out(l, j) && r == told(total_bytes(l))
}

/// Whether `r` is what measuring an array with the elements `es` and room for `capacity` comes to.
pub open spec fn array_measures_as(es: Seq<Json>, capacity: nat, r: Result<usize, Error>) -> bool {
    exists|items: Seq<Layout>| #[trigger]
        lay_out_elements(items, es) && r == told(total_bytes(Layout::Array { capacity, items }))
}

/// Whether `r` is what measuring an object with the members `ms` and room for `capacity` comes to.
pub open spec fn object_measures_as(ms: Members, capacity: nat, r: Result<usize, Error>) -> bool {
    exists|ls: Seq<(Seq<char>, Layout)>| #[trigger]
        lay_out_members(ls, ms) && r == told(
            total_bytes(Layout::Object { capacity, members: ls }),
        )
}

/// A size as it is returned.
pub(crate) fn tell(size: Option<usize>) -> (r: Result<usize, Error>)
    ensures
        r == match size {
            Some(n) => Ok::<usize, Error>(n),
            None => Err::<usize, Error>(Error::SizeOverflow),
        },
{
    match size {
        Some(n) => Ok(n),
        None => Err(Error::SizeOverflow),
    }
}

/// The sum of two sizes.
pub fn size_sum(a: Option<usize>, b: Option<usize>) -> (r: Option<usize>)
    ensures
        r == match (a, b) {
            (Some(x), Some(y)) => fitted(x as nat + y as nat),
            _ => None,
        },
{
    match (a, b) {
        (Some(x), Some(y)) => x.checked_add(y),
        _ => None,
    }
}

/// The bytes that a number takes beside the value itself.
pub fn number_size(v: &IValue) -> (r: usize)
    requires
        json(*v) is Number,
    ensures
        r == number_bytes(json(*v)->Number_0),
{
    match has_decimal_point(v) {
        Some(false) => match to_i64(v) {
            Some(num) => if num >= -128 && num <= 383 {
                0
            } else if num > -8_388_608 && num <= 8_388_607 {
                4
            } else {
                16
            },
            None => 16,
        },
        _ => 16,
    }
}

/// The bytes that an array takes beside the value itself, where its elements take `items`.
pub fn array_size(capacity: usize, items: Option<usize>) -> (r: Option<usize>)
    ensures
        r == if capacity == 0 {
            Some(0)
        } else {
            match items {
                Some(n) => fitted(array_bytes(capacity as nat) + n as nat),
                None => None,
            }
        },
{
    if capacity == 0 {
        return Some(0);
    }
    broadcast use vstd::layout::group_layout_axioms;

    let words: Option<usize> = capacity.checked_add(2);
    let own: Option<usize> = match words {
        Some(n) => size_of::<usize>().checked_mul(n),
        None => None,
    };
    proof {
        let word = vstd::layout::size_of::<usize>();
        assert(word * (capacity + 2) >= capacity + 2) by (nonlinear_arith)
            requires
                word >= 1,
        ;
    }
    size_sum(own, items)
}

/// The bytes that an object takes beside the value itself, where its members take `items`.
pub fn object_size(capacity: usize, items: Option<usize>) -> (r: Option<usize>)
    ensures
        r == if capacity == 0 {
            Some(0)
        } else {
            match items {
                Some(n) => fitted(object_bytes(capacity as nat) + n as nat),
                None => None,
            }
        },
{
    if capacity == 0 {
        return Some(0);
    }
    broadcast use vstd::layout::group_layout_axioms;

    let words: Option<usize> = match capacity.checked_mul(3) {
        Some(n) => n.checked_add(2),
        None => None,
    };
    let own: Option<usize> = match words {
        Some(n) => size_of::<usize>().checked_mul(n),
        None => None,
    };
    proof {
        let word = vstd::layout::size_of::<usize>();
        assert(word * (capacity * 3 + 2) >= capacity * 3 + 2) by (nonlinear_arith)
            requires
                word >= 1,
        ;
    }
    size_sum(own, items)
}

/// What an array takes that has room for `capacity` elements.
pub fn array_memory(a: &IArray, capacity: usize) -> (r: Result<usize, Error>)
    ensures
        array_measures_as(elements(*a), capacity as nat, r),
{
    let (size, items) = measure_array(a, capacity, Ghost(Json::Array(elements(*a))));
    assert(lay_out_elements(items@, elements(*a)));
    tell(size)
}

/// What an object takes that has room for `capacity` members.
pub fn object_memory(o: &IObject, capacity: usize) -> (r: Result<usize, Error>)
    ensures
        object_measures_as(members(*o), capacity as nat, r),
{
    let (size, ls) = measure_object(o, capacity, Ghost(Json::Object(members(*o))));
    assert(lay_out_members(ls@, members(*o)));
    tell(size)
}

/// What a value takes in all, with the layout of the document that it holds.
pub(crate) fn measure(v: &IValue) -> (r: (Option<usize>, Ghost<Layout>))
    ensures
        lays_out(r.1@, json(*v)),
        r.0 == fitted(total_bytes(r.1@)),
    decreases json(*v), 2int,
{
    let own: Option<usize> = Some(size_of::<IValue>());
    match destructure_ref(v) {
        ValueRef::Null | ValueRef::Bool(_) => (own, Ghost(Layout::Scalar(json(*v)))),
        ValueRef::Number => (size_sum(own, Some(number_size(v))), Ghost(Layout::Scalar(json(*v)))),
        ValueRef::String(s) => (
            size_sum(own, Some(s.as_bytes().len())),
            Ghost(Layout::Scalar(json(*v))),
        ),
        ValueRef::Array(a) => {
            let capacity: usize = array_capacity(a);
            let (size, items) = measure_array(a, capacity, Ghost(json(*v)));
            (size, Ghost(Layout::Array { capacity: capacity as nat, items: items@ }))
        },
        ValueRef::Object(o) => {
            let capacity: usize = object_capacity(o);
            let (size, ls) = measure_object(o, capacity, Ghost(json(*v)));
            (size, Ghost(Layout::Object { capacity: capacity as nat, members: ls@ }))
        },
    }
}

fn measure_array(a: &IArray, capacity: usize, Ghost(whole): Ghost<Json>) -> (r: (
    Option<usize>,
    Ghost<Seq<Layout>>,
))
    requires
        whole == Json::Array(elements(*a)),
    ensures
        lay_out_elements(r.1@, elements(*a)),
        r.0 == fitted(total_bytes(Layout::Array { capacity: capacity as nat, items: r.1@ })),
    decreases whole, 1int,
{
    let (size, items) = measure_elements(a, Ghost(whole));
    (size_sum(Some(size_of::<IValue>()), array_size(capacity, size)), items)
}

fn measure_object(o: &IObject, capacity: usize, Ghost(whole): Ghost<Json>) -> (r: (
    Option<usize>,
    Ghost<Seq<(Seq<char>, Layout)>>,
))
    requires
        whole == Json::Object(members(*o)),
    ensures
        lay_out_members(r.1@, members(*o)),
        r.0 == fitted(total_bytes(Layout::Object { capacity: capacity as nat, members: r.1@ })),
    decreases whole, 1int,
{
    let (size, ls) = measure_members(o, Ghost(whole));
    (size_sum(Some(size_of::<IValue>()), object_size(capacity, size)), ls)
}

fn measure_elements(a: &IArray, Ghost(whole): Ghost<Json>) -> (r: (
    Option<usize>,
    Ghost<Seq<Layout>>,
))
    requires
        whole == Json::Array(elements(*a)),
    ensures
        lay_out_elements(r.1@, elements(*a)),
        r.0 == fitted(items_bytes(r.1@)),
    decreases whole, 0int,
{
    let len: usize = array_len(a);
    let mut sum: Option<usize> = Some(0);
    let ghost mut layouts: Seq<Layout> = Seq::empty();
    for i in 0..len
        invariant
            len == elements(*a).len(),
            whole == Json::Array(elements(*a)),
            layouts.len() == i,
            forall|k: int| 0 <= k < i ==> lays_out(#[trigger] layouts[k], elements(*a)[k]),
            sum == fitted(items_bytes(layouts)),
    {
        if let Some(v) = array_get(a, i) {
            assert(decreases_to!(whole => whole->Array_0));
            assert(decreases_to!(whole->Array_0 => whole->Array_0[i as int]));
            let (size, layout) = measure(v);
            sum = size_sum(sum, size);
            proof {
                assert(layouts.push(layout@).drop_last() =~= layouts);
                layouts = layouts.push(layout@);
            }
        }
    }
    (sum, Ghost(layouts))
}

fn measure_members(o: &IObject, Ghost(whole): Ghost<Json>) -> (r: (
    Option<usize>,
    Ghost<Seq<(Seq<char>, Layout)>>,
))
    requires
        whole == Json::Object(members(*o)),
    ensures
        lay_out_members(r.1@, members(*o)),
        r.0 == fitted(member_bytes(r.1@)),
    decreases whole, 0int,
{
    let list: Vec<(&str, &IValue)> = object_members(o);
    let mut sum: Option<usize> = Some(0);
    let ghost mut layouts: Seq<(Seq<char>, Layout)> = Seq::empty();
    for i in 0..list.len()
        invariant
            list@.len() == members(*o).len(),
            forall|k: int|
                0 <= k < list@.len() ==> (#[trigger] list@[k]).0@ == members(*o)[k].0 && json(
                    *list@[k].1,
                ) == members(*o)[k].1,
            whole == Json::Object(members(*o)),
            layouts.len() == i,
            forall|k: int|
                0 <= k < i ==> {
                    &&& (#[trigger] layouts[k]).0 == members(*o)[k].0
                    &&& lays_out(layouts[k].1, members(*o)[k].1)
                },
            sum == fitted(member_bytes(layouts)),
    {
        let (key, v) = list[i];
        assert(decreases_to!(whole => whole->Object_0));
        assert(decreases_to!(whole->Object_0 => whole->Object_0[i as int]));
        assert(decreases_to!(whole->Object_0[i as int] => whole->Object_0[i as int].1));
        let (size, layout) = measure(v);
        sum = size_sum(size_sum(sum, Some(key.as_bytes().len())), size);
        proof {
            let next = (key@, layout@);
            assert(layouts.push(next).drop_last() =~= layouts);
            layouts = layouts.push(next);
        }
    }
    (sum, Ghost(layouts))
}

}
