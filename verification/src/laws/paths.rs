//! What holds of reading, replacing and removing values at paths.
use vstd::prelude::*;

use crate::json::{
    array_index, child, distinct_keys, lemma_child_with_child, lemma_position,
    lemma_position_distinct, lemma_position_update, lookup, member, position, put, swap_removed,
    taken_out, well_formed, with_child, without_child, Json, Members,
};

verus! {

/// Whether two tokens lead to the same place in `j`.
pub open spec fn same_place(j: Json, a: Seq<char>, b: Seq<char>) -> bool {
    match j {
        Json::Array(_) => array_index(a) == array_index(b),
        _ => a == b,
    }
}

/// Whether two paths part ways in `j`: neither leads through where the other ends.
pub open spec fn part_ways(j: Json, p: Seq<Seq<char>>, q: Seq<Seq<char>>) -> bool
    decreases p.len(),
{
    p.len() > 0 && q.len() > 0 && if same_place(j, p[0], q[0]) {
        child(j, p[0]) matches Some(c) ==> part_ways(c, p.drop_first(), q.drop_first())
    } else {
        true
    }
}

/// What was put at a path is what is read there.
pub proof fn law_put_then_lookup(j: Json, path: Seq<Seq<char>>, x: Json)
    requires
        lookup(j, path) is Some,
    ensures
        lookup(put(j, path, x), path) == Some(x),
    decreases path.len(),
{
    if path.len() > 0 {
        let c = child(j, path[0])->0;
        law_put_then_lookup(c, path.drop_first(), x);
        lemma_child_with_child(j, path[0], put(c, path.drop_first(), x));
    }
}

/// Replacing one child twice is replacing it once, by the last value.
proof fn lemma_with_child_twice(j: Json, token: Seq<char>, x: Json, y: Json)
    requires
        child(j, token) is Some,
    ensures
        with_child(with_child(j, token, x), token, y) == with_child(j, token, y),
{
    match j {
        Json::Object(ms) => {
            lemma_position(ms, token);
            let i = position(ms, token)->0;
            lemma_position_update(ms, i, x, token);
            assert(ms.update(i, (token, x)).update(i, (token, y)) =~= ms.update(i, (token, y)));
        },
        Json::Array(es) => {
            let i = array_index(token)->0 as int;
            assert(es.update(i, x).update(i, y) =~= es.update(i, y));
        },
        _ => {},
    }
}

/// Of two values put at one path the last stays.
pub proof fn law_put_twice(j: Json, path: Seq<Seq<char>>, x: Json, y: Json)
    ensures
        put(put(j, path, x), path, y) == put(j, path, y),
    decreases path.len(),
{
    if path.len() > 0 {
        if let Some(c) = child(j, path[0]) {
            let rest = path.drop_first();
            law_put_twice(c, rest, x, y);
            lemma_child_with_child(j, path[0], put(c, rest, x));
            lemma_with_child_twice(j, path[0], put(c, rest, x), put(c, rest, y));
        }
    }
}

/// Putting a value back where it was read changes nothing.
pub proof fn law_put_what_was_read(j: Json, path: Seq<Seq<char>>)
    requires
        lookup(j, path) is Some,
    ensures
        put(j, path, lookup(j, path)->0) == j,
{
    crate::path::lemma_put_same(j, path);
}

/// Replacing one child leaves the others.
proof fn lemma_child_elsewhere(j: Json, a: Seq<char>, b: Seq<char>, x: Json)
    requires
        child(j, a) is Some,
        !same_place(j, a, b),
    ensures
        child(with_child(j, a, x), b) == child(j, b),
{
    if let Json::Object(ms) = j {
        lemma_position(ms, a);
        lemma_position(ms, b);
        lemma_position_update(ms, position(ms, a)->0, x, b);
    }
}

/// What is put at a path is not seen on a path that parts ways with it.
pub proof fn law_put_leaves_the_rest(
    j: Json,
    path: Seq<Seq<char>>,
    x: Json,
    other: Seq<Seq<char>>,
)
    requires
        part_ways(j, path, other),
    ensures
        lookup(put(j, path, x), other) == lookup(j, other),
    decreases path.len(),
{
    if let Some(c) = child(j, path[0]) {
        let inner = put(c, path.drop_first(), x);
        if same_place(j, path[0], other[0]) {
            assert(child(j, other[0]) == Some(c));
            law_put_leaves_the_rest(c, path.drop_first(), x, other.drop_first());
            lemma_child_with_child(j, path[0], inner);
            assert(child(with_child(j, path[0], inner), other[0]) == Some(inner));
        } else {
            lemma_child_elsewhere(j, path[0], other[0], inner);
        }
    }
}

/// A path goes on from where its start leads.
pub proof fn law_lookup_in_steps(j: Json, first: Seq<Seq<char>>, rest: Seq<Seq<char>>)
    ensures
        lookup(j, first + rest) == match lookup(j, first) {
            Some(c) => lookup(c, rest),
            None => None,
        },
    decreases first.len(),
{
    let whole = first + rest;
    if first.len() == 0 {
        assert(whole =~= rest);
    } else {
        assert(whole[0] == first[0]);
        assert(whole.drop_first() =~= first.drop_first() + rest);
        if let Some(c) = child(j, first[0]) {
            law_lookup_in_steps(c, first.drop_first(), rest);
        }
    }
}

/// Below a path, what is read is read from what was put there.
pub proof fn law_put_then_lookup_below(
    j: Json,
    path: Seq<Seq<char>>,
    x: Json,
    rest: Seq<Seq<char>>,
)
    requires
        lookup(j, path) is Some,
    ensures
        lookup(put(j, path, x), path + rest) == lookup(x, rest),
{
    law_put_then_lookup(j, path, x);
    law_lookup_in_steps(put(j, path, x), path, rest);
}

// ---------------------------------------------------------------------------------------------
// Removing

/// Where the members stand once one of them is removed.
pub(crate) proof fn lemma_swap_removed(ms: Members, i: int)
    requires
        distinct_keys(ms),
        0 <= i < ms.len(),
    ensures
        distinct_keys(swap_removed(ms, i)),
        member(swap_removed(ms, i), ms[i].0) is None,
        forall|key: Seq<char>|
            key != ms[i].0 ==> #[trigger] member(swap_removed(ms, i), key) == member(ms, key),
        forall|k: int|
            0 <= k < swap_removed(ms, i).len() ==> exists|n: int|
                0 <= n < ms.len() && #[trigger] swap_removed(ms, i)[k] == #[trigger] ms[n],
{
    let left = swap_removed(ms, i);
    let last = ms.len() - 1;
    assert forall|k: int| 0 <= k < left.len() implies #[trigger] left[k] == ms[if k == i {
        last
    } else {
        k
    }] by {}
    lemma_position(left, ms[i].0);
    assert forall|key: Seq<char>| key != ms[i].0 implies #[trigger] member(left, key) == member(
        ms,
        key,
    ) by {
        lemma_position(ms, key);
        lemma_position(left, key);
        if let Some(n) = position(ms, key) {
            let m = if n == last {
                i
            } else {
                n
            };
            assert(left[m] == ms[n]);
            lemma_position_distinct(left, m);
        } else if let Some(m) = position(left, key) {
            assert(left[m] == ms[if m == i {
                last
            } else {
                m
            }]);
        }
    }
}

/// A document is well formed exactly where its parts are.
proof fn lemma_child_well_formed(j: Json, token: Seq<char>)
    requires
        well_formed(j),
        child(j, token) is Some,
    ensures
        well_formed(child(j, token)->0),
{
    if let Json::Object(ms) = j {
        lemma_position(ms, token);
        let i = position(ms, token)->0;
        assert(well_formed(ms[i].1));
    }
}

/// What is read from a well-formed document is well formed.
pub proof fn law_lookup_well_formed(j: Json, path: Seq<Seq<char>>)
    requires
        well_formed(j),
        lookup(j, path) is Some,
    ensures
        well_formed(lookup(j, path)->0),
    decreases path.len(),
{
    if path.len() > 0 {
        lemma_child_well_formed(j, path[0]);
        law_lookup_well_formed(child(j, path[0])->0, path.drop_first());
    }
}

/// A well-formed document stays so when a well-formed value is put into it.
pub proof fn law_put_well_formed(j: Json, path: Seq<Seq<char>>, x: Json)
    requires
        well_formed(j),
        well_formed(x),
    ensures
        well_formed(put(j, path, x)),
    decreases path.len(),
{
    if path.len() > 0 {
        if let Some(c) = child(j, path[0]) {
            lemma_child_well_formed(j, path[0]);
            let inner = put(c, path.drop_first(), x);
            law_put_well_formed(c, path.drop_first(), x);
            match j {
                Json::Object(ms) => {
                    lemma_position(ms, path[0]);
                    let i = position(ms, path[0])->0;
                    let us = ms.update(i, (path[0], inner));
                    assert forall|a: int, b: int|
                        0 <= a < us.len() && 0 <= b < us.len() && a != b implies #[trigger] us[a].0
                        != #[trigger] us[b].0 by {
                        assert(us[a].0 == ms[a].0);
                        assert(us[b].0 == ms[b].0);
                    }
                    assert forall|k: int| 0 <= k < us.len() implies well_formed(
                        (#[trigger] us[k]).1,
                    ) by {
                        if k != i {
                            assert(us[k] == ms[k]);
                        }
                    }
                },
                _ => {},
            }
        }
    }
}

/// A well-formed document stays so when a value is removed from it.
pub proof fn law_removal_well_formed(j: Json, path: Seq<Seq<char>>)
    requires
        well_formed(j),
        taken_out(j, path) is Some,
    ensures
        well_formed(taken_out(j, path)->0),
{
    let parent = lookup(j, path.drop_last())->0;
    let left = without_child(parent, path.last())->0;
    law_lookup_well_formed(j, path.drop_last());
    match parent {
        Json::Object(ms) => {
            let i = position(ms, path.last())->0;
            lemma_position(ms, path.last());
            lemma_swap_removed(ms, i);
            assert forall|k: int| 0 <= k < swap_removed(ms, i).len() implies well_formed(
                (#[trigger] swap_removed(ms, i)[k]).1,
            ) by {
                let n = choose|n: int| 0 <= n < ms.len() && swap_removed(ms, i)[k] == ms[n];
                assert(well_formed(ms[n].1));
            }
        },
        Json::Array(es) => {
            let i = array_index(path.last())->0 as int;
            assert forall|k: int| 0 <= k < es.remove(i).len() implies well_formed(
                #[trigger] es.remove(i)[k],
            ) by {
                assert(es.remove(i)[k] == es[if k < i {
                    k
                } else {
                    k + 1
                }]);
            }
        },
        _ => {},
    }
    law_put_well_formed(j, path.drop_last(), left);
}

/// A value can be removed exactly where one can be read, but for the whole document.
pub proof fn law_removal_succeeds(j: Json, path: Seq<Seq<char>>)
    requires
        path.len() > 0,
    ensures
        taken_out(j, path) is Some <==> lookup(j, path) is Some,
{
    assert(path =~= path.drop_last() + seq![path.last()]);
    law_lookup_in_steps(j, path.drop_last(), seq![path.last()]);
    if let Some(parent) = lookup(j, path.drop_last()) {
        let step = seq![path.last()];
        assert(step[0] == path.last());
        if let Some(c) = child(parent, path.last()) {
            assert(lookup(c, step.drop_first()) == Some(c));
        }
    }
}

/// Once a member of an object is removed, nothing is at its path, and whatever parts ways with it
/// is where it was.
pub proof fn law_removed_member(
    j: Json,
    parent: Seq<Seq<char>>,
    key: Seq<char>,
    other: Seq<Seq<char>>,
)
    requires
        well_formed(j),
        lookup(j, parent) matches Some(p) && p is Object,
        taken_out(j, parent.push(key)) is Some,
    ensures
        lookup(taken_out(j, parent.push(key))->0, parent.push(key)) is None,
        part_ways(j, parent.push(key), other) ==> lookup(
            taken_out(j, parent.push(key))->0,
            other,
        ) == lookup(j, other),
{
    let path = parent.push(key);
    let left = taken_out(j, path)->0;
    let ms = lookup(j, parent)->0->Object_0;
    assert(path.drop_last() =~= parent);
    let i = position(ms, key)->0;
    let without = Json::Object(swap_removed(ms, i));
    assert(left == put(j, parent, without));
    law_lookup_well_formed(j, parent);
    lemma_position(ms, key);
    lemma_swap_removed(ms, i);
    law_put_then_lookup_below(j, parent, without, seq![key]);
    assert(parent + seq![key] =~= path);
    assert(seq![key][0] == key);
    law_removal_succeeds(j, path);
    if part_ways(j, path, other) {
        lemma_removed_elsewhere(j, parent, key, without, other);
    }
}

/// Replacing an object by one that has the same members, but for one key, is not seen on a path
/// that parts ways with that key.
proof fn lemma_removed_elsewhere(
    j: Json,
    parent: Seq<Seq<char>>,
    key: Seq<char>,
    without: Json,
    other: Seq<Seq<char>>,
)
    requires
        lookup(j, parent) matches Some(p) && p is Object,
        without is Object,
        forall|k: Seq<char>|
            k != key ==> #[trigger] member(without->Object_0, k) == member(
                lookup(j, parent)->0->Object_0,
                k,
            ),
        part_ways(j, parent.push(key), other),
        lookup(j, parent.push(key)) is Some,
    ensures
        lookup(put(j, parent, without), other) == lookup(j, other),
    decreases parent.len(),
{
    let path = parent.push(key);
    if parent.len() == 0 {
        assert(path[0] == key);
        assert(child(j, key) is Some);
        if same_place(j, key, other[0]) {
            let c = child(j, key)->0;
            assert(!part_ways(c, path.drop_first(), other.drop_first()));
        }
        assert(child(without, other[0]) == child(j, other[0]));
    } else {
        assert(path[0] == parent[0]);
        assert(path.drop_first() =~= parent.drop_first().push(key));
        let c = child(j, parent[0])->0;
        let inner = put(c, parent.drop_first(), without);
        if same_place(j, parent[0], other[0]) {
            lemma_removed_elsewhere(c, parent.drop_first(), key, without, other.drop_first());
            lemma_child_with_child(j, parent[0], inner);
            assert(child(with_child(j, parent[0], inner), other[0]) == Some(inner));
            assert(child(j, other[0]) == Some(c));
        } else {
            lemma_child_elsewhere(j, parent[0], other[0], inner);
        }
    }
}

/// Once an element of an array is removed, those before it are where they were, and those after
/// it have moved up by one; whatever parts ways with the array is where it was.
pub proof fn law_removed_element(
    j: Json,
    parent: Seq<Seq<char>>,
    token: Seq<char>,
    other: Seq<Seq<char>>,
)
    requires
        lookup(j, parent) matches Some(p) && p is Array,
        taken_out(j, parent.push(token)) is Some,
    ensures
        ({
            let left = taken_out(j, parent.push(token))->0;
            let before = lookup(j, parent)->0->Array_0;
            let i = array_index(token)->0 as int;
            &&& lookup(left, parent) matches Some(Json::Array(after))
            &&& after.len() == before.len() - 1
            &&& forall|k: int| 0 <= k < i ==> after[k] == before[k]
            &&& forall|k: int| i <= k < after.len() ==> after[k] == before[k + 1]
            &&& part_ways(j, parent, other) ==> lookup(left, other) == lookup(j, other)
        }),
{
    let before = lookup(j, parent)->0->Array_0;
    let i = array_index(token)->0 as int;
    assert(parent.push(token).drop_last() =~= parent);
    law_put_then_lookup(j, parent, Json::Array(before.remove(i)));
    if part_ways(j, parent, other) {
        law_put_leaves_the_rest(j, parent, Json::Array(before.remove(i)), other);
    }
}

}
