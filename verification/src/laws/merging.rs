//! What holds of merging a patch into a document.
use ijson::IValue;
use vstd::prelude::*;

use crate::json::{
    distinct_keys, lemma_position, lemma_position_distinct, lemma_position_update, member, position,
    swap_removed, well_formed, with_member, without_member, Json, Members,
};
use crate::laws::paths::lemma_swap_removed;
use crate::merge::{member_or_null, members_of, merge, merged, merged_members};
use crate::values::json;

verus! {

/// What `with_member` does to each key.
pub(crate) proof fn lemma_with_member(ms: Members, key: Seq<char>, x: Json)
    requires
        distinct_keys(ms),
    ensures
        distinct_keys(with_member(ms, key, x)),
        member(with_member(ms, key, x), key) == Some(x),
        forall|k: Seq<char>|
            k != key ==> #[trigger] member(with_member(ms, key, x), k) == member(ms, k),
{
    let after = with_member(ms, key, x);
    lemma_position(ms, key);
    match position(ms, key) {
        Some(i) => {
            lemma_position_distinct(after, i);
            assert forall|k: Seq<char>| k != key implies #[trigger] member(after, k) == member(
                ms,
                k,
            ) by {
                lemma_position(ms, k);
                lemma_position_update(ms, i, x, k);
            }
        },
        None => {
            assert(after.drop_last() =~= ms);
            assert forall|k: Seq<char>| k != key implies #[trigger] member(after, k) == member(
                ms,
                k,
            ) by {
                lemma_position(ms, k);
            }
        },
    }
}

/// What `without_member` does to each key.
proof fn lemma_without_member(ms: Members, key: Seq<char>)
    requires
        distinct_keys(ms),
    ensures
        distinct_keys(without_member(ms, key)),
        member(without_member(ms, key), key) is None,
        forall|k: Seq<char>|
            k != key ==> #[trigger] member(without_member(ms, key), k) == member(ms, k),
{
    lemma_position(ms, key);
    if let Some(i) = position(ms, key) {
        lemma_swap_removed(ms, i);
    }
}

/// The value that a member has once a patch was merged in: `new` is what the patch holds for its
/// key, `old_value` what was there.
pub open spec fn patched(old_value: Option<Json>, new: Option<Json>) -> Option<Json> {
    match new {
        None => old_value,
        Some(Json::Null) => None,
        Some(v) => Some(
            merged(
                match old_value {
                    Some(x) => x,
                    None => Json::Null,
                },
                v,
            ),
        ),
    }
}

/// A key that no member has is not in the start of the members either.
proof fn lemma_member_drop_last(ps: Members, key: Seq<char>)
    requires
        distinct_keys(ps),
        ps.len() > 0,
    ensures
        distinct_keys(ps.drop_last()),
        member(ps.drop_last(), ps.last().0) is None,
        key != ps.last().0 ==> member(ps.drop_last(), key) == member(ps, key),
        member(ps, ps.last().0) == Some(ps.last().1),
{
    let start = ps.drop_last();
    lemma_position(start, ps.last().0);
    lemma_position(start, key);
    if let Some(i) = position(start, ps.last().0) {
        assert(start[i] == ps[i]);
    }
}

/// The members after a merge, key by key.
proof fn lemma_merged_members(ds: Members, ps: Members, key: Seq<char>)
    requires
        distinct_keys(ds),
        distinct_keys(ps),
    ensures
        distinct_keys(merged_members(ds, ps)),
        member(merged_members(ds, ps), key) == patched(member(ds, key), member(ps, key)),
    decreases ps.len(),
{
    if ps.len() > 0 {
        let last = ps.last().0;
        let before = merged_members(ds, ps.drop_last());
        lemma_member_drop_last(ps, key);
        lemma_merged_members(ds, ps.drop_last(), key);
        lemma_merged_members(ds, ps.drop_last(), last);
        match ps.last().1 {
            Json::Null => lemma_without_member(before, last),
            v => lemma_with_member(before, last, merged(member_or_null(before, last), v)),
        }
    }
}

/// Merging goes by the members of the patch: a member that the patch does not speak of stays, one
/// for which it holds null goes, and any other is merged with what the patch holds for it, or
/// added.
pub proof fn law_merge_by_member(doc: Json, patch: Json, key: Seq<char>)
    requires
        well_formed(doc),
        well_formed(patch),
        patch is Object,
    ensures
        merged(doc, patch) is Object,
        member(merged(doc, patch)->Object_0, key) == patched(
            member(members_of(doc), key),
            member(patch->Object_0, key),
        ),
{
    lemma_merged_members(members_of(doc), patch->Object_0, key);
}

/// A patch that is no object takes the place of the document.
pub proof fn law_merge_replaces(doc: Json, patch: Json)
    requires
        !(patch is Object),
    ensures
        merged(doc, patch) == patch,
{
}

/// A patch that says nothing changes nothing.
pub proof fn law_merge_of_nothing(ms: Members)
    ensures
        merged(Json::Object(ms), Json::Object(Seq::empty())) == Json::Object(ms),
{
}

/// A document that is no object is merged into like one without members.
pub proof fn law_merge_into_no_object(doc: Json, patch: Json)
    requires
        !(doc is Object),
    ensures
        merged(doc, patch) == merged(Json::Object(Seq::empty()), patch),
{
}

/// Merging well-formed documents gives one.
pub proof fn law_merge_well_formed(doc: Json, patch: Json)
    requires
        well_formed(doc),
        well_formed(patch),
    ensures
        well_formed(merged(doc, patch)),
    decreases patch,
{
    if let Json::Object(ps) = patch {
        lemma_merged_members_well_formed(members_of(doc), ps);
    }
}

proof fn lemma_merged_members_well_formed(ds: Members, ps: Members)
    requires
        well_formed(Json::Object(ds)),
        well_formed(Json::Object(ps)),
    ensures
        well_formed(Json::Object(merged_members(ds, ps))),
    decreases ps,
{
    if ps.len() > 0 {
        let start = ps.drop_last();
        let (key, v) = ps.last();
        let before = merged_members(ds, start);
        lemma_member_drop_last(ps, key);
        assert forall|i: int| 0 <= i < start.len() implies well_formed(
            (#[trigger] start[i]).1,
        ) by {
            assert(start[i] == ps[i]);
        }
        lemma_merged_members_well_formed(ds, start);
        let at = position(before, key);
        lemma_position(before, key);
        if v is Null {
            lemma_without_member(before, key);
            if let Some(i) = at {
                lemma_swap_removed(before, i);
                let left = swap_removed(before, i);
                assert forall|k: int| 0 <= k < left.len() implies well_formed(
                    (#[trigger] left[k]).1,
                ) by {
                    let n = choose|n: int| 0 <= n < before.len() && left[k] == before[n];
                    assert(well_formed(before[n].1));
                }
            }
        } else {
            let current = member_or_null(before, key);
            let x = merged(current, v);
            assert(well_formed(ps[ps.len() - 1].1));
            if let Some(i) = at {
                assert(well_formed(before[i].1));
            }
            assert(decreases_to!(ps => ps[ps.len() - 1]));
            law_merge_well_formed(current, v);
            lemma_with_member(before, key, x);
            let after = with_member(before, key, x);
            assert forall|k: int| 0 <= k < after.len() implies well_formed(
                (#[trigger] after[k]).1,
            ) by {
                if k < before.len() && at != Some(k) {
                    assert(after[k] == before[k]);
                }
            }
        }
    }
}

/// Merging a patch in once more changes nothing.
pub proof fn law_merge_twice(doc: Json, patch: Json)
    requires
        well_formed(doc),
        well_formed(patch),
    ensures
        merged(merged(doc, patch), patch) == merged(doc, patch),
    decreases patch,
{
    if let Json::Object(ps) = patch {
        let ds = members_of(doc);
        let after = merged_members(ds, ps);
        law_merge_well_formed(doc, patch);
        assert(decreases_to!(patch => patch->Object_0));
        lemma_merge_start_twice(ds, ps, ps.len() as int);
        assert(ps.take(ps.len() as int) =~= ps);
    }
}

/// The first `n` members of a patch change nothing once the whole patch was merged in.
proof fn lemma_merge_start_twice(ds: Members, ps: Members, n: int)
    requires
        well_formed(Json::Object(ds)),
        well_formed(Json::Object(ps)),
        0 <= n <= ps.len(),
    ensures
        merged_members(merged_members(ds, ps), ps.take(n)) == merged_members(ds, ps),
    decreases ps, n,
{
    if n > 0 {
        let after = merged_members(ds, ps);
        let start = ps.take(n);
        let (key, v) = ps[n - 1];
        lemma_merge_start_twice(ds, ps, n - 1);
        assert(start.drop_last() =~= ps.take(n - 1));
        assert(start.last() == ps[n - 1]);
        lemma_merged_members(ds, ps, key);
        lemma_position_distinct(ps, n - 1);
        lemma_position(after, key);
        if !(v is Null) {
            let current = member_or_null(ds, key);
            lemma_position(ds, key);
            if let Some(i) = position(ds, key) {
                assert(well_formed(ds[i].1));
            }
            assert(well_formed(ps[n - 1].1));
            assert(decreases_to!(ps => ps[n - 1]));
            law_merge_twice(current, v);
            let i = position(after, key)->0;
            assert(after[i].1 == merged(current, v));
            assert(after.update(i, (key, after[i].1)) =~= after);
        }
    }
}

// ---------------------------------------------------------------------------------------------
// Member by member

/// Where the document is, or becomes, an object, merging a patch is merging the members of the
/// patch one after the other.
pub proof fn law_merge_in_turn(doc: Json, ps: Members, qs: Members)
    ensures
        merged(doc, Json::Object(ps + qs)) == merged(
            merged(doc, Json::Object(ps)),
            Json::Object(qs),
        ),
        !(doc is Object) ==> merged(doc, Json::Object(Seq::empty())) == Json::Object(Seq::empty()),
        doc is Object ==> merged(doc, Json::Object(Seq::empty())) == doc,
{
    lemma_merge_in_turn(members_of(doc), ps, qs);
}

proof fn lemma_merge_in_turn(ds: Members, ps: Members, qs: Members)
    ensures
        merged_members(ds, ps + qs) == merged_members(merged_members(ds, ps), qs),
    decreases qs.len(),
{
    if qs.len() == 0 {
        assert(ps + qs =~= ps);
    } else {
        lemma_merge_in_turn(ds, ps, qs.drop_last());
        assert((ps + qs).drop_last() =~= ps + qs.drop_last());
        assert((ps + qs).last() == qs.last());
    }
}

/// A member of a patch whose key the document has: null removes the member, and the last one takes
/// its place; anything else is merged with the value that is there, and no other member changes.
pub proof fn law_merge_known_key(ds: Members, i: int, v: Json)
    requires
        forall|a: int, b: int|
            0 <= a < b < ds.len() ==> #[trigger] ds[a].0 != #[trigger] ds[b].0,
        0 <= i < ds.len(),
    ensures
        ({
            let after = merged(Json::Object(ds), Json::Object(seq![(ds[i].0, v)]));
            if v is Null {
                &&& after matches Json::Object(us)
                &&& us.len() == ds.len() - 1
                &&& forall|k: int| 0 <= k < us.len() && k != i ==> #[trigger] us[k] == ds[k]
                &&& i < us.len() ==> us[i] == ds[ds.len() - 1]
            } else {
                &&& after matches Json::Object(us)
                &&& us.len() == ds.len()
                &&& forall|k: int| 0 <= k < us.len() && k != i ==> #[trigger] us[k] == ds[k]
                &&& us[i] == (ds[i].0, merged(ds[i].1, v))
            }
        }),
{
    let ps = seq![(ds[i].0, v)];
    assert(ps.drop_last() =~= Seq::empty());
    assert(ps.last() == (ds[i].0, v));
    assert(merged_members(ds, ps.drop_last()) == ds);
    lemma_position_distinct(ds, i);
}

/// A member of a patch whose key the document does not have: null changes nothing, and anything
/// else is added last, merged with null.
pub proof fn law_merge_new_key(ds: Members, key: Seq<char>, v: Json)
    requires
        forall|i: int| 0 <= i < ds.len() ==> (#[trigger] ds[i]).0 != key,
    ensures
        ({
            let after = merged(Json::Object(ds), Json::Object(seq![(key, v)]));
            if v is Null {
                after == Json::Object(ds)
            } else {
                after == Json::Object(ds.push((key, merged(Json::Null, v))))
            }
        }),
{
    let ps = seq![(key, v)];
    assert(ps.drop_last() =~= Seq::empty());
    assert(ps.last() == (key, v));
    assert(merged_members(ds, ps.drop_last()) == ds);
    lemma_position(ds, key);
}

/// Key by key: a member that the patch does not speak of keeps its value; one for which it holds
/// null is gone; any other has its value merged with what the patch holds.
pub proof fn law_merged_key(doc: Json, patch: Json, key: Seq<char>, i: int)
    requires
        well_formed(doc),
        well_formed(patch),
        patch is Object,
    ensures
        ({
            let ps = patch->Object_0;
            let after = merged(doc, patch);
            &&& (forall|k: int| 0 <= k < ps.len() ==> (#[trigger] ps[k]).0 != key) ==> member(
                after->Object_0,
                key,
            ) == if doc is Object {
                member(doc->Object_0, key)
            } else {
                None
            }
            &&& 0 <= i < ps.len() && ps[i].1 is Null ==> member(after->Object_0, ps[i].0) is None
            &&& 0 <= i < ps.len() && !(ps[i].1 is Null) ==> member(after->Object_0, ps[i].0)
                == Some(
                merged(
                    if doc is Object && member(doc->Object_0, ps[i].0) is Some {
                        member(doc->Object_0, ps[i].0)->0
                    } else {
                        Json::Null
                    },
                    ps[i].1,
                ),
            )
        }),
{
    let ps = patch->Object_0;
    lemma_position(ps, key);
    lemma_merged_members(members_of(doc), ps, key);
    if 0 <= i < ps.len() {
        lemma_position_distinct(ps, i);
        lemma_merged_members(members_of(doc), ps, ps[i].0);
    }
    lemma_position(members_of(doc), key);
}

/// A call of `merge` does so.
pub proof fn law_merge_call(t: Json, patch: IValue)
    ensures
        forall|doc: &mut IValue, r: ()| #[trigger]
            call_ensures(merge, (doc, patch), r) && json(*doc) == t ==> json(*final(doc))
                == merged(t, json(patch)),
{
}

}
