//! Merging a patch into a document, as RFC 7396 describes it.
use ijson::IValue;
use vstd::prelude::*;

use crate::json::{member, storable, with_member, without_member, Json, Members};
use crate::values::{
    destructure_mut, destructure_ref, empty_object_value, json, members, null_value,
    object_entry_or_insert, object_remove, object_take_members, ValueMut, ValueRef,
};

verus! {

/// The members of a document; a document that is no object has none.
pub open spec fn members_of(doc: Json) -> Members {
    match doc {
        Json::Object(ms) => ms,
        _ => Seq::empty(),
    }
}

/// The value of a member, or null where there is none.
pub open spec fn member_or_null(ms: Members, key: Seq<char>) -> Json {
    match member(ms, key) {
        Some(x) => x,
        None => Json::Null,
    }
}

/// `doc` after `patch`: a patch that is no object replaces the document, and the members of one
/// that is an object are merged in.
pub open spec fn merged(doc: Json, patch: Json) -> Json
    decreases patch,
{
    match patch {
        Json::Object(ps) => Json::Object(merged_members(members_of(doc), ps)),
        _ => patch,
    }
}

/// The members `ds` after the members `ps` of a patch, one after the other: null removes a
/// member, any other value is merged into the member of that key, which is added where it is
/// missing.
pub open spec fn merged_members(ds: Members, ps: Members) -> Members
    decreases ps,
{
    if ps.len() == 0 {
        ds
    } else {
        let before = merged_members(ds, ps.drop_last());
        let key = ps.last().0;
        match ps.last().1 {
            Json::Null => without_member(before, key),
            v => with_member(before, key, merged(member_or_null(before, key), v)),
        }
    }
}

/// Merges `patch` into `doc`.
pub fn merge(doc: &mut IValue, patch: IValue)
    ensures
        json(*final(doc)) == merged(json(*old(doc)), json(patch)),
    decreases json(patch),
{
    let ghost whole = json(patch);
    let mut source: IValue = patch;
    let entries: Vec<(String, IValue)> = match destructure_mut(&mut source) {
        ValueMut::Object(o) => object_take_members(o),
        _ => {
            *doc = source;
            return;
        },
    };
    let ghost ds = members_of(json(*doc));
    let ghost ps = whole->Object_0;
    let is_object: bool = match destructure_ref(doc) {
        ValueRef::Object(_) => true,
        _ => false,
    };
    if !is_object {
        *doc = empty_object_value();
    }
    if let ValueMut::Object(map) = destructure_mut(doc) {
        for entry in it: entries
            invariant
                whole == json(patch),
                whole == Json::Object(ps),
                it.seq().len() == ps.len(),
                forall|i: int|
                    0 <= i < ps.len() ==> {
                        &&& (#[trigger] it.seq()[i]).0@ == ps[i].0
                        &&& json(it.seq()[i].1) == ps[i].1
                        &&& storable(it.seq()[i].0@)
                    },
                members(*map) == merged_members(ds, ps.take(it.index() as int)),
        {
            let ghost n = it.index() as int;
            proof {
                assert(ps.take(n + 1).drop_last() =~= ps.take(n));
                assert(ps.take(n + 1).last() == ps[n]);
            }
            let (key, value) = entry;
            let is_null: bool = match destructure_ref(&value) {
                ValueRef::Null => true,
                _ => false,
            };
            if is_null {
                object_remove(map, key.as_str());
            } else {
                let target = object_entry_or_insert(map, key.as_str(), null_value());
                assert(decreases_to!(whole => whole->Object_0));
                assert(decreases_to!(ps => ps[n]));
                assert(decreases_to!(ps[n] => ps[n].1));
                merge(target, value);
            }
        }
        assert(ps.take(ps.len() as int) =~= ps);
    }
}

}
