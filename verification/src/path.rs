//! Walking a path into a document, and changing or removing what it leads to.
use ijson::IValue;
use vstd::prelude::*;

use crate::error::Error;
use crate::index::parse_index;
use crate::json::{
    child, lemma_with_child_same, lookup, path_fits, put, taken_out, token_fits, tokens, with_child,
    without_child, Json, STRING_LIMIT,
};
use crate::values::{
    array_get, array_get_mut, array_remove, destructure_mut, destructure_ref, json, object_get,
    object_get_mut, object_remove, ValueMut, ValueRef,
};

verus! {

/// The rest of a path, one token further.
proof fn lemma_tokens_step(path: Seq<String>, from: int)
    requires
        0 <= from < path.len(),
    ensures
        tokens(path).skip(from).len() > 0,
        tokens(path).skip(from)[0] == path[from]@,
        tokens(path).skip(from).drop_first() == tokens(path).skip(from + 1),
{
    assert(tokens(path).skip(from).drop_first() =~= tokens(path).skip(from + 1));
}

/// Writing back what is at a path changes nothing.
pub(crate) proof fn lemma_put_same(j: Json, path: Seq<Seq<char>>)
    requires
        lookup(j, path) is Some,
    ensures
        put(j, path, lookup(j, path)->0) == j,
    decreases path.len(),
{
    if path.len() > 0 {
        lemma_put_same(child(j, path[0])->0, path.drop_first());
        lemma_with_child_same(j, path[0]);
    }
}

/// Where nothing is at a path, nothing is replaced there.
pub(crate) proof fn lemma_put_missing(j: Json, path: Seq<Seq<char>>, x: Json)
    requires
        lookup(j, path) is None,
    ensures
        put(j, path, x) == j,
    decreases path.len(),
{
    if path.len() > 0 && child(j, path[0]) is Some {
        lemma_put_missing(child(j, path[0])->0, path.drop_first(), x);
        lemma_with_child_same(j, path[0]);
    }
}

/// The value that one token leads to, to be changed in place.
fn child_mut<'a>(v: &'a mut IValue, token: &str) -> (r: Option<&'a mut IValue>)
    requires
        token_fits(json(*old(v)), token@),
    ensures
        match r {
            Some(c) => {
                &&& child(json(*old(v)), token@) == Some(json(*c))
                &&& json(*final(v)) == with_child(json(*old(v)), token@, json(*final(c)))
            },
            None => child(json(*old(v)), token@) is None && json(*final(v)) == json(*old(v)),
        },
{
    match destructure_mut(v) {
        ValueMut::Object(o) => object_get_mut(o, token),
        ValueMut::Array(a) => match parse_index(token) {
            Some(i) => array_get_mut(a, i),
            None => None,
        },
        _ => None,
    }
}

/// The value that the tokens from `from` on lead to.
fn follow_from<'a>(path: &Vec<String>, from: usize, root: &'a mut IValue) -> (r: Option<
    &'a mut IValue,
>)
    requires
        from <= path@.len(),
        path_fits(json(*old(root)), tokens(path@).skip(from as int)),
    ensures
        ({
            let rest = tokens(path@).skip(from as int);
            match r {
                Some(v) => {
                    &&& lookup(json(*old(root)), rest) == Some(json(*v))
                    &&& json(*final(root)) == put(json(*old(root)), rest, json(*final(v)))
                },
                None => lookup(json(*old(root)), rest) is None && json(*final(root)) == json(
                    *old(root),
                ),
            }
        }),
    decreases path@.len() - from,
{
    if from == path.len() {
        return Some(root);
    }
    proof {
        lemma_tokens_step(path@, from as int);
        if child(json(*root), path@[from as int]@) is Some {
            lemma_with_child_same(json(*root), path@[from as int]@);
        }
    }
    match child_mut(root, path[from].as_str()) {
        Some(c) => follow_from(path, from + 1, c),
        None => None,
    }
}

/// The value at `path`, to be changed in place.
pub fn follow_path(path: Vec<String>, root: &mut IValue) -> (r: Option<&mut IValue>)
    requires
        path_fits(json(*old(root)), tokens(path@)),
    ensures
        match r {
            Some(v) => {
                &&& lookup(json(*old(root)), tokens(path@)) == Some(json(*v))
                &&& json(*final(root)) == put(json(*old(root)), tokens(path@), json(*final(v)))
            },
            None => lookup(json(*old(root)), tokens(path@)) is None && json(*final(root)) == json(
                *old(root),
            ),
        },
{
    assert(tokens(path@).skip(0) =~= tokens(path@));
    follow_from(&path, 0, root)
}

/// Updates the value at `path`, starting from `root`.
///
/// The value is modified by `func`, which is called on the current value. What `func` returns is
/// returned, also where it is an error.
pub fn update<F, T>(path: Vec<String>, root: &mut IValue, func: F) -> (r: Result<T, Error>) where
    F: FnOnce(&mut IValue) -> Result<T, Error>,

    requires
        path_fits(json(*old(root)), tokens(path@)),
        forall|v: &mut IValue|
            lookup(json(*old(root)), tokens(path@)) == Some(json(*v)) ==> #[trigger] call_requires(
                func,
                (v,),
            ),
    ensures
        match lookup(json(*old(root)), tokens(path@)) {
            Some(t) => exists|v: &mut IValue| #[trigger]
                call_ensures(func, (v,), r) && json(*v) == t && json(*final(root)) == put(
                    json(*old(root)),
                    tokens(path@),
                    json(*final(v)),
                ),
            None => r == Err::<T, Error>(Error::PathDoesntExist) && json(*final(root)) == json(
                *old(root),
            ),
        },
{
    match follow_path(path, root) {
        Some(v) => func(v),
        None => Err(Error::PathDoesntExist),
    }
}

/// Removes the value that one token leads to.
fn remove_child(v: &mut IValue, token: &str) -> (r: bool)
    requires
        token_fits(json(*old(v)), token@),
    ensures
        match without_child(json(*old(v)), token@) {
            Some(left) => r && json(*final(v)) == left,
            None => !r && json(*final(v)) == json(*old(v)),
        },
{
    match destructure_mut(v) {
        ValueMut::Object(o) => object_remove(o, token).is_some(),
        ValueMut::Array(a) => match parse_index(token) {
            Some(i) => array_remove(a, i).is_some(),
            None => false,
        },
        _ => false,
    }
}

/// A path that fits has fitting tokens up to its last.
pub(crate) proof fn lemma_path_fits_parent(j: Json, path: Seq<Seq<char>>)
    requires
        path.len() > 0,
        path_fits(j, path),
    ensures
        path_fits(j, path.drop_last()),
        lookup(j, path.drop_last()) matches Some(parent) ==> token_fits(parent, path.last()),
    decreases path.len(),
{
    if path.len() > 1 {
        match child(j, path[0]) {
            Some(c) => {
                lemma_path_fits_parent(c, path.drop_first());
                assert(path.drop_first().drop_last() =~= path.drop_last().drop_first());
            },
            None => {},
        }
    }
}

/// Removes the value at `path`, starting from `root`, and tells whether there was one.
pub fn remove(path: Vec<String>, root: &mut IValue) -> (r: bool)
    requires
        path@.len() > 0,
        path_fits(json(*old(root)), tokens(path@)),
    ensures
        match taken_out(json(*old(root)), tokens(path@)) {
            Some(left) => r && json(*final(root)) == left,
            None => !r && json(*final(root)) == json(*old(root)),
        },
{
    let mut path: Vec<String> = path;
    let ghost whole = tokens(path@);
    let last = path.pop();
    proof {
        lemma_path_fits_parent(json(*root), whole);
        assert(tokens(path@) =~= whole.drop_last());
        if lookup(json(*root), tokens(path@)) is Some {
            lemma_put_same(json(*root), tokens(path@));
        }
    }
    match last {
        Some(token) => match follow_path(path, root) {
            Some(parent) => remove_child(parent, token.as_str()),
            None => false,
        },
        None => false,
    }
}

/// Whether every token of the path from `from` on fits the value that it is tried on.
fn fits_from(path: &Vec<String>, from: usize, root: &IValue) -> (r: bool)
    requires
        from <= path@.len(),
    ensures
        r == path_fits(json(*root), tokens(path@).skip(from as int)),
    decreases path@.len() - from,
{
    if from == path.len() {
        return true;
    }
    proof {
        lemma_tokens_step(path@, from as int);
    }
    let token = path[from].as_str();
    match destructure_ref(root) {
        ValueRef::Object(o) => {
            if token.as_bytes().len() as u64 >= STRING_LIMIT {
                return false;
            }
            match object_get(o, token) {
                Some(c) => fits_from(path, from + 1, c),
                None => true,
            }
        },
        ValueRef::Array(a) => match parse_index(token) {
            Some(i) => match array_get(a, i) {
                Some(c) => fits_from(path, from + 1, c),
                None => true,
            },
            None => false,
        },
        _ => true,
    }
}

/// Whether `path` can be walked from `root`: each token that is tried on an array is an index,
/// and each that is tried on an object can be a key.
pub fn is_fitting_path(path: &Vec<String>, root: &IValue) -> (r: bool)
    ensures
        r == path_fits(json(*root), tokens(path@)),
{
    assert(tokens(path@).skip(0) =~= tokens(path@));
    fits_from(path, 0, root)
}

/// The value that the tokens from `from` on lead to, to be read.
fn get_from<'a>(path: &Vec<String>, from: usize, root: &'a IValue) -> (r: Option<&'a IValue>)
    requires
        from <= path@.len(),
        path_fits(json(*root), tokens(path@).skip(from as int)),
    ensures
        match r {
            Some(v) => lookup(json(*root), tokens(path@).skip(from as int)) == Some(json(*v)),
            None => lookup(json(*root), tokens(path@).skip(from as int)) is None,
        },
    decreases path@.len() - from,
{
    if from == path.len() {
        return Some(root);
    }
    proof {
        lemma_tokens_step(path@, from as int);
    }
    let token = path[from].as_str();
    let next: Option<&IValue> = match destructure_ref(root) {
        ValueRef::Object(o) => object_get(o, token),
        ValueRef::Array(a) => match parse_index(token) {
            Some(i) => array_get(a, i),
            None => None,
        },
        _ => None,
    };
    match next {
        Some(c) => get_from(path, from + 1, c),
        None => None,
    }
}

/// The value at `path`, to be read.
pub fn get_at<'a>(path: &Vec<String>, root: &'a IValue) -> (r: Option<&'a IValue>)
    requires
        path_fits(json(*root), tokens(path@)),
    ensures
        match r {
            Some(v) => lookup(json(*root), tokens(path@)) == Some(json(*v)),
            None => lookup(json(*root), tokens(path@)) is None,
        },
{
    assert(tokens(path@).skip(0) =~= tokens(path@));
    get_from(path, 0, root)
}

}
