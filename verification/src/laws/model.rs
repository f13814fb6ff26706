//! What holds of documents and of single steps into them, said of their members, elements and
//! characters.
use ijson::IValue;
use vstd::prelude::*;
use vstd::utf8::{encode_scalar, encode_utf8};

use crate::error::Error;
use crate::json::{
    array_index, byte_len, child, lemma_with_child_same, lookup, member, path_fits, position, put,
    storable, taken_out, tokens, type_of, well_formed, with_child, with_member, without_child,
    without_member, Json, Members, Num, SelectValueType,
};
use crate::laws::paths::{law_lookup_in_steps, law_removal_succeeds};
use crate::ops::{get_type, optional_json};
use crate::path::{follow_path, get_at, is_fitting_path, remove, update};
use crate::values::{json, jsons};

verus! {

// ---------------------------------------------------------------------------------------------
// Kinds of values

/// Each value has its kind; an integer is a `Long` exactly where 64 bits with a sign can hold it.
pub proof fn law_kinds(b: bool, i: int, bits: u64, s: Seq<char>, es: Seq<Json>, ms: Members)
    ensures
        type_of(Json::Null) is Null,
        type_of(Json::Bool(b)) is Bool,
        type_of(Json::String(s)) is String,
        type_of(Json::Array(es)) is Array,
        type_of(Json::Object(ms)) is Object,
        type_of(Json::Number(Num::Double(bits))) is Double,
        -0x8000_0000_0000_0000 <= i <= 0x7fff_ffff_ffff_ffff ==> type_of(
            Json::Number(Num::Integer(i)),
        ) is Long,
        !(-0x8000_0000_0000_0000 <= i <= 0x7fff_ffff_ffff_ffff) ==> type_of(
            Json::Number(Num::Integer(i)),
        ) is Double,
{
}

/// A call of `get_type` gives the kind of the document that the value holds.
pub proof fn law_get_type_call(v: &IValue, r: SelectValueType)
    requires
        call_ensures(get_type, (v,), r),
    ensures
        r == type_of(json(*v)),
        r is Null <==> json(*v) is Null,
        r is Bool <==> json(*v) is Bool,
        r is String <==> json(*v) is String,
        r is Array <==> json(*v) is Array,
        r is Object <==> json(*v) is Object,
        r is Long || r is Double <==> json(*v) is Number,
{
}

// ---------------------------------------------------------------------------------------------
// Texts

/// The length of a text is that of its characters together: one byte for each up to U+007F, two
/// up to U+07FF, three up to U+FFFF and four above.
pub proof fn law_text_length(s: Seq<char>, c: char)
    ensures
        byte_len(Seq::empty()) == 0,
        byte_len(s.push(c)) == byte_len(s) + if c as u32 <= 0x7f {
            1nat
        } else if c as u32 <= 0x7ff {
            2nat
        } else if c as u32 <= 0xffff {
            3nat
        } else {
            4nat
        },
        byte_len(s) == encode_utf8(s).len(),
{
    lemma_encode_concat(s, seq![c]);
    assert(s + seq![c] =~= s.push(c));
    assert(seq![c][0] == c);
    assert(seq![c].drop_first() =~= Seq::<char>::empty());
    reveal_with_fuel(encode_utf8, 3);
    assert(encode_utf8(seq![c]) =~= encode_scalar(c as u32));
}

/// The length of two texts together is the sum of theirs.
pub proof fn law_text_length_sum(s: Seq<char>, t: Seq<char>)
    ensures
        byte_len(s + t) == byte_len(s) + byte_len(t),
{
    lemma_encode_concat(s, t);
}

/// A text can be stored exactly where it is below 2^48 bytes.
pub proof fn law_storable(s: Seq<char>)
    ensures
        storable(s) <==> encode_utf8(s).len() < 281_474_976_710_656,
{
}

pub(crate) proof fn lemma_encode_concat(s: Seq<char>, t: Seq<char>)
    ensures
        encode_utf8(s + t) == encode_utf8(s) + encode_utf8(t),
    decreases s.len(),
{
    if s.len() == 0 {
        assert(s + t =~= t);
        assert(encode_utf8(s) + encode_utf8(t) =~= encode_utf8(t));
    } else {
        lemma_encode_concat(s.drop_first(), t);
        assert((s + t).drop_first() =~= s.drop_first() + t);
        assert((s + t)[0] == s[0]);
        assert(encode_utf8(s + t) =~= encode_utf8(s) + encode_utf8(t));
    }
}

// ---------------------------------------------------------------------------------------------
// Members of an object

/// A key stands where the last member with that key is, and nowhere where there is none.
pub proof fn law_position(ms: Members, key: Seq<char>)
    ensures
        match position(ms, key) {
            Some(i) => {
                &&& 0 <= i < ms.len()
                &&& ms[i].0 == key
                &&& forall|k: int| i < k < ms.len() ==> (#[trigger] ms[k]).0 != key
            },
            None => forall|k: int| 0 <= k < ms.len() ==> (#[trigger] ms[k]).0 != key,
        },
    decreases ms.len(),
{
    if ms.len() > 0 && ms.last().0 != key {
        law_position(ms.drop_last(), key);
        assert forall|k: int|
            0 <= k < ms.len() && (position(ms, key) matches Some(i) ==> i < k) implies (
        #[trigger] ms[k]).0 != key by {
            if k < ms.len() - 1 {
                assert(ms.drop_last()[k] == ms[k]);
            }
        }
    }
}

/// Where no key occurs twice, each key leads to its own value, and any other to none.
pub proof fn law_member(ms: Members, i: int, key: Seq<char>)
    requires
        forall|a: int, b: int|
            0 <= a < b < ms.len() ==> #[trigger] ms[a].0 != #[trigger] ms[b].0,
    ensures
        0 <= i < ms.len() ==> member(ms, ms[i].0) == Some(ms[i].1),
        (forall|k: int| 0 <= k < ms.len() ==> (#[trigger] ms[k]).0 != key) ==> member(ms, key)
            is None,
{
    law_position(ms, key);
    if 0 <= i < ms.len() {
        law_position(ms, ms[i].0);
    }
}

/// Setting a member changes the value of the one that has the key, or adds a last one.
pub proof fn law_with_member(ms: Members, i: int, key: Seq<char>, x: Json)
    requires
        forall|a: int, b: int|
            0 <= a < b < ms.len() ==> #[trigger] ms[a].0 != #[trigger] ms[b].0,
    ensures
        0 <= i < ms.len() && ms[i].0 == key ==> with_member(ms, key, x) == ms.update(i, (key, x)),
        (forall|k: int| 0 <= k < ms.len() ==> (#[trigger] ms[k]).0 != key) ==> with_member(
            ms,
            key,
            x,
        ) == ms.push((key, x)),
{
    law_position(ms, key);
}

/// Removing a member puts the last one in its place, and leaves every other where it was.
pub proof fn law_without_member(ms: Members, i: int, key: Seq<char>)
    requires
        forall|a: int, b: int|
            0 <= a < b < ms.len() ==> #[trigger] ms[a].0 != #[trigger] ms[b].0,
    ensures
        0 <= i < ms.len() && ms[i].0 == key ==> {
            &&& without_member(ms, key).len() == ms.len() - 1
            &&& forall|k: int|
                0 <= k < ms.len() - 1 && k != i ==> #[trigger] without_member(ms, key)[k] == ms[k]
            &&& i < ms.len() - 1 ==> without_member(ms, key)[i] == ms[ms.len() - 1]
        },
        (forall|k: int| 0 <= k < ms.len() ==> (#[trigger] ms[k]).0 != key) ==> without_member(
            ms,
            key,
        ) == ms,
{
    law_position(ms, key);
}

/// A document is well formed where no object in it has a key twice.
pub proof fn law_well_formed(j: Json)
    ensures
        j matches Json::Array(es) ==> (well_formed(j) <==> forall|i: int|
            0 <= i < es.len() ==> well_formed(#[trigger] es[i])),
        j matches Json::Object(ms) ==> (well_formed(j) <==> {
            &&& forall|a: int, b: int|
                0 <= a < b < ms.len() ==> #[trigger] ms[a].0 != #[trigger] ms[b].0
            &&& forall|i: int| 0 <= i < ms.len() ==> well_formed((#[trigger] ms[i]).1)
        }),
        !(j is Array) && !(j is Object) ==> well_formed(j),
{
}

// ---------------------------------------------------------------------------------------------
// Steps into a document

/// The empty path leads to the whole document.
pub proof fn law_root(j: Json, x: Json)
    ensures
        lookup(j, Seq::empty()) == Some(j),
        put(j, Seq::empty(), x) == x,
        taken_out(j, Seq::empty()) is None,
        path_fits(j, Seq::empty()),
{
}

/// A token that is an index leads to the element at that index: that one is read, replaced or
/// removed, and no other.
pub proof fn law_step_into_array(es: Seq<Json>, token: Seq<char>, x: Json)
    ensures
        ({
            let j = Json::Array(es);
            match array_index(token) {
                Some(i) if i < es.len() => {
                    &&& lookup(j, seq![token]) == Some(es[i as int])
                    &&& put(j, seq![token], x) matches Json::Array(us)
                    &&& us.len() == es.len()
                    &&& us[i as int] == x
                    &&& forall|k: int| 0 <= k < es.len() && k != i ==> #[trigger] us[k] == es[k]
                    &&& taken_out(j, seq![token]) matches Some(Json::Array(ls))
                    &&& ls.len() == es.len() - 1
                    &&& forall|k: int| 0 <= k < i ==> #[trigger] ls[k] == es[k]
                    &&& forall|k: int| i <= k < ls.len() ==> #[trigger] ls[k] == es[k + 1]
                },
                _ => {
                    &&& lookup(j, seq![token]) is None
                    &&& put(j, seq![token], x) == j
                    &&& taken_out(j, seq![token]) is None
                },
            }
        }),
{
    lemma_one_step(Json::Array(es), token, x);
}

/// A key of an object leads to its value: that one is read, replaced or removed, and no other.
/// Once it is removed, the last member has its place.
pub proof fn law_step_into_object(ms: Members, i: int, x: Json)
    requires
        forall|a: int, b: int|
            0 <= a < b < ms.len() ==> #[trigger] ms[a].0 != #[trigger] ms[b].0,
        0 <= i < ms.len(),
    ensures
        ({
            let j = Json::Object(ms);
            let path = seq![ms[i].0];
            &&& lookup(j, path) == Some(ms[i].1)
            &&& put(j, path, x) matches Json::Object(us)
            &&& us.len() == ms.len()
            &&& us[i] == (ms[i].0, x)
            &&& forall|k: int| 0 <= k < ms.len() && k != i ==> #[trigger] us[k] == ms[k]
            &&& taken_out(j, path) matches Some(Json::Object(ls))
            &&& ls.len() == ms.len() - 1
            &&& forall|k: int| 0 <= k < ls.len() && k != i ==> #[trigger] ls[k] == ms[k]
            &&& i < ls.len() ==> ls[i] == ms[ms.len() - 1]
        }),
{
    law_position(ms, ms[i].0);
    lemma_one_step(Json::Object(ms), ms[i].0, x);
}

/// A text that is no key of an object leads nowhere, and so does every text in a value that holds
/// no others.
pub proof fn law_no_step(j: Json, token: Seq<char>, x: Json)
    requires
        j matches Json::Object(ms) ==> forall|k: int|
            0 <= k < ms.len() ==> (#[trigger] ms[k]).0 != token,
        !(j is Array),
    ensures
        lookup(j, seq![token]) is None,
        put(j, seq![token], x) == j,
        taken_out(j, seq![token]) is None,
{
    if let Json::Object(ms) = j {
        law_position(ms, token);
    }
    lemma_one_step(j, token, x);
}

proof fn lemma_one_step(j: Json, token: Seq<char>, x: Json)
    ensures
        lookup(j, seq![token]) == child(j, token),
        put(j, seq![token], x) == if child(j, token) is Some {
            with_child(j, token, x)
        } else {
            j
        },
        taken_out(j, seq![token]) == without_child(j, token),
{
    let path = seq![token];
    assert(path[0] == token);
    assert(path.drop_first() =~= Seq::empty());
    assert(path.drop_last() =~= Seq::empty());
    assert(path.last() == token);
    if let Some(c) = child(j, token) {
        assert(lookup(c, path.drop_first()) == Some(c));
        assert(put(c, path.drop_first(), x) == x);
    }
}

/// Replacing at a path is replacing, where its start leads, at the rest of it.
pub proof fn law_put_in_steps(j: Json, first: Seq<Seq<char>>, rest: Seq<Seq<char>>, x: Json)
    ensures
        put(j, first + rest, x) == match lookup(j, first) {
            Some(c) => put(j, first, put(c, rest, x)),
            None => j,
        },
    decreases first.len(),
{
    let whole = first + rest;
    if first.len() == 0 {
        assert(whole =~= rest);
    } else {
        assert(whole[0] == first[0]);
        assert(whole.drop_first() =~= first.drop_first() + rest);
        if let Some(c) = child(j, first[0]) {
            law_put_in_steps(c, first.drop_first(), rest, x);
            if lookup(c, first.drop_first()) is None {
                lemma_with_child_same(j, first[0]);
            }
        }
    }
}

/// Removing at a path is removing, where its start leads, at the rest of it.
pub proof fn law_removal_in_steps(j: Json, first: Seq<Seq<char>>, rest: Seq<Seq<char>>)
    requires
        rest.len() > 0,
    ensures
        taken_out(j, first + rest) == match lookup(j, first) {
            Some(c) => match taken_out(c, rest) {
                Some(left) => Some(put(j, first, left)),
                None => None,
            },
            None => None,
        },
{
    let whole = first + rest;
    assert(whole.drop_last() =~= first + rest.drop_last());
    assert(whole.last() == rest.last());
    law_lookup_in_steps(j, first, rest.drop_last());
    if let Some(c) = lookup(j, first) {
        if let Some(parent) = lookup(c, rest.drop_last()) {
            if let Some(left) = without_child(parent, rest.last()) {
                law_put_in_steps(j, first, rest.drop_last(), left);
            }
        }
    }
}

/// A path fits where each of its tokens does: on an array it is an index, on an object it is below
/// 2^48 bytes.
pub proof fn law_path_fits(j: Json, token: Seq<char>, rest: Seq<Seq<char>>)
    ensures
        path_fits(j, seq![token] + rest) <==> {
            &&& j is Array ==> array_index(token) is Some
            &&& j is Object ==> encode_utf8(token).len() < 281_474_976_710_656
            &&& lookup(j, seq![token]) matches Some(c) ==> path_fits(c, rest)
        },
{
    let path = seq![token] + rest;
    assert(path[0] == token);
    assert(path.drop_first() =~= rest);
    lemma_one_step(j, token, j);
}

/// The tokens of a path are the texts of its strings, one for one.
pub proof fn law_tokens(path: Seq<String>)
    ensures
        tokens(path).len() == path.len(),
        forall|i: int| 0 <= i < path.len() ==> #[trigger] tokens(path)[i] == path[i]@,
{
}

/// The documents of values are what each of them holds, one for one.
pub proof fn law_jsons(vs: Seq<IValue>, v: IValue)
    ensures
        jsons(vs).len() == vs.len(),
        forall|i: int| 0 <= i < vs.len() ==> #[trigger] jsons(vs)[i] == json(vs[i]),
        optional_json(Some(v)) == Some(json(v)),
        optional_json(None) is None,
{
}

// ---------------------------------------------------------------------------------------------
// Calls

/// Following a path gives what is there, and what is left there is what is then in the document.
pub proof fn law_follow_path_call(doc: Json, path: Vec<String>)
    ensures
        forall|root: &mut IValue, r: Option<&mut IValue>|
            #![trigger call_ensures(follow_path, (path, root), r)]
            call_ensures(follow_path, (path, root), r) && json(*root) == doc ==> match r {
                Some(v) => {
                    &&& lookup(doc, tokens(path@)) == Some(json(*v))
                    &&& json(*final(root)) == put(doc, tokens(path@), json(*final(v)))
                },
                None => lookup(doc, tokens(path@)) is None && json(*final(root)) == doc,
            },
{
}

/// Reading at a path gives what is there.
pub proof fn law_get_at_call(path: &Vec<String>, root: &IValue, r: Option<&IValue>)
    requires
        call_ensures(get_at, (path, root), r),
    ensures
        match lookup(json(*root), tokens(path@)) {
            Some(x) => r matches Some(v) && json(*v) == x,
            None => r is None,
        },
{
}

/// Asking whether a path fits tells whether it does.
pub proof fn law_is_fitting_path_call(path: &Vec<String>, root: &IValue, r: bool)
    requires
        call_ensures(is_fitting_path, (path, root), r),
    ensures
        r <==> path_fits(json(*root), tokens(path@)),
{
}

/// Updating calls the function on the value at the path: what it leaves there is in the document,
/// and what it returns is returned. Where nothing is there it is not called.
pub proof fn law_update_call<F, T>(doc: Json, path: Vec<String>, func: F) where
    F: FnOnce(&mut IValue) -> Result<T, Error>,

    ensures
        forall|root: &mut IValue, r: Result<T, Error>| #[trigger]
            call_ensures(update::<F, T>, (path, root, func), r) && json(*root) == doc
                ==> match lookup(doc, tokens(path@)) {
                Some(t) => exists|v: &mut IValue| #[trigger]
                    call_ensures(func, (v,), r) && json(*v) == t && json(*final(root)) == put(
                        doc,
                        tokens(path@),
                        json(*final(v)),
                    ),
                None => json(*final(root)) == doc && r == Err::<T, Error>(Error::PathDoesntExist),
            },
{
}

/// Removing at a path takes out what is there, and tells whether there was anything.
pub proof fn law_remove_call(doc: Json, path: Vec<String>)
    requires
        path@.len() > 0,
    ensures
        forall|root: &mut IValue, r: bool| #[trigger]
            call_ensures(remove, (path, root), r) && json(*root) == doc ==> {
                &&& r <==> lookup(doc, tokens(path@)) is Some
                &&& r ==> taken_out(doc, tokens(path@)) == Some(json(*final(root)))
                &&& !r ==> json(*final(root)) == doc
            },
{
    law_removal_succeeds(doc, tokens(path@));
}

}
