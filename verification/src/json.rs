//! The mathematical model of a JSON document: trees, members of objects, and paths into them.
use vstd::prelude::*;
use vstd::utf8::encode_utf8;

verus! {

/// A JSON number: an integer, or a double given by its IEEE 754 bit pattern.
///
/// `1` and `1.0` are different numbers here, as they are in the text of a document.
pub enum Num {
    Integer(int),
    Double(u64),
}

/// A JSON value. The members of an object stand in the order in which they are stored.
pub enum Json {
    Null,
    Bool(bool),
    Number(Num),
    String(Seq<char>),
    Array(Seq<Json>),
    Object(Seq<(Seq<char>, Json)>),
}

/// The members of an object: keys with their values.
pub type Members = Seq<(Seq<char>, Json)>;

/// The kind of a value, with numbers told apart by how they are read.
#[derive(Clone, Copy, Debug, PartialEq, Eq, Structural)]
pub enum SelectValueType {
    Null,
    Bool,
    Long,
    Double,
    String,
    Array,
    Object,
}

/// Whether an integer can be held in an `i64`.
pub open spec fn is_long(i: int) -> bool {
    i64::MIN <= i <= i64::MAX
}

/// The kind of `j`. A number is a `Long` when it is an integer that fits an `i64`.
pub open spec fn type_of(j: Json) -> SelectValueType {
    match j {
        Json::Null => SelectValueType::Null,
        Json::Bool(_) => SelectValueType::Bool,
        Json::Number(Num::Integer(i)) => if is_long(i) {
            SelectValueType::Long
        } else {
            SelectValueType::Double
        },
        Json::Number(Num::Double(_)) => SelectValueType::Double,
        Json::String(_) => SelectValueType::String,
        Json::Array(_) => SelectValueType::Array,
        Json::Object(_) => SelectValueType::Object,
    }
}

/// The length of a text in bytes, encoded as UTF-8.
pub open spec fn byte_len(s: Seq<char>) -> nat {
    encode_utf8(s).len()
}

/// The number of bytes that a string of a document stays below.
pub const STRING_LIMIT: u64 = 0x1_0000_0000_0000;

/// Whether a text is short enough to be a string or a key of a document.
pub open spec fn storable(s: Seq<char>) -> bool {
    byte_len(s) < STRING_LIMIT
}

// ---------------------------------------------------------------------------------------------
// Members of an object

/// Where the member with the key `key` stands.
pub open spec fn position(ms: Members, key: Seq<char>) -> Option<int>
    decreases ms.len(),
{
    if ms.len() == 0 {
        None
    } else if ms.last().0 == key {
        Some(ms.len() - 1)
    } else {
        position(ms.drop_last(), key)
    }
}

/// The value of the member with the key `key`.
pub open spec fn member(ms: Members, key: Seq<char>) -> Option<Json> {
    match position(ms, key) {
        Some(i) => Some(ms[i].1),
        None => None,
    }
}

/// `ms` with the value `x` under `key`: in the place of the old value, or else as a new last member.
pub open spec fn with_member(ms: Members, key: Seq<char>, x: Json) -> Members {
    match position(ms, key) {
        Some(i) => ms.update(i, (key, x)),
        None => ms.push((key, x)),
    }
}

/// `ms` without the member at `i`: the last member takes its place.
pub open spec fn swap_removed(ms: Members, i: int) -> Members {
    ms.update(i, ms.last()).drop_last()
}

/// `ms` without the member with the key `key`.
pub open spec fn without_member(ms: Members, key: Seq<char>) -> Members {
    match position(ms, key) {
        Some(i) => swap_removed(ms, i),
        None => ms,
    }
}

/// No key occurs twice.
pub open spec fn distinct_keys(ms: Members) -> bool {
    forall|i: int, j: int|
        0 <= i < ms.len() && 0 <= j < ms.len() && i != j ==> #[trigger] ms[i].0 != #[trigger] ms[j].0
}

/// No object in `j` has a key twice.
pub open spec fn well_formed(j: Json) -> bool
    decreases j,
{
    match j {
        Json::Array(es) => forall|i: int| 0 <= i < es.len() ==> well_formed(#[trigger] es[i]),
        Json::Object(ms) => {
            &&& distinct_keys(ms)
            &&& forall|i: int| 0 <= i < ms.len() ==> well_formed((#[trigger] ms[i]).1)
        },
        _ => true,
    }
}

// ---------------------------------------------------------------------------------------------
// Paths

/// The number that a text of decimal digits denotes.
pub open spec fn digits_value(s: Seq<char>) -> Option<nat>
    decreases s.len(),
{
    if s.len() == 0 {
        Some(0)
    } else {
        match digits_value(s.drop_last()) {
            Some(n) => if '0' <= s.last() && s.last() <= '9' {
                Some((n * 10 + (s.last() as int - '0' as int)) as nat)
            } else {
                None
            },
            None => None,
        }
    }
}

/// The digits of an array index: what follows an optional plus sign.
pub open spec fn index_digits(token: Seq<char>) -> Seq<char> {
    if token.len() > 0 && token[0] == '+' {
        token.drop_first()
    } else {
        token
    }
}

/// The array index that a path token denotes: one or more digits, after an optional plus sign,
/// whose number fits a `usize`.
pub open spec fn array_index(token: Seq<char>) -> Option<nat> {
    match digits_value(index_digits(token)) {
        Some(n) => if index_digits(token).len() > 0 && n <= usize::MAX {
            Some(n)
        } else {
            None
        },
        None => None,
    }
}

/// The value that one token leads to: a member of an object or an element of an array.
pub open spec fn child(j: Json, token: Seq<char>) -> Option<Json> {
    match j {
        Json::Object(ms) => member(ms, token),
        Json::Array(es) => match array_index(token) {
            Some(i) => if i < es.len() {
                Some(es[i as int])
            } else {
                None
            },
            None => None,
        },
        _ => None,
    }
}

/// `j` with the value that `token` leads to replaced by `x`.
pub open spec fn with_child(j: Json, token: Seq<char>, x: Json) -> Json {
    match j {
        Json::Object(ms) => match position(ms, token) {
            Some(i) => Json::Object(ms.update(i, (token, x))),
            None => j,
        },
        Json::Array(es) => match array_index(token) {
            Some(i) => if i < es.len() {
                Json::Array(es.update(i as int, x))
            } else {
                j
            },
            None => j,
        },
        _ => j,
    }
}

/// `j` without the value that `token` leads to; nothing, where it leads to none.
pub open spec fn without_child(j: Json, token: Seq<char>) -> Option<Json> {
    match j {
        Json::Object(ms) => match position(ms, token) {
            Some(i) => Some(Json::Object(swap_removed(ms, i))),
            None => None,
        },
        Json::Array(es) => match array_index(token) {
            Some(i) => if i < es.len() {
                Some(Json::Array(es.remove(i as int)))
            } else {
                None
            },
            None => None,
        },
        _ => None,
    }
}

/// The tokens of a path.
pub open spec fn tokens(path: Seq<String>) -> Seq<Seq<char>> {
    path.map_values(|s: String| s@)
}

/// The value at `path`.
pub open spec fn lookup(j: Json, path: Seq<Seq<char>>) -> Option<Json>
    decreases path.len(),
{
    if path.len() == 0 {
        Some(j)
    } else {
        match child(j, path[0]) {
            Some(c) => lookup(c, path.drop_first()),
            None => None,
        }
    }
}

/// `j` with the value at `path` replaced by `x`; `j` itself, where nothing is at `path`.
pub open spec fn put(j: Json, path: Seq<Seq<char>>, x: Json) -> Json
    decreases path.len(),
{
    if path.len() == 0 {
        x
    } else {
        match child(j, path[0]) {
            Some(c) => with_child(j, path[0], put(c, path.drop_first(), x)),
            None => j,
        }
    }
}

/// `j` without the value at `path`; nothing, where none is there. The root is never taken out.
pub open spec fn taken_out(j: Json, path: Seq<Seq<char>>) -> Option<Json> {
    if path.len() == 0 {
        None
    } else {
        match lookup(j, path.drop_last()) {
            Some(parent) => match without_child(parent, path.last()) {
                Some(left) => Some(put(j, path.drop_last(), left)),
                None => None,
            },
            None => None,
        }
    }
}

/// Whether `token` can be tried on `j`: on an array it must be an index, on an object a
/// text that a key can be.
pub open spec fn token_fits(j: Json, token: Seq<char>) -> bool {
    match j {
        Json::Array(_) => array_index(token) is Some,
        Json::Object(_) => storable(token),
        _ => true,
    }
}

/// Whether every token of `path` fits the value that the tokens before it lead to.
pub open spec fn path_fits(j: Json, path: Seq<Seq<char>>) -> bool
    decreases path.len(),
{
    path.len() > 0 ==> {
        &&& token_fits(j, path[0])
        &&& child(j, path[0]) matches Some(c) ==> path_fits(c, path.drop_first())
    }
}

// ---------------------------------------------------------------------------------------------
// Facts

pub(crate) proof fn lemma_position(ms: Members, key: Seq<char>)
    ensures
        match position(ms, key) {
            Some(i) => 0 <= i < ms.len() && ms[i].0 == key,
            None => forall|i: int| 0 <= i < ms.len() ==> (#[trigger] ms[i]).0 != key,
        },
    decreases ms.len(),
{
    if ms.len() > 0 && ms.last().0 != key {
        lemma_position(ms.drop_last(), key);
        assert forall|i: int| 0 <= i < ms.len() && position(ms, key) is None implies (
        #[trigger] ms[i]).0 != key by {
            if i < ms.len() - 1 {
                assert(ms.drop_last()[i] == ms[i]);
            }
        }
    }
}

/// Where keys are distinct, a member is where its key stands.
pub(crate) proof fn lemma_position_distinct(ms: Members, i: int)
    requires
        distinct_keys(ms),
        0 <= i < ms.len(),
    ensures
        position(ms, ms[i].0) == Some(i),
{
    lemma_position(ms, ms[i].0);
}

/// The value of a member does not matter for where it stands.
pub(crate) proof fn lemma_position_update(ms: Members, i: int, x: Json, key: Seq<char>)
    requires
        0 <= i < ms.len(),
    ensures
        position(ms.update(i, (ms[i].0, x)), key) == position(ms, key),
    decreases ms.len(),
{
    let us = ms.update(i, (ms[i].0, x));
    assert(us.last().0 == ms.last().0);
    if ms.last().0 != key {
        if i == ms.len() - 1 {
            assert(us.drop_last() =~= ms.drop_last());
        } else {
            assert(us.drop_last() =~= ms.drop_last().update(i, (ms[i].0, x)));
            lemma_position_update(ms.drop_last(), i, x, key);
        }
    }
}

/// Replacing a value by itself changes nothing.
pub(crate) proof fn lemma_with_child_same(j: Json, token: Seq<char>)
    requires
        child(j, token) is Some,
    ensures
        with_child(j, token, child(j, token)->0) == j,
{
    match j {
        Json::Object(ms) => {
            lemma_position(ms, token);
            let i = position(ms, token)->0;
            assert(ms.update(i, (token, ms[i].1)) =~= ms);
        },
        Json::Array(es) => {
            let i = array_index(token)->0 as int;
            assert(es.update(i, es[i]) =~= es);
        },
        _ => {},
    }
}

/// What replaces a child is what its token then leads to.
pub(crate) proof fn lemma_child_with_child(j: Json, token: Seq<char>, x: Json)
    requires
        child(j, token) is Some,
    ensures
        child(with_child(j, token, x), token) == Some(x),
{
    match j {
        Json::Object(ms) => {
            lemma_position(ms, token);
            let i = position(ms, token)->0;
            lemma_position_update(ms, i, x, token);
        },
        _ => {},
    }
}

}
