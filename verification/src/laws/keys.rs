//! What calls on a key that is open do to the document under it.
use ijson::IValue;
use vstd::prelude::*;

use crate::error::Error;
use crate::holder::{
    at_path, document_seen, input_appended, num_op_applied, num_op_done, IValueKeyHolderRead,
    IValueKeyHolderWrite, KeyAction, RedisJSON,
};
use crate::json::{lookup, path_fits, put, taken_out, tokens, Json, SelectValueType};
use crate::merge::merged;
use crate::number::{NumOp, Number};
use crate::ops::{
    cleared, item_popped, items_appended, items_inserted, items_trimmed, member_added,
    text_appended, toggled,
};
use crate::text::{parsed_input, Input, InputView};
use crate::values::{json, jsons};

verus! {

// ---------------------------------------------------------------------------------------------
// Documents and keys

/// A key that is open shows the document that was looked up, and nothing before that.
pub proof fn law_shown_document<'a>(value: &'a RedisJSON)
    ensures
        forall|h: IValueKeyHolderWrite<'a>| (#[trigger] h.doc()) == match h.val {
            Some(value) => Some(json(value.data)),
            None => None,
        },
        (IValueKeyHolderRead { val: Some(value) }).doc() == Some(json(value.data)),
        (IValueKeyHolderRead { val: None::<&'a RedisJSON> }).doc() is None,
{
}

/// Once an action is done, the key holds what was there before, what was to be stored, or nothing.
pub proof fn law_key_actions(before: Option<Json>, value: RedisJSON)
    ensures
        KeyAction::Keep.stored(before) == before,
        KeyAction::Store(value).stored(before) == Some(json(value.data)),
        KeyAction::Delete.stored(before) is None,
{
}

/// A document that was looked up is worked on; before that, it is the one under the key.
pub proof fn law_document_seen(held: Json, stored: Option<Json>)
    ensures
        document_seen(Some(held), stored) == Some(held),
        document_seen(None, stored) == stored,
{
}

/// The document is looked up once, and then kept.
pub proof fn law_lookup_calls<'a>(doc: Option<Json>)
    ensures
        forall|h: &IValueKeyHolderWrite<'a>, r: bool| #[trigger]
            call_ensures(IValueKeyHolderWrite::<'a>::needs_value, (h,), r) ==> (r <==> h.doc()
                is None),
        forall|h: &mut IValueKeyHolderWrite<'a>, stored: Option<&'a mut RedisJSON>, r: ()|
            #[trigger]
            call_ensures(IValueKeyHolderWrite::<'a>::get_json_holder, (h, stored), r) ==> {
                &&& h.doc() is Some ==> final(h).doc() == h.doc()
                &&& h.doc() is None ==> final(h).doc() == match stored {
                    Some(value) => Some(json(value.data)),
                    None => None,
                }
            },
        forall|h: &IValueKeyHolderRead<'a>, r: Option<&'a IValue>| #[trigger]
            call_ensures(IValueKeyHolderRead::<'a>::get_value, (h,), r) ==> match r {
                Some(v) => h.doc() == Some(json(*v)),
                None => h.doc() is None,
            },
{
}

/// The document that is lent is the one that is shown, and what is left in it is shown then.
pub proof fn law_lent_document<'a>()
    ensures
        forall|h: &mut IValueKeyHolderWrite<'a>, r: Option<&mut IValue>| #[trigger]
            call_ensures(IValueKeyHolderWrite::<'a>::get_value, (h,), r) ==> match r {
                Some(v) => {
                    &&& h.doc() == Some(json(*v))
                    &&& final(h).doc() == Some(json(*final(v)))
                },
                None => h.doc() is None && final(h).doc() is None,
            },
{
}

/// Setting the whole document replaces the one that is there, or has it stored; setting none has
/// the key deleted.
pub proof fn law_set_root_call<'a>(v: Option<IValue>)
    ensures
        forall|h: &mut IValueKeyHolderWrite<'a>, r: KeyAction| #[trigger]
            call_ensures(IValueKeyHolderWrite::<'a>::set_root, (h, v), r) ==> match v {
                Some(data) => if h.doc() is Some {
                    r is Keep && final(h).doc() == Some(json(data))
                } else {
                    &&& final(h).doc() is None
                    &&& r matches KeyAction::Store(value)
                    &&& json(value.data) == json(data)
                },
                None => r is Delete && final(h).doc() is None,
            },
{
}

/// Deleting the key leaves what was looked up; telling the subscribers fails where they were not
/// told; a path is accepted where there is a document that it fits.
pub proof fn law_key_calls<'a>(path: &Vec<String>, delivered: bool)
    ensures
        forall|h: &mut IValueKeyHolderWrite<'a>, r: KeyAction| #[trigger]
            call_ensures(IValueKeyHolderWrite::<'a>::delete, (h,), r) ==> {
                &&& r is Delete
                &&& final(h).doc() == h.doc()
            },
        forall|h: IValueKeyHolderWrite<'a>, r: Result<(), Error>| #[trigger]
            call_ensures(
                IValueKeyHolderWrite::<'a>::notify_keyspace_event,
                (h, delivered),
                r,
            ) ==> r == if delivered {
                Ok::<(), Error>(())
            } else {
                Err::<(), Error>(Error::NotifyFailed)
            },
        forall|h: &mut IValueKeyHolderWrite<'a>, r: bool| #[trigger]
            call_ensures(IValueKeyHolderWrite::<'a>::accepts_path, (h, path), r) ==> {
                &&& r <==> h.doc() is Some && path_fits(h.doc()->0, tokens(path@))
                &&& final(h).doc() == h.doc()
            },
{
}

// ---------------------------------------------------------------------------------------------
// Values at paths

/// An operation at a path does to the value there what it does to a value alone, and returns what
/// it returns for it; where nothing is there it fails and changes nothing.
pub proof fn law_at_path<T>(
    doc: Json,
    path: Seq<Seq<char>>,
    op: spec_fn(Json) -> (Json, Result<T, Error>),
)
    ensures
        lookup(doc, path) matches Some(t) ==> at_path(doc, path, op) == (
            put(doc, path, op(t).0),
            op(t).1,
        ),
        lookup(doc, path) is None ==> at_path(doc, path, op) == (
            doc,
            Err::<T, Error>(Error::PathDoesntExist),
        ),
{
}

/// Setting a value replaces the one at the path, and tells whether there was one; at the root it
/// is the whole document that is set.
pub proof fn law_set_value_call<'a>(path: Vec<String>, v: IValue)
    ensures
        forall|h: &mut IValueKeyHolderWrite<'a>, r: (bool, KeyAction)| #[trigger]
            call_ensures(IValueKeyHolderWrite::<'a>::set_value, (h, path, v), r) ==> {
                &&& path@.len() > 0 && h.doc() is Some ==> {
                    &&& r.0 <==> lookup(h.doc()->0, tokens(path@)) is Some
                    &&& r.1 is Keep
                    &&& final(h).doc() == Some(put(h.doc()->0, tokens(path@), json(v)))
                }
                &&& path@.len() == 0 && h.doc() is Some ==> {
                    &&& r.0
                    &&& r.1 is Keep
                    &&& final(h).doc() == Some(json(v))
                }
                &&& path@.len() == 0 && h.doc() is None ==> {
                    &&& r.0
                    &&& final(h).doc() is None
                    &&& r.1 matches KeyAction::Store(value)
                    &&& json(value.data) == json(v)
                }
            },
{
    assert(path@.len() == 0 ==> tokens(path@) =~= Seq::<Seq<char>>::empty());
}

/// Merging and deleting at a path change what is there, and tell whether anything was.
pub proof fn law_merge_and_delete_calls<'a>(doc: Json, path: Vec<String>, v: IValue)
    ensures
        forall|h: &mut IValueKeyHolderWrite<'a>, r: bool| #[trigger]
            call_ensures(IValueKeyHolderWrite::<'a>::merge_value, (h, path, v), r) && h.doc()
                == Some(doc) ==> match lookup(doc, tokens(path@)) {
                Some(t) => r && final(h).doc() == Some(
                    put(doc, tokens(path@), merged(t, json(v))),
                ),
                None => !r && final(h).doc() == Some(doc),
            },
        forall|h: &mut IValueKeyHolderWrite<'a>, r: bool| #[trigger]
            call_ensures(IValueKeyHolderWrite::<'a>::delete_path, (h, path), r) && h.doc()
                == Some(doc) ==> match taken_out(doc, tokens(path@)) {
                Some(left) => r && final(h).doc() == Some(left),
                None => !r && final(h).doc() == Some(doc),
            },
{
}

/// The boolean at a path is toggled.
pub proof fn law_bool_toggle_call<'a>(doc: Json, path: Vec<String>)
    ensures
        forall|h: &mut IValueKeyHolderWrite<'a>, r: Result<bool, Error>| #[trigger]
            call_ensures(
                IValueKeyHolderWrite::<'a>::bool_toggle,
                (h, path),
                r,
            ) && h.doc() == Some(doc)
                ==> match lookup(doc, tokens(path@)) {
                Some(t) => {
                    &&& final(h).doc() == Some(put(doc, tokens(path@), toggled(t).0))
                    &&& r == toggled(t).1
                },
                None => {
                    &&& final(h).doc() == Some(doc)
                    &&& r == Err::<bool, Error>(Error::PathDoesntExist)
                },
            },
{
}

/// A member is added to the object at a path.
pub proof fn law_dict_add_call<'a>(doc: Json, path: Vec<String>, key: &str, v: IValue)
    ensures
        forall|h: &mut IValueKeyHolderWrite<'a>, r: Result<bool, Error>| #[trigger]
            call_ensures(
                IValueKeyHolderWrite::<'a>::dict_add,
                (h, path, key, v),
                r,
            ) && h.doc() == Some(doc)
                ==> match lookup(doc, tokens(path@)) {
                Some(t) => {
                    &&& final(h).doc() == Some(
                        put(doc, tokens(path@), member_added(t, key@, json(v)).0),
                    )
                    &&& r == member_added(t, key@, json(v)).1
                },
                None => {
                    &&& final(h).doc() == Some(doc)
                    &&& r == Err::<bool, Error>(Error::PathDoesntExist)
                },
            },
{
}

/// Values are appended to the array at a path.
pub proof fn law_arr_append_call<'a>(doc: Json, path: Vec<String>, args: &[IValue])
    ensures
        forall|h: &mut IValueKeyHolderWrite<'a>, r: Result<usize, Error>| #[trigger]
            call_ensures(
                IValueKeyHolderWrite::<'a>::arr_append,
                (h, path, args),
                r,
            ) && h.doc() == Some(doc)
                ==> match lookup(doc, tokens(path@)) {
                Some(t) => {
                    &&& final(h).doc() == Some(
                        put(doc, tokens(path@), items_appended(t, jsons(args@)).0),
                    )
                    &&& r == items_appended(t, jsons(args@)).1
                },
                None => {
                    &&& final(h).doc() == Some(doc)
                    &&& r == Err::<usize, Error>(Error::PathDoesntExist)
                },
            },
{
}

/// Values are inserted into the array at a path.
pub proof fn law_arr_insert_call<'a>(doc: Json, path: Vec<String>, args: &[IValue], index: i64)
    ensures
        forall|h: &mut IValueKeyHolderWrite<'a>, r: Result<usize, Error>| #[trigger]
            call_ensures(
                IValueKeyHolderWrite::<'a>::arr_insert,
                (h, path, args, index),
                r,
            ) && h.doc() == Some(doc)
                ==> match lookup(doc, tokens(path@)) {
                Some(t) => {
                    &&& final(h).doc() == Some(
                        put(doc, tokens(path@), items_inserted(t, jsons(args@), index as int).0),
                    )
                    &&& r == items_inserted(t, jsons(args@), index as int).1
                },
                None => {
                    &&& final(h).doc() == Some(doc)
                    &&& r == Err::<usize, Error>(Error::PathDoesntExist)
                },
            },
{
}

/// The array at a path is trimmed.
pub proof fn law_arr_trim_call<'a>(doc: Json, path: Vec<String>, start: i64, stop: i64)
    ensures
        forall|h: &mut IValueKeyHolderWrite<'a>, r: Result<usize, Error>| #[trigger]
            call_ensures(
                IValueKeyHolderWrite::<'a>::arr_trim,
                (h, path, start, stop),
                r,
            ) && h.doc() == Some(doc)
                ==> match lookup(doc, tokens(path@)) {
                Some(t) => {
                    &&& final(h).doc() == Some(
                        put(doc, tokens(path@), items_trimmed(t, start as int, stop as int).0),
                    )
                    &&& r == items_trimmed(t, start as int, stop as int).1
                },
                None => {
                    &&& final(h).doc() == Some(doc)
                    &&& r == Err::<usize, Error>(Error::PathDoesntExist)
                },
            },
{
}

/// The value at a path is cleared.
pub proof fn law_clear_call<'a>(doc: Json, path: Vec<String>)
    ensures
        forall|h: &mut IValueKeyHolderWrite<'a>, r: Result<usize, Error>| #[trigger]
            call_ensures(IValueKeyHolderWrite::<'a>::clear, (h, path), r) && h.doc() == Some(doc)
                ==> match lookup(doc, tokens(path@)) {
                Some(t) => {
                    &&& final(h).doc() == Some(put(doc, tokens(path@), cleared(t).0))
                    &&& r == cleared(t).1
                },
                None => {
                    &&& final(h).doc() == Some(doc)
                    &&& r == Err::<usize, Error>(Error::PathDoesntExist)
                },
            },
{
}

/// An element is popped from the array at a path, and what the callback makes of it is returned.
pub proof fn law_arr_pop_call<'a, C, R>(
    doc: Json,
    path: Vec<String>,
    index: i64,
    callback: C,
) where C: FnOnce(Option<&IValue>) -> Result<R, Error>
    ensures
        forall|h: &mut IValueKeyHolderWrite<'a>, r: Result<R, Error>| #[trigger]
            call_ensures(
                IValueKeyHolderWrite::<'a>::arr_pop::<C, R>,
                (h, path, index, callback),
                r,
            ) && h.doc() == Some(doc) ==> match lookup(doc, tokens(path@)) {
                Some(t) => {
                    &&& final(h).doc() == Some(
                        put(doc, tokens(path@), item_popped(t, index as int).0),
                    )
                    &&& match item_popped(t, index as int).1 {
                        Ok(Some(item)) => exists|x: &IValue| #[trigger]
                            call_ensures(callback, (Some(x),), r) && json(*x) == item,
                        Ok(None) => call_ensures(callback, (None::<&IValue>,), r),
                        Err(e) => r == Err::<R, Error>(e),
                    }
                },
                None => {
                    &&& final(h).doc() == Some(doc)
                    &&& r == Err::<R, Error>(Error::PathDoesntExist)
                },
            },
{
    assert forall|h: &mut IValueKeyHolderWrite<'a>, r: Result<R, Error>| #[trigger]
        call_ensures(
            IValueKeyHolderWrite::<'a>::arr_pop::<C, R>,
            (h, path, index, callback),
            r,
        ) && h.doc() == Some(doc) implies match lookup(doc, tokens(path@)) {
        Some(t) => {
            &&& final(h).doc() == Some(put(doc, tokens(path@), item_popped(t, index as int).0))
            &&& match item_popped(t, index as int).1 {
                Ok(Some(item)) => exists|x: &IValue| #[trigger]
                    call_ensures(callback, (Some(x),), r) && json(*x) == item,
                Ok(None) => call_ensures(callback, (None::<&IValue>,), r),
                Err(e) => r == Err::<R, Error>(e),
            }
        },
        None => {
            &&& final(h).doc() == Some(doc)
            &&& r == Err::<R, Error>(Error::PathDoesntExist)
        },
    } by {
        if let Some(t) = lookup(doc, tokens(path@)) {
            if let Ok(item) = item_popped(t, index as int).1 {
                let x = choose|x: Option<&IValue>|
                    {
                        &&& #[trigger] call_ensures(callback, (x,), r)
                        &&& item == match x {
                            Some(v) => Some(json(*v)),
                            None => None,
                        }
                    };
                if let Some(v) = x {
                    assert(call_ensures(callback, (Some(v),), r));
                }
            }
        }
    }
}

/// Only a JSON string is appended, and to the string at the path; anything else is refused, with
/// its text, and changes nothing.
pub proof fn law_input_appended(
    doc: Json,
    none: Option<Json>,
    path: Seq<Seq<char>>,
    s: Seq<char>,
    input: InputView,
    text: String,
)
    ensures
        lookup(doc, path) matches Some(t) ==> input_appended(
            Some(doc),
            path,
            InputView::String(s),
            text,
        ) == (Some(put(doc, path, text_appended(t, s).0)), text_appended(t, s).1),
        lookup(doc, path) is None ==> input_appended(
            Some(doc),
            path,
            InputView::String(s),
            text,
        ) == (Some(doc), Err::<usize, Error>(Error::PathDoesntExist)),
        !(input is String) ==> input_appended(none, path, input, text) == (
            none,
            Err::<usize, Error>(Error::WrongInput { expected: SelectValueType::String, text }),
        ),
{
}

/// Appending goes by what the text is read as; a text that cannot be read changes nothing.
pub proof fn law_str_append_calls<'a>(path: Vec<String>, input: Input, val: String)
    ensures
        forall|h: &mut IValueKeyHolderWrite<'a>, r: Result<usize, Error>| #[trigger]
            call_ensures(IValueKeyHolderWrite::<'a>::append_input, (h, path, input, val), r) ==> (
            final(h).doc(), r) == input_appended(h.doc(), tokens(path@), input@, val),
        forall|h: &mut IValueKeyHolderWrite<'a>, r: Result<usize, Error>| #[trigger]
            call_ensures(IValueKeyHolderWrite::<'a>::str_append, (h, path, val), r)
                ==> match parsed_input(val@) {
                Ok(read) => (final(h).doc(), r) == input_appended(
                    h.doc(),
                    tokens(path@),
                    read,
                    val,
                ),
                Err(e) => {
                    &&& final(h).doc() == h.doc()
                    &&& r matches Err(Error::Parse(text))
                    &&& text@ == e
                },
            },
        forall|h: &mut IValueKeyHolderWrite<'a>, r: Option<Result<usize, Error>>| #[trigger]
            call_ensures(IValueKeyHolderWrite::<'a>::try_str_append, (h, path, val), r)
                ==> match parsed_input(val@) {
                Ok(read) => if read is String && !(h.doc() is Some && path_fits(
                    h.doc()->0,
                    tokens(path@),
                )) {
                    r is None && final(h).doc() == h.doc()
                } else {
                    &&& r matches Some(result)
                    &&& (final(h).doc(), result) == input_appended(
                        h.doc(),
                        tokens(path@),
                        read,
                        val,
                    )
                },
                Err(e) => {
                    &&& final(h).doc() == h.doc()
                    &&& r matches Some(Err(Error::Parse(text)))
                    &&& text@ == e
                },
            },
{
}

/// Adding, multiplying and raising to a power are the arithmetic of that name.
pub proof fn law_arithmetic_calls<'a, F2>(
    path: Vec<String>,
    num: &str,
    operand: Input,
    op: NumOp,
    f: F2,
) where F2: FnOnce(u64, u64) -> Option<IValue>
    ensures
        forall|h: &mut IValueKeyHolderWrite<'a>, r: Result<Number, Error>| #[trigger]
            call_ensures(
                IValueKeyHolderWrite::<'a>::apply_num_op::<F2>,
                (h, path, operand, op, f),
                r,
            ) ==> num_op_applied(
                op,
                f,
                operand@,
                h.doc(),
                tokens(path@),
                final(h).doc(),
                r,
            ),
        forall|h: &mut IValueKeyHolderWrite<'a>, r: Result<Number, Error>| #[trigger]
            call_ensures(
                IValueKeyHolderWrite::<'a>::do_num_op::<F2>,
                (h, path, num, op, f),
                r,
            ) ==> num_op_done(op, f, num@, h.doc(), tokens(path@), final(h).doc(), r),
        forall|h: &mut IValueKeyHolderWrite<'a>, r: Result<Number, Error>| #[trigger]
            call_ensures(IValueKeyHolderWrite::<'a>::incr_by::<F2>, (h, path, num, f), r)
                ==> num_op_done(
                NumOp::Incr,
                f,
                num@,
                h.doc(),
                tokens(path@),
                final(h).doc(),
                r,
            ),
        forall|h: &mut IValueKeyHolderWrite<'a>, r: Result<Number, Error>| #[trigger]
            call_ensures(IValueKeyHolderWrite::<'a>::mult_by::<F2>, (h, path, num, f), r)
                ==> num_op_done(
                NumOp::Mult,
                f,
                num@,
                h.doc(),
                tokens(path@),
                final(h).doc(),
                r,
            ),
        forall|h: &mut IValueKeyHolderWrite<'a>, r: Result<Number, Error>| #[trigger]
            call_ensures(IValueKeyHolderWrite::<'a>::pow_by::<F2>, (h, path, num, f), r)
                ==> num_op_done(
                NumOp::Pow,
                f,
                num@,
                h.doc(),
                tokens(path@),
                final(h).doc(),
                r,
            ),
        forall|h: &mut IValueKeyHolderWrite<'a>, r: Option<Result<Number, Error>>| #[trigger]
            call_ensures(
                IValueKeyHolderWrite::<'a>::try_num_op::<F2>,
                (h, path, num, op, f),
                r,
            ) ==> match r {
                Some(result) => num_op_done(
                    op,
                    f,
                    num@,
                    h.doc(),
                    tokens(path@),
                    final(h).doc(),
                    result,
                ),
                None => {
                    &&& final(h).doc() == h.doc()
                    &&& parsed_input(num@) matches Ok(InputView::Number { .. })
                    &&& !(h.doc() is Some && path_fits(h.doc()->0, tokens(path@)) && (lookup(
                        h.doc()->0,
                        tokens(path@),
                    ) is None || lookup(h.doc()->0, tokens(path@))->0 is Number))
                },
            },
{
}

}
