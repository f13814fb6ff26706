//! Documents that are stored under a key: reading one, and changing one in place.
use ijson::IValue;
use vstd::prelude::*;

use crate::error::Error;
use crate::json::{
    is_long, lookup, path_fits, put, storable, taken_out, tokens, Json, Num, SelectValueType,
};
use crate::merge::{merge, merged};
use crate::number::{integer_result, NumOp, Number};
use crate::ops::{
    add_member, append_items, append_text, calculate, calculated, clear_value, cleared, double_of,
    double_stored, insert_items, item_popped, items_appended, items_inserted, items_trimmed,
    member_added, optional_json, pop_item, text_appended, toggle, toggled, trim_items,
};
use crate::path::{get_at, is_fitting_path, lemma_put_missing, remove, update};
use crate::text::{parse_input, parsed_input, Input, InputView};
use crate::values::{destructure_ref, json, jsons, ValueRef};

verus! {

/// What is stored under a key: one document.
pub struct RedisJSON {
    pub data: IValue,
}

/// What is to be done with a key so that it holds what an operation left.
pub enum KeyAction {
    /// Nothing: the stored document was changed in place.
    Keep,
    /// The document is to be stored under the key.
    Store(RedisJSON),
    /// The key is to be deleted.
    Delete,
}

impl KeyAction {
    /// The document under the key once the action is done, where `doc` was there before.
    pub open spec fn stored(self, doc: Option<Json>) -> Option<Json> {
        match self {
            KeyAction::Keep => doc,
            KeyAction::Store(value) => Some(json(value.data)),
            KeyAction::Delete => None,
        }
    }
}

/// The document that is worked on under a key that holds `stored`: the one that was looked up
/// already, or else the one that looking it up now gives.
pub open spec fn document_seen(held: Option<Json>, stored: Option<Json>) -> Option<Json> {
    if held is Some {
        held
    } else {
        stored
    }
}

/// The document after an operation on the value at `path`, and the result of the operation: `op`
/// gives both for the value alone.
pub open spec fn at_path<T>(
    doc: Json,
    path: Seq<Seq<char>>,
    op: spec_fn(Json) -> (Json, Result<T, Error>),
) -> (Json, Result<T, Error>) {
    match lookup(doc, path) {
        Some(t) => (put(doc, path, op(t).0), op(t).1),
        None => (doc, Err(Error::PathDoesntExist)),
    }
}

/// Whether there is a document in which `path` can be walked.
pub open spec fn walkable(doc: Option<Json>, path: Seq<Seq<char>>) -> bool {
    doc matches Some(j) && path_fits(j, path)
}

/// Whether `input` can be appended at `path`: the path can be walked, or the input is refused
/// anyway.
pub open spec fn appendable(doc: Option<Json>, path: Seq<Seq<char>>, input: InputView) -> bool {
    input is String ==> walkable(doc, path)
}

/// The outcome of appending a JSON text to the string at `path`: only a JSON string is appended.
pub open spec fn input_appended(
    doc: Option<Json>,
    path: Seq<Seq<char>>,
    input: InputView,
    text: String,
) -> (Option<Json>, Result<usize, Error>) {
    match input {
        InputView::String(s) => {
            let outcome = at_path(doc->0, path, |t: Json| text_appended(t, s));
            (Some(outcome.0), outcome.1)
        },
        _ => (doc, Err(Error::WrongInput { expected: SelectValueType::String, text })),
    }
}

/// Whether arithmetic with `operand` is possible at `path`: the path can be walked, and a number
/// is there or nothing, or the operand is refused anyway.
pub open spec fn calculable(doc: Option<Json>, path: Seq<Seq<char>>, operand: InputView) -> bool {
    operand is Number ==> {
        &&& walkable(doc, path)
        &&& lookup(doc->0, path) matches Some(t) ==> t is Number
    }
}

/// The outcome of arithmetic on the number at `path`: only a number is an operand.
pub open spec fn num_op_applied<F2>(
    op: NumOp,
    op2_fun: F2,
    operand: InputView,
    doc: Option<Json>,
    path: Seq<Seq<char>>,
    after: Option<Json>,
    r: Result<Number, Error>,
) -> bool where F2: FnOnce(u64, u64) -> Option<IValue> {
    match operand {
        InputView::Number { long, double } => match (lookup(doc->0, path), long) {
            (Some(Json::Number(Num::Integer(i))), Some(num2)) if is_long(i) => {
                let res = integer_result(op, i, num2 as int);
                &&& after == Some(put(doc->0, path, Json::Number(Num::Integer(res))))
                &&& r == Ok::<Number, Error>(Number::Int(res as i64))
            },
            (Some(t), _) => exists|res: Option<IValue>|
                {
                    &&& #[trigger] call_ensures(op2_fun, (double_of(t->Number_0), double), res)
                    &&& after == Some(put(doc->0, path, double_stored(t, optional_json(res)).0))
                    &&& r == double_stored(t, optional_json(res)).1
                },
            (None, _) => after == doc && r == Err::<Number, Error>(Error::PathDoesntExist),
        },
        _ => after == doc && r == Err::<Number, Error>(Error::BadInputNumber),
    }
}

/// The outcome of arithmetic with the number that `num` is the text of.
pub open spec fn num_op_done<F2>(
    op: NumOp,
    op2_fun: F2,
    num: Seq<char>,
    doc: Option<Json>,
    path: Seq<Seq<char>>,
    after: Option<Json>,
    r: Result<Number, Error>,
) -> bool where F2: FnOnce(u64, u64) -> Option<IValue> {
    match parsed_input(num) {
        Ok(operand) => num_op_applied(op, op2_fun, operand, doc, path, after, r),
        Err(e) => after == doc && (r matches Err(Error::Parse(text)) && text@ == e),
    }
}

/// A key that is open for writing, with the document under it once that was looked up.
pub struct IValueKeyHolderWrite<'a> {
    pub val: Option<&'a mut RedisJSON>,
}

impl<'a> IValueKeyHolderWrite<'a> {
    /// The document, where there is one.
    pub open spec fn doc(&self) -> Option<Json> {
        match self.val {
            Some(value) => Some(json(value.data)),
            None => None,
        }
    }

    /// A key whose document was not looked up yet.
    pub fn new() -> (r: Self)
        ensures
            r.doc() is None,
    {
        IValueKeyHolderWrite { val: None }
    }

    /// Whether the document is still to be looked up under the key.
    pub fn needs_value(&self) -> (r: bool)
        ensures
            r == (self.doc() is None),
    {
        self.val.is_none()
    }

    /// Takes over the document that was looked up under the key, unless there is one already.
    pub fn get_json_holder(&mut self, stored: Option<&'a mut RedisJSON>)
        ensures
            final(self).val == if old(self).val is Some {
                old(self).val
            } else {
                stored
            },
            final(self).doc() == document_seen(
                old(self).doc(),
                match stored {
                    Some(value) => Some(json(value.data)),
                    None => None,
                },
            ),
    {
        if self.val.is_none() {
            self.val = stored;
        }
    }

    /// The document, to be changed in place.
    pub fn get_value(&mut self) -> (r: Option<&mut IValue>)
        ensures
            match r {
                Some(v) => {
                    &&& old(self).doc() == Some(json(*v))
                    &&& final(self).doc() == Some(json(*final(v)))
                },
                None => old(self).doc() is None && *final(self) == *old(self),
            },
            *final(final(self).val->0) == *final(old(self).val->0),
    {
        match &mut self.val {
            Some(value) => Some(&mut value.data),
            None => None,
        }
    }

    /// Applies `op_fun` to the value at `paths`.
    fn do_op<F, T>(&mut self, paths: Vec<String>, op_fun: F) -> (r: Result<T, Error>) where
        F: FnOnce(&mut IValue) -> Result<T, Error>,

        requires
            old(self).doc() is Some,
            path_fits(old(self).doc()->0, tokens(paths@)),
            forall|v: &mut IValue|
                lookup(old(self).doc()->0, tokens(paths@)) == Some(json(*v))
                    ==> #[trigger] call_requires(op_fun, (v,)),
        ensures
            final(self).doc() is Some,
            match lookup(old(self).doc()->0, tokens(paths@)) {
                Some(t) => exists|v: &mut IValue| #[trigger]
                    call_ensures(op_fun, (v,), r) && json(*v) == t && final(self).doc() == Some(
                        put(old(self).doc()->0, tokens(paths@), json(*final(v))),
                    ),
                None => r == Err::<T, Error>(Error::PathDoesntExist) && final(self).doc() == old(
                    self,
                ).doc(),
            },
            *final(final(self).val->0) == *final(old(self).val->0),
    {
        match self.get_value() {
            Some(root) => update(paths, root, op_fun),
            None => Err(Error::PathDoesntExist),
        }
    }

    /// Sets the whole document, or removes it.
    ///
    /// A document that is there is replaced in place; otherwise the key is to be written.
    pub fn set_root(&mut self, v: Option<IValue>) -> (r: KeyAction)
        ensures
            r.stored(final(self).doc()) == optional_json(v),
            document_seen(final(self).doc(), r.stored(final(self).doc())) == optional_json(v),
            match v {
                Some(data) => if old(self).doc() is Some {
                    &&& r is Keep
                    &&& final(self).doc() == Some(json(data))
                    &&& *final(final(self).val->0) == *final(old(self).val->0)
                } else {
                    &&& r is Store
                    &&& final(self).doc() is None
                },
                None => r is Delete && final(self).doc() is None,
            },
    {
        match v {
            Some(data) => match self.get_value() {
                Some(root) => {
                    *root = data;
                    KeyAction::Keep
                },
                None => KeyAction::Store(RedisJSON { data }),
            },
            None => {
                self.val = None;
                KeyAction::Delete
            },
        }
    }

    /// Deletes the key. What was looked up under it stays as it is.
    pub fn delete(&mut self) -> (r: KeyAction)
        ensures
            r is Delete,
            *final(self) == *old(self),
    {
        KeyAction::Delete
    }

    /// Ends the work on a key: `delivered` tells whether its subscribers were told.
    pub fn notify_keyspace_event(self, delivered: bool) -> (r: Result<(), Error>)
        ensures
            r == if delivered {
                Ok::<(), Error>(())
            } else {
                Err::<(), Error>(Error::NotifyFailed)
            },
    {
        if delivered {
            Ok(())
        } else {
            Err(Error::NotifyFailed)
        }
    }

    /// Whether `path` can be walked in the document.
    pub fn accepts_path(&mut self, path: &Vec<String>) -> (r: bool)
        ensures
            r == (old(self).doc() is Some && path_fits(old(self).doc()->0, tokens(path@))),
            final(self).doc() == old(self).doc(),
            *final(final(self).val->0) == *final(old(self).val->0),
    {
        match self.get_value() {
            Some(root) => is_fitting_path(path, root),
            None => false,
        }
    }

    /// Replaces the value at `path` by `v`, and tells whether there was one. At the root a
    /// document that is missing is added; once it is stored, looking it up gives `v`.
    pub fn set_value(&mut self, path: Vec<String>, v: IValue) -> (r: (bool, KeyAction))
        requires
            path@.len() > 0 ==> {
                &&& old(self).doc() is Some
                &&& path_fits(old(self).doc()->0, tokens(path@))
            },
        ensures
            path@.len() == 0 ==> {
                &&& r.0
                &&& r.1.stored(final(self).doc()) == Some(json(v))
                &&& document_seen(final(self).doc(), r.1.stored(final(self).doc())) == Some(
                    json(v),
                )
                &&& if old(self).doc() is Some {
                    &&& r.1 is Keep
                    &&& final(self).doc() == Some(json(v))
                } else {
                    &&& r.1 is Store
                    &&& final(self).doc() is None
                }
            },
            path@.len() > 0 ==> {
                &&& r.0 == (lookup(old(self).doc()->0, tokens(path@)) is Some)
                &&& r.1 is Keep
                &&& final(self).doc() == Some(put(old(self).doc()->0, tokens(path@), json(v)))
            },
            old(self).doc() is Some ==> *final(final(self).val->0) == *final(old(self).val->0),
    {
        if path.is_empty() {
            // update the root
            (true, self.set_root(Some(v)))
        } else {
            proof {
                if lookup(self.doc()->0, tokens(path@)) is None {
                    lemma_put_missing(self.doc()->0, tokens(path@), json(v));
                }
            }
            let replace = |val: &mut IValue| -> (r: Result<(), Error>)
                ensures
                    json(*final(val)) == json(v),
                    r is Ok,
                {
                    *val = v;
                    Ok(())
                };
            let done = self.do_op(path, replace);
            (done.is_ok(), KeyAction::Keep)
        }
    }

    /// Merges `v` into the value at `path`, and tells whether there was one.
    pub fn merge_value(&mut self, path: Vec<String>, v: IValue) -> (r: bool)
        requires
            old(self).doc() is Some,
            path_fits(old(self).doc()->0, tokens(path@)),
        ensures
            final(self).doc() == Some(
                match lookup(old(self).doc()->0, tokens(path@)) {
                    Some(t) => put(old(self).doc()->0, tokens(path@), merged(t, json(v))),
                    None => old(self).doc()->0,
                },
            ),
            r == (lookup(old(self).doc()->0, tokens(path@)) is Some),
            *final(final(self).val->0) == *final(old(self).val->0),
    {
        let merge_in = |current: &mut IValue| -> (r: Result<(), Error>)
            ensures
                json(*final(current)) == merged(json(*old(current)), json(v)),
                r is Ok,
            {
                merge(current, v);
                Ok(())
            };
        let done = self.do_op(path, merge_in);
        done.is_ok()
    }

    /// Adds the member `key` to the object at `path`, and tells whether it was missing before.
    pub fn dict_add(&mut self, path: Vec<String>, key: &str, v: IValue) -> (r: Result<bool, Error>)
        requires
            old(self).doc() is Some,
            path_fits(old(self).doc()->0, tokens(path@)),
            storable(key@),
        ensures
            final(self).doc() is Some,
            (final(self).doc()->0, r) == at_path(
                old(self).doc()->0,
                tokens(path@),
                |t: Json| member_added(t, key@, json(v)),
            ),
            *final(final(self).val->0) == *final(old(self).val->0),
    {
        let add_to = |val: &mut IValue| -> (r: Result<bool, Error>)
            requires
                storable(key@),
            ensures
                (json(*final(val)), r) == member_added(json(*old(val)), key@, json(v)),
            { add_member(val, key, v) };
        self.do_op(path, add_to)
    }

    /// Removes the value at `path`, and tells whether there was one.
    pub fn delete_path(&mut self, path: Vec<String>) -> (r: bool)
        requires
            old(self).doc() is Some,
            path@.len() > 0,
            path_fits(old(self).doc()->0, tokens(path@)),
        ensures
            final(self).doc() == Some(
                match taken_out(old(self).doc()->0, tokens(path@)) {
                    Some(left) => left,
                    None => old(self).doc()->0,
                },
            ),
            r == (taken_out(old(self).doc()->0, tokens(path@)) is Some),
            *final(final(self).val->0) == *final(old(self).val->0),
    {
        match self.get_value() {
            Some(root) => remove(path, root),
            None => false,
        }
    }

    /// Calculates with the number at `path` and an operand that was read already.
    pub fn apply_num_op<F2>(
        &mut self,
        path: Vec<String>,
        operand: Input,
        op: NumOp,
        op2_fun: F2,
    ) -> (r: Result<Number, Error>) where F2: FnOnce(u64, u64) -> Option<IValue>
        requires
            calculable(old(self).doc(), tokens(path@), operand@),
            forall|a: u64, b: u64| #[trigger] call_requires(op2_fun, (a, b)),
        ensures
            num_op_applied(
                op,
                op2_fun,
                operand@,
                old(self).doc(),
                tokens(path@),
                final(self).doc(),
                r,
            ),
            *final(final(self).val->0) == *final(old(self).val->0),
    {
        match operand {
            Input::Number { long, double } => {
                let calculate_at = |v: &mut IValue| -> (r: Result<Number, Error>)
                    requires
                        json(*v) is Number,
                        forall|a: u64, b: u64| #[trigger] call_requires(op2_fun, (a, b)),
                    ensures
                        calculated(
                            op,
                            op2_fun,
                            long,
                            double,
                            json(*old(v))->Number_0,
                            json(*final(v)),
                            r,
                        ),
                    { calculate(v, long, double, op, op2_fun) };
                self.do_op(path, calculate_at)
            },
            _ => Err(Error::BadInputNumber),
        }
    }

    /// Calculates with the number at `path` and the number that `num` is the text of.
    pub fn do_num_op<F2>(
        &mut self,
        path: Vec<String>,
        num: &str,
        op: NumOp,
        op2_fun: F2,
    ) -> (r: Result<Number, Error>) where F2: FnOnce(u64, u64) -> Option<IValue>
        requires
            parsed_input(num@) matches Ok(operand) ==> calculable(
                old(self).doc(),
                tokens(path@),
                operand,
            ),
            forall|a: u64, b: u64| #[trigger] call_requires(op2_fun, (a, b)),
        ensures
            num_op_done(
                op,
                op2_fun,
                num@,
                old(self).doc(),
                tokens(path@),
                final(self).doc(),
                r,
            ),
            *final(final(self).val->0) == *final(old(self).val->0),
    {
        match parse_input(num) {
            Ok(operand) => self.apply_num_op(path, operand, op, op2_fun),
            Err(e) => Err(Error::Parse(e)),
        }
    }

    /// Adds the number that `num` is the text of to the number at `path`, and returns the sum.
    pub fn incr_by<F2>(&mut self, path: Vec<String>, num: &str, op2_fun: F2) -> (r: Result<
        Number,
        Error,
    >) where F2: FnOnce(u64, u64) -> Option<IValue>
        requires
            parsed_input(num@) matches Ok(operand) ==> calculable(
                old(self).doc(),
                tokens(path@),
                operand,
            ),
            forall|a: u64, b: u64| #[trigger] call_requires(op2_fun, (a, b)),
        ensures
            num_op_done(
                NumOp::Incr,
                op2_fun,
                num@,
                old(self).doc(),
                tokens(path@),
                final(self).doc(),
                r,
            ),
            *final(final(self).val->0) == *final(old(self).val->0),
    {
        self.do_num_op(path, num, NumOp::Incr, op2_fun)
    }

    /// Multiplies the number at `path` by the number that `num` is the text of, and returns the
    /// product.
    pub fn mult_by<F2>(&mut self, path: Vec<String>, num: &str, op2_fun: F2) -> (r: Result<
        Number,
        Error,
    >) where F2: FnOnce(u64, u64) -> Option<IValue>
        requires
            parsed_input(num@) matches Ok(operand) ==> calculable(
                old(self).doc(),
                tokens(path@),
                operand,
            ),
            forall|a: u64, b: u64| #[trigger] call_requires(op2_fun, (a, b)),
        ensures
            num_op_done(
                NumOp::Mult,
                op2_fun,
                num@,
                old(self).doc(),
                tokens(path@),
                final(self).doc(),
                r,
            ),
            *final(final(self).val->0) == *final(old(self).val->0),
    {
        self.do_num_op(path, num, NumOp::Mult, op2_fun)
    }

    /// Raises the number at `path` to the power that `num` is the text of, and returns the result.
    pub fn pow_by<F2>(&mut self, path: Vec<String>, num: &str, op2_fun: F2) -> (r: Result<
        Number,
        Error,
    >) where F2: FnOnce(u64, u64) -> Option<IValue>
        requires
            parsed_input(num@) matches Ok(operand) ==> calculable(
                old(self).doc(),
                tokens(path@),
                operand,
            ),
            forall|a: u64, b: u64| #[trigger] call_requires(op2_fun, (a, b)),
        ensures
            num_op_done(
                NumOp::Pow,
                op2_fun,
                num@,
                old(self).doc(),
                tokens(path@),
                final(self).doc(),
                r,
            ),
            *final(final(self).val->0) == *final(old(self).val->0),
    {
        self.do_num_op(path, num, NumOp::Pow, op2_fun)
    }

    /// Whether `path` can be walked in a document, and a number is there or nothing at all.
    fn number_or_nothing(&mut self, path: &Vec<String>) -> (r: bool)
        ensures
            r == {
                &&& walkable(old(self).doc(), tokens(path@))
                &&& lookup(old(self).doc()->0, tokens(path@)) matches Some(t) ==> t is Number
            },
            final(self).doc() == old(self).doc(),
            *final(final(self).val->0) == *final(old(self).val->0),
    {
        match self.get_value() {
            Some(root) => is_fitting_path(path, root) && match get_at(path, root) {
                Some(v) => match destructure_ref(v) {
                    ValueRef::Number => true,
                    _ => false,
                },
                None => true,
            },
            None => false,
        }
    }

    /// Calculates with the number at `path` and the number that `num` is the text of. There is no
    /// result where `num` is the text of a number and the path cannot be walked, or something
    /// other than a number is there.
    pub fn try_num_op<F2>(
        &mut self,
        path: Vec<String>,
        num: &str,
        op: NumOp,
        op2_fun: F2,
    ) -> (r: Option<Result<Number, Error>>) where F2: FnOnce(u64, u64) -> Option<IValue>
        requires
            forall|a: u64, b: u64| #[trigger] call_requires(op2_fun, (a, b)),
        ensures
            r is None <==> (parsed_input(num@) matches Ok(operand) && !calculable(
                old(self).doc(),
                tokens(path@),
                operand,
            )),
            match r {
                Some(result) => num_op_done(
                    op,
                    op2_fun,
                    num@,
                    old(self).doc(),
                    tokens(path@),
                    final(self).doc(),
                    result,
                ),
                None => final(self).doc() == old(self).doc(),
            },
            *final(final(self).val->0) == *final(old(self).val->0),
    {
        let is_number: bool = match parse_input(num) {
            Ok(Input::Number { .. }) => true,
            _ => false,
        };
        if is_number && !self.number_or_nothing(&path) {
            return None;
        }
        Some(
            match op {
                NumOp::Incr => self.incr_by(path, num, op2_fun),
                NumOp::Mult => self.mult_by(path, num, op2_fun),
                NumOp::Pow => self.pow_by(path, num, op2_fun),
            },
        )
    }

    /// Turns the boolean at `path` over and returns its new value.
    pub fn bool_toggle(&mut self, path: Vec<String>) -> (r: Result<bool, Error>)
        requires
            old(self).doc() is Some,
            path_fits(old(self).doc()->0, tokens(path@)),
        ensures
            final(self).doc() is Some,
            (final(self).doc()->0, r) == at_path(
                old(self).doc()->0,
                tokens(path@),
                |t: Json| toggled(t),
            ),
            *final(final(self).val->0) == *final(old(self).val->0),
    {
        self.do_op(path, toggle)
    }

    /// Appends a JSON value that was read from `val` already to the string at `path`.
    pub fn append_input(&mut self, path: Vec<String>, input: Input, val: String) -> (r: Result<
        usize,
        Error,
    >)
        requires
            appendable(old(self).doc(), tokens(path@), input@),
        ensures
            (final(self).doc(), r) == input_appended(old(self).doc(), tokens(path@), input@, val),
            *final(final(self).val->0) == *final(old(self).val->0),
    {
        match input {
            Input::String(s) => {
                let append_to = |v: &mut IValue| -> (r: Result<usize, Error>)
                    ensures
                        (json(*final(v)), r) == text_appended(json(*old(v)), s@),
                    { append_text(v, s.as_str()) };
                self.do_op(path, append_to)
            },
            _ => Err(Error::WrongInput { expected: SelectValueType::String, text: val }),
        }
    }

    /// Appends the JSON string that `val` is the text of to the string at `path`, and returns the
    /// length of the result in bytes.
    pub fn str_append(&mut self, path: Vec<String>, val: String) -> (r: Result<usize, Error>)
        requires
            parsed_input(val@) matches Ok(input) ==> appendable(
                old(self).doc(),
                tokens(path@),
                input,
            ),
        ensures
            match parsed_input(val@) {
                Ok(input) => (final(self).doc(), r) == input_appended(
                    old(self).doc(),
                    tokens(path@),
                    input,
                    val,
                ),
                Err(e) => {
                    &&& final(self).doc() == old(self).doc()
                    &&& r matches Err(Error::Parse(text))
                    &&& text@ == e
                },
            },
            *final(final(self).val->0) == *final(old(self).val->0),
    {
        match parse_input(val.as_str()) {
            Ok(input) => self.append_input(path, input, val),
            Err(e) => Err(Error::Parse(e)),
        }
    }

    /// Appends the JSON string that `val` is the text of to the string at `path`. There is no
    /// result where `val` is the text of a string and the path cannot be walked.
    pub fn try_str_append(&mut self, path: Vec<String>, val: String) -> (r: Option<
        Result<usize, Error>,
    >)
        ensures
            r is None <==> (parsed_input(val@) matches Ok(input) && !appendable(
                old(self).doc(),
                tokens(path@),
                input,
            )),
            match (r, parsed_input(val@)) {
                (Some(result), Ok(input)) => (final(self).doc(), result) == input_appended(
                    old(self).doc(),
                    tokens(path@),
                    input,
                    val,
                ),
                (Some(result), Err(e)) => {
                    &&& final(self).doc() == old(self).doc()
                    &&& result matches Err(Error::Parse(text))
                    &&& text@ == e
                },
                (None, _) => final(self).doc() == old(self).doc(),
            },
            *final(final(self).val->0) == *final(old(self).val->0),
    {
        let is_string: bool = match parse_input(val.as_str()) {
            Ok(Input::String(_)) => true,
            _ => false,
        };
        if is_string && !self.accepts_path(&path) {
            return None;
        }
        Some(self.str_append(path, val))
    }

    /// Appends copies of `args` to the array at `path`, and returns its new length.
    pub fn arr_append(&mut self, path: Vec<String>, args: &[IValue]) -> (r: Result<usize, Error>)
        requires
            old(self).doc() is Some,
            path_fits(old(self).doc()->0, tokens(path@)),
        ensures
            final(self).doc() is Some,
            (final(self).doc()->0, r) == at_path(
                old(self).doc()->0,
                tokens(path@),
                |t: Json| items_appended(t, jsons(args@)),
            ),
            *final(final(self).val->0) == *final(old(self).val->0),
    {
        let append_to = |v: &mut IValue| -> (r: Result<usize, Error>)
            ensures
                (json(*final(v)), r) == items_appended(json(*old(v)), jsons(args@)),
            { append_items(v, args) };
        self.do_op(path, append_to)
    }

    /// Inserts copies of `args` into the array at `path`, before the element at `index`, and
    /// returns its new length.
    pub fn arr_insert(&mut self, paths: Vec<String>, args: &[IValue], index: i64) -> (r: Result<
        usize,
        Error,
    >)
        requires
            old(self).doc() is Some,
            path_fits(old(self).doc()->0, tokens(paths@)),
        ensures
            final(self).doc() is Some,
            (final(self).doc()->0, r) == at_path(
                old(self).doc()->0,
                tokens(paths@),
                |t: Json| items_inserted(t, jsons(args@), index as int),
            ),
            *final(final(self).val->0) == *final(old(self).val->0),
    {
        let insert_into = |v: &mut IValue| -> (r: Result<usize, Error>)
            ensures
                (json(*final(v)), r) == items_inserted(json(*old(v)), jsons(args@), index as int),
            { insert_items(v, args, index) };
        self.do_op(paths, insert_into)
    }

    /// Takes the element at `index` out of the array at `path`, and returns what
    /// `serialize_callback` makes of it.
    pub fn arr_pop<C, R>(&mut self, path: Vec<String>, index: i64, serialize_callback: C) -> (r:
        Result<R, Error>) where C: FnOnce(Option<&IValue>) -> Result<R, Error>
        requires
            old(self).doc() is Some,
            path_fits(old(self).doc()->0, tokens(path@)),
            forall|x: Option<&IValue>| #[trigger] call_requires(serialize_callback, (x,)),
        ensures
            final(self).doc() is Some,
            ({
                let popped = at_path(
                    old(self).doc()->0,
                    tokens(path@),
                    |t: Json| item_popped(t, index as int),
                );
                &&& final(self).doc()->0 == popped.0
                &&& match popped.1 {
                    Ok(item) => exists|x: Option<&IValue>|
                        {
                            &&& #[trigger] call_ensures(serialize_callback, (x,), r)
                            &&& item == match x {
                                Some(v) => Some(json(*v)),
                                None => None,
                            }
                        },
                    Err(e) => r == Err::<R, Error>(e),
                }
            }),
            *final(final(self).val->0) == *final(old(self).val->0),
    {
        let pop_from = |v: &mut IValue| -> (r: Result<Option<IValue>, Error>)
            ensures
                json(*final(v)) == item_popped(json(*old(v)), index as int).0,
                match r {
                    Ok(x) => item_popped(json(*old(v)), index as int).1 == Ok::<Option<Json>, Error>(
                        optional_json(x),
                    ),
                    Err(e) => item_popped(json(*old(v)), index as int).1 == Err::<Option<Json>, Error>(
                        e,
                    ),
                },
            { pop_item(v, index) };
        match self.do_op(path, pop_from) {
            Ok(popped) => match &popped {
                Some(v) => serialize_callback(Some(v)),
                None => serialize_callback(None),
            },
            Err(e) => Err(e),
        }
    }

    /// Cuts the array at `path` down to its elements from `start` to `stop`, and returns its new
    /// length.
    pub fn arr_trim(&mut self, path: Vec<String>, start: i64, stop: i64) -> (r: Result<
        usize,
        Error,
    >)
        requires
            old(self).doc() is Some,
            path_fits(old(self).doc()->0, tokens(path@)),
        ensures
            final(self).doc() is Some,
            (final(self).doc()->0, r) == at_path(
                old(self).doc()->0,
                tokens(path@),
                |t: Json| items_trimmed(t, start as int, stop as int),
            ),
            *final(final(self).val->0) == *final(old(self).val->0),
    {
        let trim_at = |v: &mut IValue| -> (r: Result<usize, Error>)
            ensures
                (json(*final(v)), r) == items_trimmed(json(*old(v)), start as int, stop as int),
            { trim_items(v, start, stop) };
        self.do_op(path, trim_at)
    }

    /// Empties the container or zeroes the number at `path`, and returns how many values were
    /// cleared.
    pub fn clear(&mut self, path: Vec<String>) -> (r: Result<usize, Error>)
        requires
            old(self).doc() is Some,
            path_fits(old(self).doc()->0, tokens(path@)),
        ensures
            final(self).doc() is Some,
            (final(self).doc()->0, r) == at_path(
                old(self).doc()->0,
                tokens(path@),
                |t: Json| cleared(t),
            ),
            *final(final(self).val->0) == *final(old(self).val->0),
    {
        self.do_op(path, clear_value)
    }
}

/// A key that is open for reading, with the document under it.
pub struct IValueKeyHolderRead<'a> {
    pub val: Option<&'a RedisJSON>,
}

impl<'a> IValueKeyHolderRead<'a> {
    /// The document, where there is one.
    pub open spec fn doc(&self) -> Option<Json> {
        match self.val {
            Some(value) => Some(json(value.data)),
            None => None,
        }
    }

    /// The document.
    pub fn get_value(&self) -> (r: Option<&'a IValue>)
        ensures
            match r {
                Some(v) => self.doc() == Some(json(*v)),
                None => self.doc() is None,
            },
    {
        match self.val {
            Some(value) => Some(&value.data),
            None => None,
        }
    }
}

}
