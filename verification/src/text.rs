//! What the library relies on from `serde_json` and `bson`: reading texts. None of this is proved
//! here.
use bson::Document;
use ijson::IValue;
use serde::Deserialize;
use std::io::Cursor;
use vstd::prelude::*;

use crate::json::{storable, well_formed, Json};
use crate::values::json;

verus! {

/// `bson::Document`: a decoded BSON document.
#[verifier::external_type_specification]
#[verifier::external_body]
pub struct ExDocument(Document);

/// The JSON that an argument of an operation is, as far as operations look into it.
///
/// A number comes with its value as an `i64`, where it is an integer that fits, and with the bit
/// pattern of its value as a double.
pub enum Input {
    Null,
    Bool(bool),
    Number { long: Option<i64>, double: u64 },
    String(String),
    Array,
    Object,
}

/// What an [`Input`] stands for.
pub enum InputView {
    Null,
    Bool(bool),
    Number { long: Option<i64>, double: u64 },
    String(Seq<char>),
    Array,
    Object,
}

impl View for Input {
    type V = InputView;

    open spec fn view(&self) -> InputView {
        match *self {
            Input::Null => InputView::Null,
            Input::Bool(b) => InputView::Bool(b),
            Input::Number { long, double } => InputView::Number { long, double },
            Input::String(s) => InputView::String(s@),
            Input::Array => InputView::Array,
            Input::Object => InputView::Object,
        }
    }
}

/// What `serde_json::from_str` reads from a text: a JSON value, or the text of its error.
pub uninterp spec fn parsed_input(text: Seq<char>) -> Result<InputView, Seq<char>>;

/// `serde_json::from_str` reads a text as one JSON value. A number is asked with `as_i64` and
/// `as_f64`; the latter has an answer for every number.
#[verifier::external_body]
pub(crate) fn parse_input(text: &str) -> (r: Result<Input, String>)
    ensures
        match r {
            Ok(input) => parsed_input(text@) == Ok::<InputView, Seq<char>>(input@),
            Err(e) => parsed_input(text@) == Err::<InputView, Seq<char>>(e@),
        },
{
    match serde_json::from_str(text).map_err(|e| e.to_string())? {
        serde_json::Value::Null => Ok(Input::Null),
        serde_json::Value::Bool(b) => Ok(Input::Bool(b)),
        serde_json::Value::Number(n) => Ok(
            Input::Number { long: n.as_i64(), double: n.as_f64().unwrap().to_bits() },
        ),
        serde_json::Value::String(s) => Ok(Input::String(s)),
        serde_json::Value::Array(_) => Ok(Input::Array),
        serde_json::Value::Object(_) => Ok(Input::Object),
    }
}

/// What `IValue::deserialize` reads from the start of a text through a `serde_json` deserializer
/// that limits how deep values nest: a document, or the text of the error.
pub uninterp spec fn limited_document(text: Seq<char>) -> Result<Json, Seq<char>>;

/// What `IValue::deserialize` reads from the start of a text through a `serde_json` deserializer
/// with `disable_recursion_limit`: a document, or the text of the error.
pub uninterp spec fn unlimited_document(text: Seq<char>) -> Result<Json, Seq<char>>;

/// `IValue::deserialize` on `serde_json::Deserializer::from_str`. The strings of the text are
/// interned, which asserts that each is below 2^48 bytes. The members of an object are inserted
/// one by one, so that no key stays twice.
#[verifier::external_body]
pub(crate) fn parse_limited(text: &str) -> (r: Result<IValue, String>)
    requires
        storable(text@),
    ensures
        match r {
            Ok(v) => limited_document(text@) == Ok::<Json, Seq<char>>(json(v)) && well_formed(json(v)),
            Err(e) => limited_document(text@) == Err::<Json, Seq<char>>(e@),
        },
{
    let mut deserializer = serde_json::Deserializer::from_str(text);
    IValue::deserialize(&mut deserializer).map_err(|e| e.to_string())
}

/// `IValue::deserialize` on `serde_json::Deserializer::from_str`, after
/// `disable_recursion_limit`. The strings of the text are interned, which asserts that each is
/// below 2^48 bytes. The members of an object are inserted one by one, so that no key stays
/// twice. A text that nests deeper than the stack allows is not read to its end.
#[verifier::external_body]
pub(crate) fn parse_unlimited(text: &str) -> (r: Result<IValue, String>)
    requires
        storable(text@),
    ensures
        match r {
            Ok(v) => unlimited_document(text@) == Ok::<Json, Seq<char>>(json(v)) && well_formed(json(v)),
            Err(e) => unlimited_document(text@) == Err::<Json, Seq<char>>(e@),
        },
{
    let mut deserializer = serde_json::Deserializer::from_str(text);
    deserializer.disable_recursion_limit();
    IValue::deserialize(&mut deserializer).map_err(|e| e.to_string())
}

/// What a BSON document holds, as the bytes of its encoding.
pub uninterp spec fn bson_bytes(d: Document) -> Seq<u8>;

/// What `Document::from_reader` decodes the bytes of a text to: the encoding of a document, or the
/// text of the error.
pub uninterp spec fn decoded_bson(text: Seq<char>) -> Result<Seq<u8>, Seq<char>>;

/// What `bson::from_document` makes of a document when it deserializes it as a document again:
/// the encoding of that document, or the text of the error.
pub uninterp spec fn reread_bson(bytes: Seq<u8>) -> Result<Seq<u8>, Seq<char>>;

/// The elements of a BSON document in their order: each value as the JSON text of the
/// `serde_json::Value` that it converts to.
pub uninterp spec fn bson_texts(bytes: Seq<u8>) -> Seq<Seq<char>>;

/// `Document::from_reader` decodes the bytes of a text.
#[verifier::external_body]
pub(crate) fn decode_bson(text: &str) -> (r: Result<Document, String>)
    ensures
        match r {
            Ok(d) => decoded_bson(text@) == Ok::<Seq<u8>, Seq<char>>(bson_bytes(d)),
            Err(e) => decoded_bson(text@) == Err::<Seq<u8>, Seq<char>>(e@),
        },
{
    Document::from_reader(&mut Cursor::new(text.as_bytes())).map_err(|e| e.to_string())
}

/// `bson::from_document` deserializes a document, here as a document again.
#[verifier::external_body]
pub(crate) fn reread(d: Document) -> (r: Result<Document, String>)
    ensures
        match r {
            Ok(again) => reread_bson(bson_bytes(d)) == Ok::<Seq<u8>, Seq<char>>(bson_bytes(again)),
            Err(e) => reread_bson(bson_bytes(d)) == Err::<Seq<u8>, Seq<char>>(e@),
        },
{
    bson::from_document(d).map_err(|e| e.to_string())
}

/// `Document::iter` walks the elements; the first of them, where there is one, is converted to a
/// `serde_json::Value` and written as text.
#[verifier::external_body]
pub(crate) fn first_text(d: &Document) -> (r: Option<String>)
    ensures
        match r {
            Some(t) => bson_texts(bson_bytes(*d)).len() > 0 && bson_texts(bson_bytes(*d))[0] == t@,
            None => bson_texts(bson_bytes(*d)).len() == 0,
        },
{
    d.iter().next().map(|(_, b)| serde_json::Value::from(b.clone()).to_string())
}

}
