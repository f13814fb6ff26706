//! The manager of documents: reading them from text, and measuring them.
use ijson::IValue;
use std::marker::PhantomData;
use vstd::prelude::*;

use crate::error::Error;
use crate::json::{storable, well_formed, Json, STRING_LIMIT};
use crate::memory::{lays_out, measure, measures_as, tell};
use crate::text::{
    bson_texts, decode_bson, decoded_bson, first_text, limited_document, parse_limited,
    parse_unlimited, reread, reread_bson, unlimited_document,
};
use crate::values::{json, null_value};

verus! {

/// How a document is written as text.
#[derive(Clone, Copy, Debug, PartialEq, Eq, Structural)]
pub enum Format {
    STRING,
    JSON,
    BSON,
}

/// Whether reading came to `outcome`: a document, or the text of an error.
pub open spec fn reads_as(r: Result<IValue, Error>, outcome: Result<Json, Seq<char>>) -> bool {
    match outcome {
        Ok(j) => r matches Ok(v) && json(v) == j,
        Err(e) => r matches Err(Error::Parse(text)) && text@ == e,
    }
}

/// What a JSON text is read as, with or without a limit on how deep values nest.
pub open spec fn json_document(text: Seq<char>, limit_depth: bool) -> Result<Json, Seq<char>> {
    if limit_depth {
        limited_document(text)
    } else {
        unlimited_document(text)
    }
}

/// What becomes of the JSON text of the first element of a BSON document: it is read as a
/// document; where there is no element, the document is null.
pub open spec fn first_element_read(
    r: Result<IValue, Error>,
    first: Option<Seq<char>>,
    limit_depth: bool,
) -> bool {
    match first {
        Some(text) => if storable(text) {
            reads_as(r, json_document(text, limit_depth))
        } else {
            r == Err::<IValue, Error>(Error::StringTooLong)
        },
        None => r matches Ok(v) && json(v) == Json::Null,
    }
}

/// The JSON text of the first element of a BSON document, where there is one, or the text of the
/// error that decoding it gives.
pub open spec fn bson_first(text: Seq<char>) -> Result<Option<Seq<char>>, Seq<char>> {
    match decoded_bson(text) {
        Ok(d) => match reread_bson(d) {
            Ok(again) => Ok(
                if bson_texts(again).len() > 0 {
                    Some(bson_texts(again)[0])
                } else {
                    None
                },
            ),
            Err(e) => Err(e),
        },
        Err(e) => Err(e),
    }
}

/// The manager of documents that are held as `IValue`s.
pub struct RedisIValueJsonKeyManager<'a> {
    pub phantom: PhantomData<&'a u64>,
}

impl<'a> RedisIValueJsonKeyManager<'a> {
    /// Reads a JSON text as a document.
    pub fn from_json(&self, val: &str, limit_depth: bool) -> (r: Result<IValue, Error>)
        requires
            storable(val@),
        ensures
            reads_as(r, json_document(val@, limit_depth)),
            r matches Ok(v) ==> well_formed(json(v)),
    {
        let parsed = if limit_depth {
            parse_limited(val)
        } else {
            parse_unlimited(val)
        };
        match parsed {
            Ok(v) => Ok(v),
            Err(e) => Err(Error::Parse(e)),
        }
    }

    /// Reads the JSON text of the first element of a BSON document.
    pub fn from_first_element(&self, first: Option<String>, limit_depth: bool) -> (r: Result<
        IValue,
        Error,
    >)
        ensures
            first_element_read(
                r,
                match first {
                    Some(text) => Some(text@),
                    None => None,
                },
                limit_depth,
            ),
            r matches Ok(v) ==> well_formed(json(v)),
    {
        match first {
            Some(text) => if text.as_str().as_bytes().len() as u64 >= STRING_LIMIT {
                Err(Error::StringTooLong)
            } else {
                self.from_json(text.as_str(), limit_depth)
            },
            None => Ok(null_value()),
        }
    }

    /// Reads a document from a text.
    ///
    /// Of a BSON document it is the first element that is the document.
    pub fn from_str(&self, val: &str, format: Format, limit_depth: bool) -> (r: Result<
        IValue,
        Error,
    >)
        requires
            !(format is BSON) ==> storable(val@),
        ensures
            match format {
                Format::JSON | Format::STRING => reads_as(r, json_document(val@, limit_depth)),
                Format::BSON => match bson_first(val@) {
                    Ok(first) => first_element_read(r, first, limit_depth),
                    Err(e) => r matches Err(Error::Parse(text)) && text@ == e,
                },
            },
            r matches Ok(v) ==> well_formed(json(v)),
    {
        match format {
            Format::JSON | Format::STRING => self.from_json(val, limit_depth),
            Format::BSON => match decode_bson(val) {
                Ok(document) => match reread(document) {
                    Ok(docs) => self.from_first_element(first_text(&docs), limit_depth),
                    Err(e) => Err(Error::Parse(e)),
                },
                Err(e) => Err(Error::Parse(e)),
            },
        }
    }

    /// The bytes that a document takes. Where no `usize` can tell them, this is an error.
    ///
    /// How much room a container has allocated is known only to it, so that one document can take
    /// more bytes or fewer; a document without containers takes what its layout says. What a
    /// container takes that has a given room, [`crate::memory::array_memory`] and
    /// [`crate::memory::object_memory`] say.
    pub fn get_memory(&self, v: &IValue) -> (r: Result<usize, Error>)
        ensures
            measures_as(json(*v), r),
    {
        let (size, layout) = measure(v);
        assert(lays_out(layout@, json(*v)));
        tell(size)
    }
}

}
