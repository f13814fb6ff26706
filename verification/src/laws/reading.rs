//! What holds of reading documents from texts.
use ijson::IValue;
use vstd::prelude::*;
use vstd::utf8::encode_utf8;

use crate::error::Error;
use crate::json::Json;
use crate::manager::{
    bson_first, first_element_read, json_document, reads_as, Format, RedisIValueJsonKeyManager,
};
use crate::text::{bson_texts, decoded_bson, limited_document, reread_bson, unlimited_document};
use crate::values::json;

verus! {

/// What is read is the document, or the error with its text.
pub proof fn law_reads_as(r: Result<IValue, Error>, j: Json, e: Seq<char>)
    ensures
        reads_as(r, Ok::<Json, Seq<char>>(j)) <==> (r matches Ok(v) && json(v) == j),
        reads_as(r, Err::<Json, Seq<char>>(e)) <==> (r matches Err(Error::Parse(text)) && text@
            == e),
{
}

/// Depth is limited where it is asked for, and only there.
pub proof fn law_limited_depth(text: Seq<char>)
    ensures
        json_document(text, true) == limited_document(text),
        json_document(text, false) == unlimited_document(text),
{
}

/// The first element of a BSON document is read as JSON; without one the document is null, and at
/// 2^48 bytes and above it is refused.
pub proof fn law_first_element(r: Result<IValue, Error>, text: Seq<char>, limit_depth: bool)
    ensures
        first_element_read(r, None, limit_depth) <==> (r matches Ok(v) && json(v) is Null),
        encode_utf8(text).len() < 281_474_976_710_656 ==> (first_element_read(
            r,
            Some(text),
            limit_depth,
        ) <==> reads_as(r, json_document(text, limit_depth))),
        encode_utf8(text).len() >= 281_474_976_710_656 ==> (first_element_read(
            r,
            Some(text),
            limit_depth,
        ) <==> r == Err::<IValue, Error>(Error::StringTooLong)),
{
}

/// A BSON document is decoded and read again, and its first element is what counts.
pub proof fn law_bson_first(text: Seq<char>, bytes: Seq<u8>, again: Seq<u8>, e: Seq<char>)
    ensures
        decoded_bson(text) == Err::<Seq<u8>, Seq<char>>(e) ==> bson_first(text) == Err::<
            Option<Seq<char>>,
            Seq<char>,
        >(e),
        decoded_bson(text) == Ok::<Seq<u8>, Seq<char>>(bytes) && reread_bson(bytes) == Err::<
            Seq<u8>,
            Seq<char>,
        >(e) ==> bson_first(text) == Err::<Option<Seq<char>>, Seq<char>>(e),
        decoded_bson(text) == Ok::<Seq<u8>, Seq<char>>(bytes) && reread_bson(bytes) == Ok::<
            Seq<u8>,
            Seq<char>,
        >(again) && bson_texts(again).len() == 0 ==> bson_first(text) == Ok::<
            Option<Seq<char>>,
            Seq<char>,
        >(None),
        decoded_bson(text) == Ok::<Seq<u8>, Seq<char>>(bytes) && reread_bson(bytes) == Ok::<
            Seq<u8>,
            Seq<char>,
        >(again) && bson_texts(again).len() > 0 ==> bson_first(text) == Ok::<
            Option<Seq<char>>,
            Seq<char>,
        >(Some(bson_texts(again)[0])),
{
}

/// Calls read a text as its format says: JSON as it is, BSON by its first element.
pub proof fn law_reading_calls<'a>(
    m: &RedisIValueJsonKeyManager<'a>,
    val: &str,
    format: Format,
    limit_depth: bool,
    first: Option<String>,
    r: Result<IValue, Error>,
)
    ensures
        call_ensures(RedisIValueJsonKeyManager::<'a>::from_json, (m, val, limit_depth), r)
            ==> reads_as(r, json_document(val@, limit_depth)),
        call_ensures(
            RedisIValueJsonKeyManager::<'a>::from_first_element,
            (m, first, limit_depth),
            r,
        ) ==> match first {
            Some(text) => first_element_read(r, Some(text@), limit_depth),
            None => first_element_read(r, None, limit_depth),
        },
        call_ensures(RedisIValueJsonKeyManager::<'a>::from_str, (m, val, format, limit_depth), r)
            ==> {
            &&& format is JSON || format is STRING ==> reads_as(r, json_document(val@, limit_depth))
            &&& format is BSON ==> match bson_first(val@) {
                Ok(found) => first_element_read(r, found, limit_depth),
                Err(e) => r matches Err(Error::Parse(text)) && text@ == e,
            }
        },
{
}

}
