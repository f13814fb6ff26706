use std::marker::PhantomData;

use ijson::{IArray, IObject, IValue};
use redis_json::error::Error;
use redis_json::manager::{Format, RedisIValueJsonKeyManager};
use redis_json::memory::{
    array_memory, array_size, number_size, object_memory, object_size, size_sum,
};

fn manager() -> RedisIValueJsonKeyManager<'static> {
    RedisIValueJsonKeyManager { phantom: PhantomData }
}

fn value(text: &str) -> IValue {
    serde_json::from_str(text).unwrap()
}

#[test]
fn test_get_memory() {
    let manager = RedisIValueJsonKeyManager { phantom: PhantomData };
    let json = r#"{
                        "a": 100.12,
                        "b": "foo",
                        "c": true,
                        "d": 126,
                        "e": -112,
                        "f": 7388608,
                        "g": -6388608,
                        "h": 9388608,
                        "i": -9485608,
                        "j": [],
                        "k": {},
                        "l": [1, "asas", {"a": 1}],
                        "m": {"t": "f"}
                    }"#;
    let value = serde_json::from_str(json).unwrap();
    let res = manager.get_memory(&value).unwrap();
    assert_eq!(res, 903);
}

/// Tests the deserialiser of IValue for a string with unicode
/// characters, to ensure that the deserialiser can handle
/// unicode characters well.
#[test]
fn test_unicode_characters() {
    let json = r#""\u00a0\u00a0\u00a0\u00a0\u00a0\u00a0\u00a0""#;
    let value: IValue = serde_json::from_str(json).expect("IValue parses fine.");
    assert_eq!(
        value.as_string().unwrap(),
        "\u{a0}\u{a0}\u{a0}\u{a0}\u{a0}\u{a0}\u{a0}"
    );
    let read = manager().from_str(json, Format::JSON, true).expect("IValue parses fine.");
    assert_eq!(
        read.as_string().unwrap(),
        "\u{a0}\u{a0}\u{a0}\u{a0}\u{a0}\u{a0}\u{a0}"
    );

    let json = r#"{"\u00a0\u00a0\u00a0\u00a0\u00a0\u00a0\u00a0":"\u00a0\u00a0\u00a0\u00a0\u00a0\u00a0\u00a0"}"#;
    let value: IValue = serde_json::from_str(json).expect("IValue parses fine.");
    assert_eq!(
        value
            .as_object()
            .unwrap()
            .get("\u{a0}\u{a0}\u{a0}\u{a0}\u{a0}\u{a0}\u{a0}")
            .unwrap()
            .as_string()
            .unwrap(),
        "\u{a0}\u{a0}\u{a0}\u{a0}\u{a0}\u{a0}\u{a0}"
    );
    let read = manager().from_str(json, Format::JSON, true).expect("IValue parses fine.");
    assert_eq!(read, value);
}

#[test]
fn memory_of_scalars() {
    let m = manager();
    assert_eq!(m.get_memory(&value("null")), Ok(8));
    assert_eq!(m.get_memory(&value("true")), Ok(8));
    assert_eq!(m.get_memory(&value("\"abc\"")), Ok(11));
    assert_eq!(m.get_memory(&value("\"\u{e9}\"")), Ok(10));
    assert_eq!(m.get_memory(&value("1.5")), Ok(24));
    assert_eq!(m.get_memory(&value("-128")), Ok(8));
    assert_eq!(m.get_memory(&value("-129")), Ok(12));
    assert_eq!(m.get_memory(&value("383")), Ok(8));
    assert_eq!(m.get_memory(&value("384")), Ok(12));
    assert_eq!(m.get_memory(&value("8388607")), Ok(12));
    assert_eq!(m.get_memory(&value("8388608")), Ok(24));
    assert_eq!(m.get_memory(&value("-8388607")), Ok(12));
    assert_eq!(m.get_memory(&value("-8388608")), Ok(24));
    assert_eq!(m.get_memory(&value("18446744073709551615")), Ok(24));
}

#[test]
fn memory_of_containers() {
    let m = manager();
    assert_eq!(m.get_memory(&value("[]")), Ok(8));
    assert_eq!(m.get_memory(&value("{}")), Ok(8));

    let mut array = IArray::with_capacity(3);
    array.push(value("1.5"));
    assert_eq!(m.get_memory(&IValue::from(array)), Ok(8 + 8 * 5 + 24));

    let mut object = IObject::with_capacity(2);
    object.insert("key", value("\"abc\""));
    assert_eq!(m.get_memory(&IValue::from(object)), Ok(8 + 8 * 8 + 3 + 11));
}

#[test]
fn memory_by_capacity() {
    assert_eq!(array_size(0, Some(5)), Some(0));
    assert_eq!(array_size(3, Some(10)), Some(50));
    assert_eq!(array_size(3, None), None);
    assert_eq!(array_size(usize::MAX, Some(0)), None);
    assert_eq!(object_size(0, Some(5)), Some(0));
    assert_eq!(object_size(2, Some(1)), Some(65));
    assert_eq!(object_size(2, None), None);
    assert_eq!(object_size(usize::MAX / 2, Some(0)), None);
    assert_eq!(size_sum(Some(1), Some(2)), Some(3));
    assert_eq!(size_sum(Some(usize::MAX), Some(1)), None);
    assert_eq!(size_sum(None, Some(1)), None);
    assert_eq!(number_size(&value("300")), 0);
    assert_eq!(number_size(&value("400")), 4);
    assert_eq!(number_size(&value("4e2")), 16);
}

#[test]
fn memory_of_containers_with_a_given_room() {
    let m = manager();
    let mut array = IArray::with_capacity(3);
    array.push(value("1.5"));
    array.push(value("[\"abc\"]"));
    let parts: usize = array.iter().map(|v| m.get_memory(v).unwrap()).sum();
    assert_eq!(array_memory(&array, 2), Ok(8 + 8 * 4 + parts));
    assert_eq!(array_memory(&array, 9), Ok(8 + 8 * 11 + parts));
    assert_eq!(array_memory(&array, 0), Ok(8));
    assert_eq!(array_memory(&array, usize::MAX), Err(Error::SizeOverflow));
    assert_eq!(array_memory(&array, array.capacity()), m.get_memory(&array.into()));

    let mut object = IObject::with_capacity(2);
    object.insert("key", value("\"abc\""));
    object.insert("k", value("[1.5]"));
    let parts: usize = object.iter().map(|(k, v)| k.len() + m.get_memory(v).unwrap()).sum();
    assert_eq!(object_memory(&object, 2), Ok(8 + 8 * 8 + parts));
    assert_eq!(object_memory(&object, 5), Ok(8 + 8 * 17 + parts));
    assert_eq!(object_memory(&object, 0), Ok(8));
    assert_eq!(object_memory(&object, usize::MAX), Err(Error::SizeOverflow));
    assert_eq!(object_memory(&object, object.capacity()), m.get_memory(&object.into()));
}

#[test]
fn capacity_counts_and_length_does_not() {
    let m = manager();
    let mut array = IArray::with_capacity(10);
    array.push(value("1.5"));
    assert_eq!(m.get_memory(&array.into()), Ok(8 + 8 * 12 + 24));
    let mut object = IObject::with_capacity(10);
    object.insert("key", value("true"));
    assert_eq!(m.get_memory(&object.into()), Ok(8 + 8 * 32 + 3 + 8));
}

#[test]
fn a_part_takes_less_than_the_whole() {
    let m = manager();
    let whole = value("[[1.5, 2.5], {\"a\": \"text\"}]");
    let size = m.get_memory(&whole).unwrap();
    for part in whole.as_array().unwrap().iter() {
        assert!(m.get_memory(part).unwrap() < size);
    }
}

#[test]
fn reads_json() {
    let m = manager();
    let read = m.from_str("{\"a\": [1, null]}", Format::JSON, true).unwrap();
    assert_eq!(read, value("{\"a\": [1, null]}"));
    let read = m.from_str("\"text\"", Format::STRING, true).unwrap();
    assert_eq!(read, value("\"text\""));
    let read = m.from_json("[true]", false).unwrap();
    assert_eq!(read, value("[true]"));
}

#[test]
fn reads_the_start_of_a_text() {
    assert_eq!(manager().from_str("1 2", Format::JSON, true).unwrap(), value("1"));
}

#[test]
fn no_key_stays_twice() {
    let read = manager().from_str("{\"a\": 1, \"b\": 2, \"a\": 3}", Format::JSON, true).unwrap();
    assert_eq!(serde_json::to_string(&read).unwrap(), "{\"a\":3,\"b\":2}");
}

#[test]
fn refuses_what_is_no_json() {
    assert!(matches!(manager().from_str("{", Format::JSON, true), Err(Error::Parse(_))));
    assert!(matches!(manager().from_str("", Format::STRING, false), Err(Error::Parse(_))));
    match manager().from_str("[1,", Format::JSON, true) {
        Err(Error::Parse(text)) => {
            assert_eq!(text, "EOF while parsing a value at line 1 column 3");
        }
        _ => panic!("a text that ends early was read"),
    }
}

#[test]
fn limits_depth_where_asked() {
    let deep = format!("{}{}", "[".repeat(200), "]".repeat(200));
    assert!(matches!(manager().from_str(&deep, Format::JSON, true), Err(Error::Parse(_))));
    let mut read = manager().from_str(&deep, Format::JSON, false).unwrap();
    let mut depth = 0;
    while let Some(inner) = read.as_array_mut().and_then(|a| a.pop()) {
        read = inner;
        depth += 1;
    }
    assert_eq!(depth, 199);
}

#[test]
fn reads_bson() {
    let m = manager();
    // {"a": 1}
    let read = m.from_str("\x0c\0\0\0\x10a\0\x01\0\0\0\0", Format::BSON, true).unwrap();
    assert_eq!(read, value("1"));
    // {"a": "hi"}
    let read = m.from_str("\x0f\0\0\0\x02a\0\x03\0\0\0hi\0\0", Format::BSON, true).unwrap();
    assert_eq!(read, value("\"hi\""));
    // {"a": "hi", "b": 1}: the first element counts
    let both = "\x16\0\0\0\x02a\0\x03\0\0\0hi\0\x10b\0\x01\0\0\0\0";
    assert_eq!(m.from_str(both, Format::BSON, true).unwrap(), value("\"hi\""));
    // {"a": {"b": true}}
    let nested = "\x11\0\0\0\x03a\0\x09\0\0\0\x08b\0\x01\0\0";
    assert_eq!(m.from_str(nested, Format::BSON, true).unwrap(), value("{\"b\": true}"));
    // {}
    assert_eq!(m.from_str("\x05\0\0\0\0", Format::BSON, true).unwrap(), IValue::NULL);
}

#[test]
fn refuses_what_is_no_bson() {
    assert!(matches!(manager().from_str("abc", Format::BSON, true), Err(Error::Parse(_))));
    // {"$oid": "zz"} is no document
    let tagged = "\x12\0\0\0\x02$oid\0\x03\0\0\0zz\0\0";
    assert!(matches!(manager().from_str(tagged, Format::BSON, true), Err(Error::Parse(_))));
}

#[test]
fn reads_the_first_element() {
    let m = manager();
    assert_eq!(m.from_first_element(Some("[2]".to_string()), true).unwrap(), value("[2]"));
    assert_eq!(m.from_first_element(None, true).unwrap(), IValue::NULL);
    assert!(matches!(m.from_first_element(Some("]".to_string()), true), Err(Error::Parse(_))));
}
