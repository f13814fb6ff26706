use ijson::IValue;
use redis_json::error::Error;
use redis_json::json::SelectValueType;
use redis_json::merge::merge;
use redis_json::number::Number;
use redis_json::ops::{
    add_member, append_items, append_text, clear_value, get_type, insert_items, pop_item,
    store_double, to_number, toggle, trim_items,
};

fn value(text: &str) -> IValue {
    serde_json::from_str(text).unwrap()
}

fn text_of(v: &IValue) -> String {
    serde_json::to_string(v).unwrap()
}

fn merged(doc: &str, patch: &str) -> IValue {
    let mut v = value(doc);
    merge(&mut v, value(patch));
    v
}

#[test]
fn types_of_values() {
    assert_eq!(get_type(&value("null")), SelectValueType::Null);
    assert_eq!(get_type(&value("false")), SelectValueType::Bool);
    assert_eq!(get_type(&value("-3")), SelectValueType::Long);
    assert_eq!(get_type(&value("9223372036854775807")), SelectValueType::Long);
    assert_eq!(get_type(&value("9223372036854775808")), SelectValueType::Double);
    assert_eq!(get_type(&value("3.0")), SelectValueType::Double);
    assert_eq!(get_type(&value("\"\"")), SelectValueType::String);
    assert_eq!(get_type(&value("[]")), SelectValueType::Array);
    assert_eq!(get_type(&value("{}")), SelectValueType::Object);
}

#[test]
fn toggles_booleans() {
    let mut v = value("true");
    assert_eq!(toggle(&mut v), Ok(false));
    assert_eq!(v, value("false"));
    assert_eq!(toggle(&mut v), Ok(true));
    assert_eq!(v, value("true"));
    let mut v = value("\"true\"");
    assert_eq!(
        toggle(&mut v),
        Err(Error::WrongType {
            expected: SelectValueType::Bool,
            found: SelectValueType::String
        })
    );
    assert_eq!(v, value("\"true\""));
}

#[test]
fn appends_texts() {
    let mut v = value("\"foo\"");
    assert_eq!(append_text(&mut v, "bar"), Ok(6));
    assert_eq!(v, value("\"foobar\""));
    assert_eq!(append_text(&mut v, "\u{e9}"), Ok(8));
    assert_eq!(append_text(&mut v, ""), Ok(8));
    assert_eq!(v, value("\"foobar\u{e9}\""));
    let mut at_once = value("\"foo\"");
    assert_eq!(append_text(&mut at_once, "bar\u{e9}"), Ok(8));
    assert_eq!(at_once, v);
    let mut v = value("1");
    assert_eq!(
        append_text(&mut v, "x"),
        Err(Error::WrongType {
            expected: SelectValueType::String,
            found: SelectValueType::Long
        })
    );
}

#[test]
fn appends_items() {
    let mut v = value("[1]");
    assert_eq!(append_items(&mut v, &[value("2"), value("[3]")]), Ok(3));
    assert_eq!(v, value("[1, 2, [3]]"));
    assert_eq!(append_items(&mut v, &[]), Ok(3));
    let mut v = value("{}");
    assert_eq!(
        append_items(&mut v, &[value("2")]),
        Err(Error::WrongType {
            expected: SelectValueType::Array,
            found: SelectValueType::Object
        })
    );
}

#[test]
fn inserts_items() {
    let mut v = value("[1, 2, 3]");
    assert_eq!(insert_items(&mut v, &[value("8"), value("9")], 1), Ok(5));
    assert_eq!(v, value("[1, 8, 9, 2, 3]"));
    assert_eq!(insert_items(&mut v, &[value("7")], -1), Ok(6));
    assert_eq!(v, value("[1, 8, 9, 2, 7, 3]"));
    assert_eq!(insert_items(&mut v, &[value("0")], -6), Ok(7));
    assert_eq!(v, value("[0, 1, 8, 9, 2, 7, 3]"));
    assert_eq!(insert_items(&mut v, &[value("4")], 7), Ok(8));
    assert_eq!(v, value("[0, 1, 8, 9, 2, 7, 3, 4]"));
}

#[test]
fn inserting_makes_room_at_once() {
    let items = [value("1"), value("2"), value("3"), value("4"), value("5")];
    let mut inserted = value("[]");
    assert_eq!(insert_items(&mut inserted, &items, 0), Ok(5));
    assert_eq!(inserted, value("[1, 2, 3, 4, 5]"));
    assert_eq!(inserted.as_array().unwrap().capacity(), 5);
    let mut appended = value("[]");
    assert_eq!(append_items(&mut appended, &items), Ok(5));
    assert_eq!(appended, inserted);
    assert_eq!(appended.as_array().unwrap().capacity(), 8);
}

#[test]
fn insert_is_refused_outside() {
    let mut v = value("[1, 2]");
    assert_eq!(insert_items(&mut v, &[value("8")], 3), Err(Error::IndexOutOfBounds));
    assert_eq!(insert_items(&mut v, &[value("8")], -3), Err(Error::IndexOutOfBounds));
    assert_eq!(insert_items(&mut v, &[], i64::MIN), Err(Error::IndexOutOfBounds));
    assert_eq!(insert_items(&mut v, &[], i64::MAX), Err(Error::IndexOutOfBounds));
    assert_eq!(v, value("[1, 2]"));
}

#[test]
fn insert_at_the_end_is_append() {
    let mut a = value("[1, 2]");
    let mut b = value("[1, 2]");
    assert_eq!(insert_items(&mut a, &[value("3")], 2), append_items(&mut b, &[value("3")]));
    assert_eq!(a, b);
}

#[test]
fn inserting_nothing_changes_nothing() {
    let mut v = value("[1, 2]");
    assert_eq!(insert_items(&mut v, &[], 1), Ok(2));
    assert_eq!(v, value("[1, 2]"));
}

#[test]
fn pops_items() {
    let mut v = value("[1, 2, 3, 4]");
    assert_eq!(pop_item(&mut v, -1), Ok(Some(value("4"))));
    assert_eq!(pop_item(&mut v, 1), Ok(Some(value("2"))));
    assert_eq!(v, value("[1, 3]"));
    assert_eq!(pop_item(&mut v, 100), Ok(Some(value("3"))));
    assert_eq!(pop_item(&mut v, -100), Ok(Some(value("1"))));
    assert_eq!(v, value("[]"));
    assert_eq!(pop_item(&mut v, 0), Ok(None));
    assert_eq!(v, value("[]"));
    let mut v = value("null");
    assert_eq!(
        pop_item(&mut v, 0),
        Err(Error::WrongType {
            expected: SelectValueType::Array,
            found: SelectValueType::Null
        })
    );
}

#[test]
fn insert_and_pop_undo_each_other() {
    let mut v = value("[1, 2, 3]");
    assert_eq!(insert_items(&mut v, &[value("9")], 1), Ok(4));
    assert_eq!(pop_item(&mut v, 1), Ok(Some(value("9"))));
    assert_eq!(v, value("[1, 2, 3]"));
    assert_eq!(append_items(&mut v, &[value("9")]), Ok(4));
    assert_eq!(pop_item(&mut v, -1), Ok(Some(value("9"))));
    assert_eq!(v, value("[1, 2, 3]"));
    assert_eq!(pop_item(&mut v, 0), Ok(Some(value("1"))));
    assert_eq!(insert_items(&mut v, &[value("1")], 0), Ok(3));
    assert_eq!(v, value("[1, 2, 3]"));
}

#[test]
fn trims_arrays() {
    let trimmed = |start: i64, stop: i64| {
        let mut v = value("[0, 1, 2, 3, 4]");
        let len = trim_items(&mut v, start, stop).unwrap();
        assert_eq!(len, v.as_array().unwrap().len());
        v
    };
    assert_eq!(trimmed(1, 3), value("[1, 2, 3]"));
    assert_eq!(trimmed(0, -1), value("[0, 1, 2, 3, 4]"));
    assert_eq!(trimmed(-2, -1), value("[3, 4]"));
    assert_eq!(trimmed(-100, 1), value("[0, 1]"));
    assert_eq!(trimmed(3, 100), value("[3, 4]"));
    assert_eq!(trimmed(4, 4), value("[4]"));
    assert_eq!(trimmed(3, 2), value("[]"));
    assert_eq!(trimmed(5, 100), value("[]"));
    assert_eq!(trimmed(100, -1), value("[]"));
    assert_eq!(trimmed(i64::MIN, i64::MAX), value("[0, 1, 2, 3, 4]"));
    let mut empty = value("[]");
    assert_eq!(trim_items(&mut empty, 0, -1), Ok(0));
    assert_eq!(trim_items(&mut empty, -3, 7), Ok(0));
    let mut v = value("2.5");
    assert_eq!(
        trim_items(&mut v, 0, 0),
        Err(Error::WrongType {
            expected: SelectValueType::Array,
            found: SelectValueType::Double
        })
    );
}

#[test]
fn adds_members() {
    let mut v = value("{\"a\": 1}");
    assert_eq!(add_member(&mut v, "b", value("2")), Ok(true));
    assert_eq!(text_of(&v), "{\"a\":1,\"b\":2}");
    assert_eq!(add_member(&mut v, "b", value("3")), Ok(false));
    assert_eq!(text_of(&v), "{\"a\":1,\"b\":2}");
    let mut v = value("[1]");
    assert_eq!(add_member(&mut v, "b", value("2")), Ok(false));
    assert_eq!(v, value("[1]"));
}

#[test]
fn clears_values() {
    let cleared = |text: &str| {
        let mut v = value(text);
        let count = clear_value(&mut v);
        let once = v.clone();
        assert_eq!(clear_value(&mut v), count);
        assert_eq!(v, once);
        (v, count)
    };
    assert_eq!(cleared("{\"a\": 1}"), (value("{}"), Ok(1)));
    assert_eq!(cleared("[1, 2]"), (value("[]"), Ok(1)));
    assert_eq!(cleared("2.5"), (value("0"), Ok(1)));
    assert_eq!(cleared("7"), (value("0"), Ok(1)));
    assert_eq!(cleared("true"), (value("true"), Ok(0)));
    assert_eq!(cleared("null"), (value("null"), Ok(0)));
    assert_eq!(cleared("\"x\""), (value("\"x\""), Ok(0)));
}

#[test]
fn numbers_are_returned() {
    assert_eq!(to_number(&value("5")), Some(Number::Int(5)));
    assert_eq!(to_number(&value("-5")), Some(Number::Int(-5)));
    assert_eq!(to_number(&value("2.5")), Some(Number::Double(2.5f64.to_bits())));
    assert_eq!(to_number(&value("18446744073709551615")), None);
    assert_eq!(to_number(&value("\"5\"")), None);
}

#[test]
fn doubles_are_stored() {
    let mut v = value("1");
    assert_eq!(
        store_double(&mut v, Some(value("1.5"))),
        Ok(Number::Double(1.5f64.to_bits()))
    );
    assert_eq!(v, value("1.5"));
    assert_eq!(store_double(&mut v, None), Err(Error::NotANumber));
    assert_eq!(v, value("1.5"));
}

#[test]
fn merges_as_rfc_7396_shows() {
    let cases = [
        ("{\"a\":\"b\"}", "{\"a\":\"c\"}", "{\"a\":\"c\"}"),
        ("{\"a\":\"b\"}", "{\"b\":\"c\"}", "{\"a\":\"b\",\"b\":\"c\"}"),
        ("{\"a\":\"b\"}", "{\"a\":null}", "{}"),
        ("{\"a\":\"b\",\"b\":\"c\"}", "{\"a\":null}", "{\"b\":\"c\"}"),
        ("{\"a\":[\"b\"]}", "{\"a\":\"c\"}", "{\"a\":\"c\"}"),
        ("{\"a\":\"c\"}", "{\"a\":[\"b\"]}", "{\"a\":[\"b\"]}"),
        ("{\"a\":{\"b\":\"c\"}}", "{\"a\":{\"b\":\"d\",\"c\":null}}", "{\"a\":{\"b\":\"d\"}}"),
        ("{\"a\":[{\"b\":\"c\"}]}", "{\"a\":[1]}", "{\"a\":[1]}"),
        ("[\"a\",\"b\"]", "[\"c\",\"d\"]", "[\"c\",\"d\"]"),
        ("{\"a\":\"b\"}", "[\"c\"]", "[\"c\"]"),
        ("{\"a\":\"foo\"}", "null", "null"),
        ("{\"a\":\"foo\"}", "\"bar\"", "\"bar\""),
        ("{\"e\":null}", "{\"a\":1}", "{\"e\":null,\"a\":1}"),
        ("[1,2]", "{\"a\":\"b\",\"c\":null}", "{\"a\":\"b\"}"),
        ("{}", "{\"a\":{\"bb\":{\"ccc\":null}}}", "{\"a\":{\"bb\":{}}}"),
    ];
    for (doc, patch, result) in cases {
        assert_eq!(merged(doc, patch), value(result));
        // once more changes nothing
        assert_eq!(merged(result, patch), value(result));
    }
}

#[test]
fn merging_nothing_changes_nothing() {
    assert_eq!(merged("{\"a\": 1}", "{}"), value("{\"a\": 1}"));
    assert_eq!(merged("7", "{}"), value("{}"));
}

#[test]
fn merging_keeps_the_order_of_members() {
    let v = merged("{\"a\":1,\"b\":2,\"c\":3}", "{\"b\":9,\"d\":4}");
    assert_eq!(text_of(&v), "{\"a\":1,\"b\":9,\"c\":3,\"d\":4}");
    let v = merged("{\"a\":1,\"b\":2,\"c\":3}", "{\"a\":null}");
    assert_eq!(text_of(&v), "{\"c\":3,\"b\":2}");
}
