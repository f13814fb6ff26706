use std::marker::PhantomData;

use ijson::{INumber, IValue};
use redis_json::error::Error;
use redis_json::holder::{IValueKeyHolderRead, IValueKeyHolderWrite, KeyAction, RedisJSON};
use redis_json::json::SelectValueType;
use redis_json::manager::RedisIValueJsonKeyManager;
use redis_json::number::{NumOp, Number};
use redis_json::path::{follow_path, get_at, is_fitting_path, remove, update};
use redis_json::text::Input;

fn value(text: &str) -> IValue {
    serde_json::from_str(text).unwrap()
}

fn stored(text: &str) -> RedisJSON {
    RedisJSON { data: value(text) }
}

fn text_of(v: &IValue) -> String {
    serde_json::to_string(v).unwrap()
}

fn path(tokens: &[&str]) -> Vec<String> {
    tokens.iter().map(|t| t.to_string()).collect()
}

fn finite(d: f64) -> Option<IValue> {
    INumber::try_from(d).ok().map(IValue::from)
}

fn sum(a: u64, b: u64) -> Option<IValue> {
    finite(f64::from_bits(a) + f64::from_bits(b))
}

fn product(a: u64, b: u64) -> Option<IValue> {
    finite(f64::from_bits(a) * f64::from_bits(b))
}

fn power(a: u64, b: u64) -> Option<IValue> {
    finite(f64::from_bits(a).powf(f64::from_bits(b)))
}

fn double(d: f64) -> Number {
    Number::Double(d.to_bits())
}

#[test]
fn paths_are_followed() {
    let mut doc = value("{\"a\": [1, {\"b\": true}], \"c\": 2}");
    assert_eq!(follow_path(path(&["a", "1", "b"]), &mut doc), Some(&mut value("true")));
    assert_eq!(follow_path(path(&["a", "+1", "b"]), &mut doc), Some(&mut value("true")));
    assert_eq!(follow_path(path(&["a", "2"]), &mut doc), None);
    assert_eq!(follow_path(path(&["x"]), &mut doc), None);
    assert_eq!(follow_path(path(&["c", "d"]), &mut doc), None);
    assert_eq!(get_at(&path(&["a", "0"]), &doc), Some(&value("1")));
    assert_eq!(get_at(&path(&["a", "7"]), &doc), None);
    assert_eq!(get_at(&path(&[]), &doc), Some(&doc));
}

#[test]
fn paths_fit_or_not() {
    let doc = value("{\"a\": [1, {\"b\": true}], \"c\": 2}");
    assert!(is_fitting_path(&path(&[]), &doc));
    assert!(is_fitting_path(&path(&["a", "1", "b"]), &doc));
    assert!(is_fitting_path(&path(&["a", "9", "b"]), &doc));
    assert!(is_fitting_path(&path(&["x", "y"]), &doc));
    assert!(is_fitting_path(&path(&["c", "y"]), &doc));
    assert!(!is_fitting_path(&path(&["a", "b"]), &doc));
    assert!(!is_fitting_path(&path(&["a", "-1"]), &doc));
}

#[test]
fn values_are_updated() {
    let mut doc = value("{\"a\": [1, 2]}");
    let result = update(path(&["a", "1"]), &mut doc, |v| {
        *v = IValue::from(true);
        Ok(7)
    });
    assert_eq!(result, Ok(7));
    assert_eq!(doc, value("{\"a\": [1, true]}"));
    let result: Result<(), Error> = update(path(&["a", "0"]), &mut doc, |_| Err(Error::NotANumber));
    assert_eq!(result, Err(Error::NotANumber));
    assert_eq!(doc, value("{\"a\": [1, true]}"));
    let result = update(path(&["b"]), &mut doc, |_| Ok(()));
    assert_eq!(result, Err(Error::PathDoesntExist));
}

#[test]
fn values_are_removed() {
    let mut doc = value("{\"a\":1,\"b\":[1,2,3],\"c\":3}");
    assert!(remove(path(&["b", "0"]), &mut doc));
    assert_eq!(text_of(&doc), "{\"a\":1,\"b\":[2,3],\"c\":3}");
    assert!(!remove(path(&["b", "2"]), &mut doc));
    assert!(!remove(path(&["x"]), &mut doc));
    assert!(!remove(path(&["a", "x"]), &mut doc));
    assert!(!remove(path(&["x", "y"]), &mut doc));
    assert!(remove(path(&["a"]), &mut doc));
    assert_eq!(text_of(&doc), "{\"c\":3,\"b\":[2,3]}");
    assert_eq!(get_at(&path(&["a"]), &doc), None);
    assert_eq!(get_at(&path(&["c"]), &doc), Some(&value("3")));
}

#[test]
fn a_document_is_looked_up_once() {
    let mut first = stored("1");
    let mut second = stored("2");
    let mut holder = IValueKeyHolderWrite::new();
    assert!(holder.needs_value());
    assert_eq!(holder.get_value(), None);
    assert!(!holder.accepts_path(&path(&[])));
    holder.get_json_holder(None);
    assert!(holder.needs_value());
    holder.get_json_holder(Some(&mut first));
    assert!(!holder.needs_value());
    assert!(holder.accepts_path(&path(&[])));
    holder.get_json_holder(Some(&mut second));
    assert_eq!(holder.get_value(), Some(&mut value("1")));
}

#[test]
fn documents_are_read() {
    let doc = stored("[1]");
    assert_eq!(IValueKeyHolderRead { val: Some(&doc) }.get_value(), Some(&value("[1]")));
    assert_eq!(IValueKeyHolderRead { val: None }.get_value(), None);
}

#[test]
fn the_root_is_set() {
    let mut doc = stored("1");
    let mut holder = IValueKeyHolderWrite { val: Some(&mut doc) };
    assert!(matches!(holder.set_root(Some(value("2"))), KeyAction::Keep));
    assert_eq!(doc.data, value("2"));

    let mut holder = IValueKeyHolderWrite::new();
    match holder.set_root(Some(value("3"))) {
        KeyAction::Store(new) => assert_eq!(new.data, value("3")),
        _ => panic!("a missing document is stored"),
    }
    assert!(holder.needs_value());

    let mut holder = IValueKeyHolderWrite { val: Some(&mut doc) };
    assert!(matches!(holder.set_root(None), KeyAction::Delete));
    assert!(holder.needs_value());
    assert_eq!(doc.data, value("2"));
}

#[test]
fn a_key_is_deleted() {
    let mut doc = stored("1");
    let mut holder = IValueKeyHolderWrite { val: Some(&mut doc) };
    assert!(matches!(holder.delete(), KeyAction::Delete));
    assert!(!holder.needs_value());
}

#[test]
fn subscribers_are_told_or_not() {
    assert_eq!(IValueKeyHolderWrite::new().notify_keyspace_event(true), Ok(()));
    let refused = IValueKeyHolderWrite::new().notify_keyspace_event(false);
    assert_eq!(refused, Err(Error::NotifyFailed));
}

#[test]
fn values_are_set() {
    let mut doc = stored("{\"a\": {\"b\": 1}, \"c\": [1, 2]}");
    let mut holder = IValueKeyHolderWrite { val: Some(&mut doc) };
    assert!(matches!(
        holder.set_value(path(&["a", "b"]), value("[5]")),
        (true, KeyAction::Keep)
    ));
    assert!(matches!(holder.set_value(path(&["c", "1"]), value("6")), (true, KeyAction::Keep)));
    assert!(matches!(holder.set_value(path(&["c", "2"]), value("6")), (false, KeyAction::Keep)));
    assert!(matches!(holder.set_value(path(&["d"]), value("6")), (false, KeyAction::Keep)));
    assert_eq!(doc.data, value("{\"a\": {\"b\": [5]}, \"c\": [1, 6]}"));
    assert_eq!(get_at(&path(&["a", "b"]), &doc.data), Some(&value("[5]")));
    assert_eq!(get_at(&path(&["a", "b", "0"]), &doc.data), Some(&value("5")));

    let mut holder = IValueKeyHolderWrite { val: Some(&mut doc) };
    assert!(matches!(holder.set_value(path(&["a", "b"]), value("1")), (true, KeyAction::Keep)));
    assert!(matches!(holder.set_value(path(&["a", "b"]), value("2")), (true, KeyAction::Keep)));
    assert_eq!(get_at(&path(&["a", "b"]), &doc.data), Some(&value("2")));

    let mut holder = IValueKeyHolderWrite { val: Some(&mut doc) };
    assert!(matches!(holder.set_value(path(&[]), value("true")), (true, KeyAction::Keep)));
    assert_eq!(doc.data, value("true"));

    let mut holder = IValueKeyHolderWrite::new();
    match holder.set_value(path(&[]), value("7")) {
        (true, KeyAction::Store(mut new)) => {
            assert!(holder.needs_value());
            holder.get_json_holder(Some(&mut new));
            assert_eq!(holder.get_value(), Some(&mut value("7")));
        }
        _ => panic!("a missing document is stored"),
    }
}

#[test]
fn values_are_merged() {
    let mut doc = stored("{\"a\": {\"b\": 1, \"c\": 2}}");
    let mut holder = IValueKeyHolderWrite { val: Some(&mut doc) };
    assert!(holder.merge_value(path(&["a"]), value("{\"b\": null, \"d\": 3}")));
    assert!(!holder.merge_value(path(&["x"]), value("{\"b\": null}")));
    assert!(holder.merge_value(path(&[]), value("{\"e\": 4}")));
    assert_eq!(doc.data, value("{\"a\": {\"c\": 2, \"d\": 3}, \"e\": 4}"));
}

#[test]
fn members_are_added() {
    let mut doc = stored("{\"a\":{\"b\":1},\"c\":[]}");
    let mut holder = IValueKeyHolderWrite { val: Some(&mut doc) };
    assert_eq!(holder.dict_add(path(&["a"]), "d", value("2")), Ok(true));
    assert_eq!(holder.dict_add(path(&["a"]), "d", value("3")), Ok(false));
    assert_eq!(holder.dict_add(path(&["c"]), "d", value("3")), Ok(false));
    assert_eq!(holder.dict_add(path(&["x"]), "d", value("3")), Err(Error::PathDoesntExist));
    assert!(holder.delete_path(path(&["a", "d"])));
    assert_eq!(holder.dict_add(path(&[]), "e", value("4")), Ok(true));
    assert_eq!(text_of(&doc.data), "{\"a\":{\"b\":1},\"c\":[],\"e\":4}");
}

#[test]
fn paths_are_deleted() {
    let mut doc = stored("{\"a\": {\"b\": 1, \"c\": 2}, \"d\": [1, 2, 3]}");
    let mut holder = IValueKeyHolderWrite { val: Some(&mut doc) };
    assert!(holder.delete_path(path(&["a", "b"])));
    assert!(!holder.delete_path(path(&["a", "b"])));
    assert!(holder.delete_path(path(&["d", "1"])));
    assert!(!holder.delete_path(path(&["d", "2"])));
    assert_eq!(doc.data, value("{\"a\": {\"c\": 2}, \"d\": [1, 3]}"));
}

#[test]
fn integers_are_calculated_with() {
    let mut doc = stored("{\"n\": 7, \"max\": 9223372036854775807}");
    let mut holder = IValueKeyHolderWrite { val: Some(&mut doc) };
    assert_eq!(holder.incr_by(path(&["n"]), "3", sum), Ok(Number::Int(10)));
    assert_eq!(holder.incr_by(path(&["n"]), "-4", sum), Ok(Number::Int(6)));
    assert_eq!(holder.mult_by(path(&["n"]), "-2", product), Ok(Number::Int(-12)));
    assert_eq!(holder.pow_by(path(&["n"]), "2", power), Ok(Number::Int(144)));
    assert_eq!(holder.pow_by(path(&["n"]), "0", power), Ok(Number::Int(1)));
    assert_eq!(holder.incr_by(path(&["max"]), "1", sum), Ok(Number::Int(i64::MIN)));
    assert_eq!(holder.incr_by(path(&["max"]), "-1", sum), Ok(Number::Int(i64::MAX)));
    assert_eq!(holder.mult_by(path(&["max"]), "2", product), Ok(Number::Int(-2)));
    assert_eq!(holder.pow_by(path(&["max"]), "-1", power), Ok(Number::Int(0)));
    assert_eq!(doc.data, value("{\"n\": 1, \"max\": 0}"));
}

#[test]
fn doubles_are_calculated_with() {
    let mut doc = stored("{\"n\": 1.5, \"i\": 3, \"u\": 18446744073709551615}");
    let mut holder = IValueKeyHolderWrite { val: Some(&mut doc) };
    assert_eq!(holder.incr_by(path(&["n"]), "1", sum), Ok(double(2.5)));
    assert_eq!(holder.mult_by(path(&["n"]), "4", product), Ok(double(10.0)));
    assert_eq!(holder.pow_by(path(&["n"]), "2", power), Ok(double(100.0)));
    assert_eq!(holder.incr_by(path(&["i"]), "0.25", sum), Ok(double(3.25)));
    assert_eq!(holder.incr_by(path(&["u"]), "1", sum), Ok(double(18446744073709551616.0)));
    assert_eq!(get_at(&path(&["i"]), &doc.data), Some(&value("3.25")));
    assert_eq!(get_at(&path(&["n"]), &doc.data), Some(&value("100.0")));
}

#[test]
fn operands_beyond_64_bits_are_doubles() {
    let mut doc = stored("1");
    let mut holder = IValueKeyHolderWrite { val: Some(&mut doc) };
    assert_eq!(
        holder.mult_by(path(&[]), "9223372036854775808", product),
        Ok(double(9223372036854775808.0))
    );
}

#[test]
fn arithmetic_is_refused() {
    let mut doc = stored("{\"n\": 1e308, \"s\": \"x\"}");
    let mut holder = IValueKeyHolderWrite { val: Some(&mut doc) };
    assert_eq!(holder.mult_by(path(&["n"]), "100", product), Err(Error::NotANumber));
    assert_eq!(holder.incr_by(path(&["n"]), "\"1\"", sum), Err(Error::BadInputNumber));
    assert_eq!(holder.incr_by(path(&["n"]), "null", sum), Err(Error::BadInputNumber));
    assert!(matches!(holder.incr_by(path(&["n"]), "one", sum), Err(Error::Parse(_))));
    assert_eq!(holder.incr_by(path(&["x"]), "1", sum), Err(Error::PathDoesntExist));
    assert_eq!(holder.incr_by(path(&["s"]), "[]", sum), Err(Error::BadInputNumber));
    assert_eq!(holder.try_num_op(path(&["s"]), "1", NumOp::Incr, sum), None);
    assert_eq!(doc.data, value("{\"n\": 1e308, \"s\": \"x\"}"));
}

#[test]
fn arithmetic_is_tried() {
    let mut doc = stored("[5]");
    let mut holder = IValueKeyHolderWrite { val: Some(&mut doc) };
    let p = || path(&["0"]);
    assert_eq!(holder.try_num_op(p(), "2", NumOp::Incr, sum), Some(Ok(Number::Int(7))));
    assert_eq!(holder.try_num_op(p(), "2", NumOp::Mult, product), Some(Ok(Number::Int(14))));
    assert_eq!(holder.try_num_op(p(), "2", NumOp::Pow, power), Some(Ok(Number::Int(196))));
    assert_eq!(
        holder.try_num_op(p(), "true", NumOp::Incr, sum),
        Some(Err(Error::BadInputNumber))
    );
    assert_eq!(
        holder.try_num_op(path(&["1"]), "1", NumOp::Incr, sum),
        Some(Err(Error::PathDoesntExist))
    );
    assert_eq!(doc.data, value("[196]"));
}

#[test]
fn operands_are_refused_before_documents_are_missed() {
    let mut holder = IValueKeyHolderWrite::new();
    assert_eq!(holder.incr_by(path(&["n"]), "[1]", sum), Err(Error::BadInputNumber));
    assert_eq!(
        holder.try_num_op(path(&["n"]), "{}", NumOp::Pow, power),
        Some(Err(Error::BadInputNumber))
    );
    assert_eq!(holder.try_num_op(path(&["n"]), "1", NumOp::Pow, power), None);
    assert_eq!(
        holder.try_str_append(path(&["s"]), "1".to_string()),
        Some(Err(Error::WrongInput {
            expected: SelectValueType::String,
            text: "1".to_string()
        }))
    );
    assert_eq!(holder.try_str_append(path(&["s"]), "\"x\"".to_string()), None);

    let mut doc = stored("[[\"x\"]]");
    let mut holder = IValueKeyHolderWrite { val: Some(&mut doc) };
    assert_eq!(holder.try_str_append(path(&["0", "first"]), "\"x\"".to_string()), None);
    assert_eq!(holder.try_str_append(path(&["0", "0"]), "\"y\"".to_string()), Some(Ok(2)));
    assert_eq!(holder.try_num_op(path(&["0", "first"]), "1", NumOp::Incr, sum), None);
    assert_eq!(doc.data, value("[[\"xy\"]]"));
}

#[test]
fn operands_that_were_read_are_calculated_with() {
    let mut doc = stored("[5]");
    let mut holder = IValueKeyHolderWrite { val: Some(&mut doc) };
    let three = Input::Number { long: Some(3), double: 3.0f64.to_bits() };
    assert_eq!(
        holder.apply_num_op(path(&["0"]), three, NumOp::Mult, product),
        Ok(Number::Int(15))
    );
    let half = Input::Number { long: None, double: 0.5f64.to_bits() };
    assert_eq!(
        holder.apply_num_op(path(&["0"]), half, NumOp::Mult, product),
        Ok(double(7.5))
    );
    assert_eq!(
        holder.apply_num_op(path(&["0"]), Input::Array, NumOp::Mult, product),
        Err(Error::BadInputNumber)
    );
    assert_eq!(
        holder.do_num_op(path(&["0"]), "2", NumOp::Incr, sum),
        Ok(double(9.5))
    );
}

#[test]
fn booleans_are_toggled() {
    let mut doc = stored("{\"b\": false, \"n\": 1}");
    let mut holder = IValueKeyHolderWrite { val: Some(&mut doc) };
    assert_eq!(holder.bool_toggle(path(&["b"])), Ok(true));
    assert_eq!(holder.bool_toggle(path(&["b"])), Ok(false));
    assert_eq!(holder.bool_toggle(path(&["b"])), Ok(true));
    assert_eq!(holder.bool_toggle(path(&["x"])), Err(Error::PathDoesntExist));
    assert_eq!(
        holder.bool_toggle(path(&["n"])),
        Err(Error::WrongType {
            expected: SelectValueType::Bool,
            found: SelectValueType::Long
        })
    );
    assert_eq!(doc.data, value("{\"b\": true, \"n\": 1}"));
}

#[test]
fn strings_are_appended_to() {
    let mut doc = stored("{\"s\": \"foo\", \"n\": 1}");
    let mut holder = IValueKeyHolderWrite { val: Some(&mut doc) };
    assert_eq!(holder.str_append(path(&["s"]), "\"bar\"".to_string()), Ok(6));
    assert_eq!(holder.str_append(path(&["s"]), "\"\\u00e9\"".to_string()), Ok(8));
    assert_eq!(
        holder.str_append(path(&["s"]), "12".to_string()),
        Err(Error::WrongInput {
            expected: SelectValueType::String,
            text: "12".to_string()
        })
    );
    assert!(matches!(
        holder.str_append(path(&["s"]), "bar".to_string()),
        Err(Error::Parse(_))
    ));
    assert_eq!(
        holder.str_append(path(&["n"]), "\"x\"".to_string()),
        Err(Error::WrongType {
            expected: SelectValueType::String,
            found: SelectValueType::Long
        })
    );
    assert_eq!(
        holder.append_input(path(&["x"]), Input::String("x".to_string()), "\"x\"".to_string()),
        Err(Error::PathDoesntExist)
    );
    assert_eq!(
        holder.append_input(path(&["s"]), Input::Null, "null".to_string()),
        Err(Error::WrongInput {
            expected: SelectValueType::String,
            text: "null".to_string()
        })
    );
    assert_eq!(doc.data, value("{\"s\": \"foobar\u{e9}\", \"n\": 1}"));
}

#[test]
fn arrays_are_changed() {
    let mut doc = stored("{\"a\": [1, 2], \"n\": null}");
    let mut holder = IValueKeyHolderWrite { val: Some(&mut doc) };
    assert_eq!(holder.arr_append(path(&["a"]), &[value("3"), value("4")]), Ok(4));
    assert_eq!(holder.arr_insert(path(&["a"]), &[value("0")], 0), Ok(5));
    assert_eq!(holder.arr_insert(path(&["a"]), &[value("0")], 9), Err(Error::IndexOutOfBounds));
    assert_eq!(holder.arr_trim(path(&["a"]), 1, -2), Ok(3));
    let popped = holder.arr_pop(path(&["a"]), -1, |v| Ok(v.cloned()));
    assert_eq!(popped, Ok(Some(value("3"))));
    let found = Error::WrongType {
        expected: SelectValueType::Array,
        found: SelectValueType::Null,
    };
    assert_eq!(holder.arr_append(path(&["n"]), &[]), Err(found));
    assert_eq!(holder.arr_append(path(&["x"]), &[]), Err(Error::PathDoesntExist));
    assert_eq!(holder.arr_insert(path(&["x"]), &[], 0), Err(Error::PathDoesntExist));
    assert_eq!(holder.arr_trim(path(&["x"]), 0, 0), Err(Error::PathDoesntExist));
    assert_eq!(doc.data, value("{\"a\": [1, 2], \"n\": null}"));
}

#[test]
fn inserted_elements_take_the_room_that_they_need() {
    let mut doc = stored("[]");
    let mut holder = IValueKeyHolderWrite { val: Some(&mut doc) };
    let items = [value("1"), value("2"), value("3"), value("4"), value("5")];
    assert_eq!(holder.arr_insert(path(&[]), &items, 0), Ok(5));
    let manager = RedisIValueJsonKeyManager { phantom: PhantomData };
    assert_eq!(manager.get_memory(&doc.data), Ok(8 + 8 * 7 + 5 * 8));
}

#[test]
fn popped_elements_are_handed_on() {
    let mut doc = stored("[[1]]");
    let mut holder = IValueKeyHolderWrite { val: Some(&mut doc) };
    let seen = |v: Option<&IValue>| Ok(v.map(text_of));
    assert_eq!(holder.arr_pop(path(&["0"]), 0, seen), Ok(Some("1".to_string())));
    assert_eq!(holder.arr_pop(path(&["0"]), 0, seen), Ok(None));
    let refuse = |_: Option<&IValue>| -> Result<(), Error> { Err(Error::NotANumber) };
    assert_eq!(holder.arr_pop(path(&["0"]), 0, refuse), Err(Error::NotANumber));
    assert_eq!(holder.arr_pop(path(&["7"]), 0, seen), Err(Error::PathDoesntExist));
    assert_eq!(doc.data, value("[[]]"));
}

#[test]
fn values_are_cleared() {
    let mut doc = stored("{\"a\": [1], \"o\": {\"x\": 1}, \"n\": 2.5, \"s\": \"x\"}");
    let mut holder = IValueKeyHolderWrite { val: Some(&mut doc) };
    assert_eq!(holder.clear(path(&["a"])), Ok(1));
    assert_eq!(holder.clear(path(&["o"])), Ok(1));
    assert_eq!(holder.clear(path(&["n"])), Ok(1));
    assert_eq!(holder.clear(path(&["s"])), Ok(0));
    assert_eq!(holder.clear(path(&["x"])), Err(Error::PathDoesntExist));
    assert_eq!(doc.data, value("{\"a\": [], \"o\": {}, \"n\": 0, \"s\": \"x\"}"));
}

#[test]
fn an_operation_stays_at_its_path() {
    let text = "{\"a\": {\"x\": [1, 2], \"y\": true}, \"b\": [\"s\"]}";
    let mut doc = stored(text);
    let mut holder = IValueKeyHolderWrite { val: Some(&mut doc) };
    assert_eq!(holder.arr_append(path(&["a", "x"]), &[value("3")]), Ok(3));
    assert_eq!(get_at(&path(&["a", "x"]), &doc.data), Some(&value("[1, 2, 3]")));
    for other in [path(&["a", "y"]), path(&["b"]), path(&["b", "0"])] {
        assert_eq!(get_at(&other, &doc.data), get_at(&other, &value(text)));
    }
}

#[test]
fn errors_have_texts() {
    assert_eq!(Error::BadInputNumber.text(), Some("bad input number"));
    assert_eq!(Error::NotANumber.text(), Some("result is not a number"));
    assert_eq!(Error::IndexOutOfBounds.text(), Some("ERR index out of bounds"));
    assert_eq!(Error::NotifyFailed.text(), Some("failed notify key space event"));
    assert_eq!(Error::PathDoesntExist.text(), None);
}
