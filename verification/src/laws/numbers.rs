//! What holds of arithmetic on the numbers of a document.
use ijson::IValue;
use vstd::arithmetic::div_mod::{lemma_mod_equivalence, lemma_small_mod};
use vstd::arithmetic::power::pow;
use vstd::prelude::*;

use crate::error::Error;
use crate::holder::{appendable, calculable, num_op_applied, num_op_done, walkable};
use crate::json::{is_long, lookup, path_fits, put, Json, Num};
use crate::number::{
    calculate_integers, exponent, exponent_of, integer_result, lemma_wrapped_low_bits, wrapped,
    wrapping_power, wrapping_product, wrapping_sum, NumOp, Number,
};
use crate::ops::{
    calculate, calculated, double_of, double_stored, number_of, optional_json, store_double,
    to_number,
};
use crate::text::{parsed_input, Input, InputView};
use crate::values::{json, nearest_double};

verus! {

// ---------------------------------------------------------------------------------------------
// Integers

/// Whether `r` is the integer of 64 bits with a sign that differs from `exact` by a multiple of
/// 2^64. There is only one.
pub open spec fn congruent(r: int, exact: int) -> bool {
    &&& -0x8000_0000_0000_0000 <= r <= 0x7fff_ffff_ffff_ffff
    &&& (r - exact) % 0x1_0000_0000_0000_0000 == 0
}

proof fn lemma_wrapped_congruent(exact: int)
    ensures
        congruent(wrapped(exact), exact),
{
    lemma_wrapped_low_bits(exact);
    lemma_mod_equivalence(wrapped(exact), exact, 0x1_0000_0000_0000_0000);
}

proof fn lemma_exponent(b: int, e: nat)
    requires
        e < 0x1_0000_0000,
        (b - e) % 0x1_0000_0000 == 0,
    ensures
        exponent_of(b) == e,
{
    lemma_mod_equivalence(b, e as int, 0x1_0000_0000);
    lemma_small_mod(e, 0x1_0000_0000);
}

/// Integer arithmetic gives the sum, the product or the power, but for a multiple of 2^64; what it
/// gives fits 64 bits with a sign. The exponent of a power is the operand, but for a multiple of
/// 2^32.
pub proof fn law_integer_arithmetic(a: int, b: int, e: nat)
    requires
        e < 0x1_0000_0000,
        (b - e) % 0x1_0000_0000 == 0,
    ensures
        -0x8000_0000_0000_0000 <= integer_result(NumOp::Incr, a, b) <= 0x7fff_ffff_ffff_ffff,
        -0x8000_0000_0000_0000 <= integer_result(NumOp::Mult, a, b) <= 0x7fff_ffff_ffff_ffff,
        -0x8000_0000_0000_0000 <= integer_result(NumOp::Pow, a, b) <= 0x7fff_ffff_ffff_ffff,
        (integer_result(NumOp::Incr, a, b) - (a + b)) % 0x1_0000_0000_0000_0000 == 0,
        (integer_result(NumOp::Mult, a, b) - a * b) % 0x1_0000_0000_0000_0000 == 0,
        (integer_result(NumOp::Pow, a, b) - pow(a, e)) % 0x1_0000_0000_0000_0000 == 0,
{
    lemma_wrapped_congruent(a + b);
    lemma_wrapped_congruent(a * b);
    lemma_exponent(b, e);
    lemma_wrapped_congruent(pow(a, e));
}

/// Calls of the integer functions give what the arithmetic gives.
pub proof fn law_integer_calls(op: NumOp, a: i64, b: i64, e: u32, r: i64)
    ensures
        call_ensures(wrapping_sum, (a, b), r) ==> (r - (a + b)) % 0x1_0000_0000_0000_0000 == 0,
        call_ensures(wrapping_product, (a, b), r) ==> (r - a * b) % 0x1_0000_0000_0000_0000 == 0,
        call_ensures(wrapping_power, (a, e), r) ==> (r - pow(a as int, e as nat))
            % 0x1_0000_0000_0000_0000 == 0,
        call_ensures(exponent, (b,), e) ==> (b - e) % 0x1_0000_0000 == 0,
        call_ensures(calculate_integers, (op, a, b), r) ==> r == integer_result(
            op,
            a as int,
            b as int,
        ),
{
    lemma_wrapped_congruent(a + b);
    lemma_wrapped_congruent(a * b);
    lemma_wrapped_congruent(pow(a as int, e as nat));
    if call_ensures(exponent, (b,), e) {
        lemma_small_mod(e as nat, 0x1_0000_0000);
        lemma_mod_equivalence(b as int, e as int, 0x1_0000_0000);
    }
}

// ---------------------------------------------------------------------------------------------
// Numbers of a document

/// A stored double enters the double arithmetic as it is, whatever its bits, and a stored integer
/// as the double that it converts to.
pub proof fn law_double_operand(i: int, bits: u64)
    ensures
        double_of(Num::Double(bits)) == bits,
        double_of(Num::Integer(i)) == nearest_double(i),
{
}

/// A double is returned with its own bits, an integer as itself where 64 bits with a sign can hold
/// it; nothing else is returned as a number.
pub proof fn law_returned_number(j: Json)
    ensures
        j matches Json::Number(Num::Double(bits)) ==> number_of(j) == Some(Number::Double(bits)),
        j matches Json::Number(Num::Integer(i)) ==> match number_of(j) {
            Some(Number::Int(n)) => n == i,
            Some(Number::Double(_)) => false,
            None => i < -0x8000_0000_0000_0000 || i > 0x7fff_ffff_ffff_ffff,
        },
        !(j is Number) ==> number_of(j) is None,
{
}

/// The result of double arithmetic takes the place of the number and is returned. Without one,
/// nothing changes and there is an error.
pub proof fn law_stored_double(t: Json, bits: u64)
    ensures
        double_stored(t, Some(Json::Number(Num::Double(bits)))) == (
            Json::Number(Num::Double(bits)),
            Ok::<Number, Error>(Number::Double(bits)),
        ),
        double_stored(t, None) == (t, Err::<Number, Error>(Error::NotANumber)),
{
}

/// Whatever takes the place of the number is what is returned; it is an error where it cannot be.
pub proof fn law_stored_result(t: Json, x: Json)
    ensures
        double_stored(t, Some(x)).0 == x,
        match number_of(x) {
            Some(n) => double_stored(t, Some(x)).1 == Ok::<Number, Error>(n),
            None => double_stored(t, Some(x)).1 == Err::<Number, Error>(Error::NotANumber),
        },
{
}

/// Calls of `to_number` and `store_double` do so.
pub proof fn law_number_calls(t: Json, x: &IValue, n: Option<Number>, result: Option<IValue>)
    ensures
        call_ensures(to_number, (x,), n) ==> n == number_of(json(*x)),
        forall|v: &mut IValue, r: Result<Number, Error>| #[trigger]
            call_ensures(store_double, (v, result), r) && json(*v) == t ==> match result {
                Some(new) => {
                    &&& json(*final(v)) == json(new)
                    &&& r == double_stored(t, Some(json(new))).1
                },
                None => json(*final(v)) == t && r == Err::<Number, Error>(Error::NotANumber),
            },
{
}

/// Whether the double arithmetic `op2_fun` was called on `first` and `second` and its result came
/// to take the place of `t` as `after`, and to be returned as `r`.
pub open spec fn double_result<F2>(
    op2_fun: F2,
    first: u64,
    second: u64,
    t: Json,
    after: Json,
    r: Result<Number, Error>,
) -> bool where F2: FnOnce(u64, u64) -> Option<IValue> {
    exists|res: Option<IValue>|
        {
            &&& #[trigger] call_ensures(op2_fun, (first, second), res)
            &&& match res {
                Some(x) => after == json(x) && match number_of(json(x)) {
                    Some(n) => r == Ok::<Number, Error>(n),
                    None => r == Err::<Number, Error>(Error::NotANumber),
                },
                None => after == t && r == Err::<Number, Error>(Error::NotANumber),
            }
        }
}

/// A call of `calculate` on an integer, with an operand that is an integer, does integer
/// arithmetic.
pub proof fn law_calculate_on_integers<F2>(
    op: NumOp,
    op2_fun: F2,
    i: int,
    b: i64,
    double: u64,
) where F2: FnOnce(u64, u64) -> Option<IValue>
    requires
        -0x8000_0000_0000_0000 <= i <= 0x7fff_ffff_ffff_ffff,
    ensures
        forall|v: &mut IValue, r: Result<Number, Error>| #[trigger]
            call_ensures(calculate::<F2>, (v, Some(b), double, op, op2_fun), r) && json(*v)
                == Json::Number(Num::Integer(i)) ==> {
                &&& json(*final(v)) == Json::Number(
                    Num::Integer(integer_result(op, i, b as int)),
                )
                &&& r matches Ok(Number::Int(n))
                &&& n == integer_result(op, i, b as int)
            },
{
    lemma_wrapped_congruent(i + b);
    lemma_wrapped_congruent(i * b);
    lemma_wrapped_congruent(pow(i, exponent_of(b as int)));
}

/// A call of `calculate` on a double calls the double arithmetic on the double itself, with or
/// without its sign, and on the operand, in this order.
pub proof fn law_calculate_on_a_double<F2>(
    op: NumOp,
    op2_fun: F2,
    bits: u64,
    long: Option<i64>,
    double: u64,
) where F2: FnOnce(u64, u64) -> Option<IValue>
    ensures
        forall|v: &mut IValue, r: Result<Number, Error>| #[trigger]
            call_ensures(calculate::<F2>, (v, long, double, op, op2_fun), r) && json(*v)
                == Json::Number(Num::Double(bits)) ==> double_result(
                op2_fun,
                bits,
                double,
                Json::Number(Num::Double(bits)),
                json(*final(v)),
                r,
            ),
{
    assert forall|v: &mut IValue, r: Result<Number, Error>| #[trigger]
        call_ensures(calculate::<F2>, (v, long, double, op, op2_fun), r) && json(*v)
            == Json::Number(Num::Double(bits)) implies double_result(
        op2_fun,
        bits,
        double,
        Json::Number(Num::Double(bits)),
        json(*final(v)),
        r,
    ) by {
        lemma_calculated_double(
            op,
            op2_fun,
            long,
            double,
            Num::Double(bits),
            json(*final(v)),
            r,
        );
    }
}

/// A call of `calculate` on an integer calls the double arithmetic where the operand is no integer
/// of 64 bits or the number is none: on the double that the number converts to and on the operand,
/// in this order.
pub proof fn law_calculate_on_an_integer_as_double<F2>(
    op: NumOp,
    op2_fun: F2,
    i: int,
    long: Option<i64>,
    double: u64,
) where F2: FnOnce(u64, u64) -> Option<IValue>
    requires
        long is None || i < -0x8000_0000_0000_0000 || i > 0x7fff_ffff_ffff_ffff,
    ensures
        forall|v: &mut IValue, r: Result<Number, Error>| #[trigger]
            call_ensures(calculate::<F2>, (v, long, double, op, op2_fun), r) && json(*v)
                == Json::Number(Num::Integer(i)) ==> double_result(
                op2_fun,
                nearest_double(i),
                double,
                Json::Number(Num::Integer(i)),
                json(*final(v)),
                r,
            ),
{
    assert forall|v: &mut IValue, r: Result<Number, Error>| #[trigger]
        call_ensures(calculate::<F2>, (v, long, double, op, op2_fun), r) && json(*v)
            == Json::Number(Num::Integer(i)) implies double_result(
        op2_fun,
        nearest_double(i),
        double,
        Json::Number(Num::Integer(i)),
        json(*final(v)),
        r,
    ) by {
        lemma_calculated_double(
            op,
            op2_fun,
            long,
            double,
            Num::Integer(i),
            json(*final(v)),
            r,
        );
    }
}

proof fn lemma_calculated_double<F2>(
    op: NumOp,
    op2_fun: F2,
    long: Option<i64>,
    double: u64,
    t: Num,
    after: Json,
    r: Result<Number, Error>,
) where F2: FnOnce(u64, u64) -> Option<IValue>
    requires
        calculated(op, op2_fun, long, double, t, after, r),
        t matches Num::Integer(i) ==> long is None || !is_long(i),
    ensures
        double_result(op2_fun, double_of(t), double, Json::Number(t), after, r),
{
    let res = choose|res: Option<IValue>|
        {
            &&& #[trigger] call_ensures(op2_fun, (double_of(t), double), res)
            &&& (after, r) == double_stored(Json::Number(t), optional_json(res))
        };
    assert(call_ensures(op2_fun, (double_of(t), double), res));
}

/// Where the double arithmetic gives one double for the stored number and the operand, a call of
/// `calculate` leaves and returns that double, and where it gives nothing, the number stays.
pub proof fn law_calculate_with_known_arithmetic<F2>(
    op: NumOp,
    op2_fun: F2,
    t: Num,
    bits: u64,
    double: u64,
    out: Option<u64>,
) where F2: FnOnce(u64, u64) -> Option<IValue>
    requires
        t matches Num::Double(b) ==> b == bits,
        t matches Num::Integer(i) ==> nearest_double(i) == bits,
        forall|res: Option<IValue>| #[trigger]
            call_ensures(op2_fun, (bits, double), res) ==> match (res, out) {
                (Some(x), Some(d)) => json(x) == Json::Number(Num::Double(d)),
                (None, None) => true,
                _ => false,
            },
    ensures
        forall|v: &mut IValue, r: Result<Number, Error>| #[trigger]
            call_ensures(calculate::<F2>, (v, None, double, op, op2_fun), r) && json(*v)
                == Json::Number(t) ==> match out {
                Some(d) => {
                    &&& json(*final(v)) == Json::Number(Num::Double(d))
                    &&& r == Ok::<Number, Error>(Number::Double(d))
                },
                None => {
                    &&& json(*final(v)) == Json::Number(t)
                    &&& r == Err::<Number, Error>(Error::NotANumber)
                },
            },
{
    assert forall|v: &mut IValue, r: Result<Number, Error>| #[trigger]
        call_ensures(calculate::<F2>, (v, None, double, op, op2_fun), r) && json(*v)
            == Json::Number(t) implies match out {
        Some(d) => {
            &&& json(*final(v)) == Json::Number(Num::Double(d))
            &&& r == Ok::<Number, Error>(Number::Double(d))
        },
        None => {
            &&& json(*final(v)) == Json::Number(t)
            &&& r == Err::<Number, Error>(Error::NotANumber)
        },
    } by {
        lemma_calculated_double(op, op2_fun, None, double, t, json(*final(v)), r);
        assert(double_result(op2_fun, bits, double, Json::Number(t), json(*final(v)), r));
    }
}

// ---------------------------------------------------------------------------------------------
// Arithmetic at a path

/// Arithmetic on an integer at a path, with an operand that is an integer, leaves and returns the
/// result of integer arithmetic.
pub proof fn law_integers_at_a_path<F2>(
    op: NumOp,
    op2_fun: F2,
    doc: Json,
    path: Seq<Seq<char>>,
    i: int,
    b: i64,
    double: u64,
    after: Option<Json>,
    r: Result<Number, Error>,
) where F2: FnOnce(u64, u64) -> Option<IValue>
    requires
        num_op_applied(
            op,
            op2_fun,
            InputView::Number { long: Some(b), double },
            Some(doc),
            path,
            after,
            r,
        ),
        lookup(doc, path) == Some(Json::Number(Num::Integer(i))),
        -0x8000_0000_0000_0000 <= i <= 0x7fff_ffff_ffff_ffff,
    ensures
        after == Some(
            put(doc, path, Json::Number(Num::Integer(integer_result(op, i, b as int)))),
        ),
        r matches Ok(Number::Int(n)) && n == integer_result(op, i, b as int),
{
    lemma_wrapped_congruent(i + b);
    lemma_wrapped_congruent(i * b);
    lemma_wrapped_congruent(pow(i, exponent_of(b as int)));
}

/// Any other arithmetic at a path is double arithmetic: on the stored double itself, or on the
/// double that the stored integer converts to, and on the operand, in this order.
pub proof fn law_doubles_at_a_path<F2>(
    op: NumOp,
    op2_fun: F2,
    doc: Json,
    path: Seq<Seq<char>>,
    long: Option<i64>,
    double: u64,
    after: Option<Json>,
    r: Result<Number, Error>,
) where F2: FnOnce(u64, u64) -> Option<IValue>
    requires
        num_op_applied(
            op,
            op2_fun,
            InputView::Number { long, double },
            Some(doc),
            path,
            after,
            r,
        ),
        lookup(doc, path) matches Some(Json::Number(n)) && (n matches Num::Integer(i) ==> (long
            is None || i < -0x8000_0000_0000_0000 || i > 0x7fff_ffff_ffff_ffff)),
    ensures
        ({
            let t = lookup(doc, path)->0;
            exists|x: Json|
                {
                    &&& after == Some(#[trigger] put(doc, path, x))
                    &&& t matches Json::Number(Num::Double(bits)) ==> double_result(
                        op2_fun,
                        bits,
                        double,
                        t,
                        x,
                        r,
                    )
                    &&& t matches Json::Number(Num::Integer(i)) ==> double_result(
                        op2_fun,
                        nearest_double(i),
                        double,
                        t,
                        x,
                        r,
                    )
                }
        }),
{
    let t = lookup(doc, path)->0;
    let res = choose|res: Option<IValue>|
        {
            &&& #[trigger] call_ensures(op2_fun, (double_of(t->Number_0), double), res)
            &&& after == Some(put(doc, path, double_stored(t, optional_json(res)).0))
            &&& r == double_stored(t, optional_json(res)).1
        };
    let x = double_stored(t, optional_json(res)).0;
    assert(after == Some(put(doc, path, x)));
    assert(call_ensures(op2_fun, (double_of(t->Number_0), double), res));
    assert(double_result(op2_fun, double_of(t->Number_0), double, t, x, r));
}

/// An operand that is no number is refused, and so is a path where nothing is; neither changes
/// anything.
pub proof fn law_refused_arithmetic<F2>(
    op: NumOp,
    op2_fun: F2,
    operand: InputView,
    doc: Option<Json>,
    path: Seq<Seq<char>>,
    after: Option<Json>,
    r: Result<Number, Error>,
) where F2: FnOnce(u64, u64) -> Option<IValue>
    requires
        num_op_applied(op, op2_fun, operand, doc, path, after, r),
    ensures
        !(operand is Number) ==> after == doc && r == Err::<Number, Error>(Error::BadInputNumber),
        operand is Number && doc is Some && lookup(doc->0, path) is None ==> after == doc && r
            == Err::<Number, Error>(Error::PathDoesntExist),
{
}

/// The operand is what the text is read as; a text that cannot be read changes nothing.
pub proof fn law_operand_is_read<F2>(
    op: NumOp,
    op2_fun: F2,
    num: Seq<char>,
    doc: Option<Json>,
    path: Seq<Seq<char>>,
    after: Option<Json>,
    r: Result<Number, Error>,
) where F2: FnOnce(u64, u64) -> Option<IValue>
    requires
        num_op_done(op, op2_fun, num, doc, path, after, r),
    ensures
        parsed_input(num) matches Ok(operand) ==> num_op_applied(
            op,
            op2_fun,
            operand,
            doc,
            path,
            after,
            r,
        ),
        parsed_input(num) matches Err(e) ==> after == doc && (r matches Err(Error::Parse(text))
            && text@ == e),
{
}

/// An operand stands for the JSON that it is.
pub proof fn law_operand_view(b: bool, long: Option<i64>, double: u64, s: String)
    ensures
        Input::Null@ is Null,
        Input::Bool(b)@ == InputView::Bool(b),
        (Input::Number { long, double })@ == (InputView::Number { long, double }),
        Input::String(s)@ == InputView::String(s@),
        Input::Array@ is Array,
        Input::Object@ is Object,
{
}

/// What a text is worked with needs: a number needs a path that can be walked to a number or to
/// nothing, a string one that can be walked; anything else is refused, and needs nothing.
pub proof fn law_what_is_needed(doc: Json, path: Seq<Seq<char>>, input: InputView)
    ensures
        walkable(Some(doc), path) <==> path_fits(doc, path),
        !walkable(None, path),
        calculable(Some(doc), path, input) <==> (input is Number ==> path_fits(doc, path) && (
        lookup(doc, path) is None || lookup(doc, path)->0 is Number)),
        calculable(None, path, input) <==> !(input is Number),
        appendable(Some(doc), path, input) <==> (input is String ==> path_fits(doc, path)),
        appendable(None, path, input) <==> !(input is String),
{
}

}
