use redis_json::index::{normalize_arr_start_index, parse_index};
use redis_json::number::{
    calculate_integers, exponent, wrapping_power, wrapping_product, wrapping_sum, NumOp,
};

#[test]
fn tokens_are_read_as_indices() {
    assert_eq!(parse_index("0"), Some(0));
    assert_eq!(parse_index("42"), Some(42));
    assert_eq!(parse_index("007"), Some(7));
    assert_eq!(parse_index("+7"), Some(7));
    assert_eq!(parse_index("18446744073709551615"), Some(usize::MAX));
    assert_eq!(parse_index("18446744073709551616"), None);
    assert_eq!(parse_index("99999999999999999999"), None);
    assert_eq!(parse_index(""), None);
    assert_eq!(parse_index("+"), None);
    assert_eq!(parse_index("-1"), None);
    assert_eq!(parse_index("++1"), None);
    assert_eq!(parse_index("1x"), None);
    assert_eq!(parse_index(" 1"), None);
    assert_eq!(parse_index("\u{661}"), None);
}

#[test]
fn tokens_are_read_as_the_standard_library_reads_them() {
    for token in ["0", "12", "+12", "-0", "-1", "+", "", "1 ", "0x1", "1_0", "00", "+00"] {
        assert_eq!(parse_index(token), token.parse::<usize>().ok());
    }
}

#[test]
fn relative_indices_are_resolved() {
    assert_eq!(normalize_arr_start_index(0, 5), 0);
    assert_eq!(normalize_arr_start_index(4, 5), 4);
    assert_eq!(normalize_arr_start_index(5, 5), 4);
    assert_eq!(normalize_arr_start_index(i64::MAX, 5), 4);
    assert_eq!(normalize_arr_start_index(-1, 5), 4);
    assert_eq!(normalize_arr_start_index(-5, 5), 0);
    assert_eq!(normalize_arr_start_index(-6, 5), 0);
    assert_eq!(normalize_arr_start_index(i64::MIN, 5), 0);
    assert_eq!(normalize_arr_start_index(3, 0), 0);
    assert_eq!(normalize_arr_start_index(-3, 0), 0);
}

#[test]
fn integers_wrap_around() {
    let samples = [0, 1, -1, 2, 7, -13, 1 << 32, i64::MAX, i64::MIN, 6_700_417, -(1 << 40)];
    for a in samples {
        for b in samples {
            assert_eq!(wrapping_sum(a, b), a.wrapping_add(b));
            assert_eq!(wrapping_product(a, b), a.wrapping_mul(b));
            assert_eq!(exponent(b), b as u32);
            assert_eq!(wrapping_power(a, b as u32), a.wrapping_pow(b as u32));
            assert_eq!(calculate_integers(NumOp::Incr, a, b), a.wrapping_add(b));
            assert_eq!(calculate_integers(NumOp::Mult, a, b), a.wrapping_mul(b));
            assert_eq!(calculate_integers(NumOp::Pow, a, b), a.wrapping_pow(b as u32));
            let sum = calculate_integers(NumOp::Incr, a, b);
            assert_eq!(calculate_integers(NumOp::Incr, sum, b.wrapping_neg()), a);
        }
        assert_eq!(calculate_integers(NumOp::Incr, a, 0), a);
        assert_eq!(calculate_integers(NumOp::Mult, a, 1), a);
        assert_eq!(calculate_integers(NumOp::Pow, a, 1), a);
        assert_eq!(calculate_integers(NumOp::Pow, a, 0), 1);
    }
    assert_eq!(wrapping_power(3, 4), 81);
    assert_eq!(wrapping_power(-2, 63), i64::MIN);
    assert_eq!(wrapping_power(2, 64), 0);
}
