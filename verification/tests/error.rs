use rte::error::{Error, ReturnValue};

#[test]
fn check_int_result() {
    let ret = 1.rte_ok().unwrap();
    assert_eq!(ret, 1);

    let ret = (-1).rte_ok().unwrap_err();
    assert_eq!(ret, Error(1));
}

#[test]
fn zero_is_success() {
    assert_eq!(0.rte_ok().unwrap(), 0);
}

#[test]
fn counts_pass_through() {
    // a non-negative return may itself be a meaningful count
    assert_eq!(17.rte_ok().unwrap(), 17);
    assert_eq!(i32::MAX.rte_ok().unwrap(), i32::MAX);
}

#[test]
fn large_error_codes_negate() {
    let err = (-(i32::MAX)).rte_ok().unwrap_err();
    assert_eq!(err, Error(i32::MAX));
    assert_eq!(err.code(), i32::MAX);
}
