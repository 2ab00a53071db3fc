use calculator::eval::{press_equals, process_calculation, strip_formatted_exec};
use calculator::validator::try_append;

#[test]
fn addition() {
    assert_eq!(process_calculation("2+3"), "5");
}

#[test]
fn division() {
    assert_eq!(process_calculation("10/4"), "2.5");
}

#[test]
fn power() {
    assert_eq!(process_calculation("2^10"), "1024");
}

#[test]
fn remainder() {
    assert_eq!(process_calculation("7%2"), "1");
}

#[test]
fn division_by_zero_gives_infinity() {
    assert_eq!(process_calculation("5/0"), "inf");
    assert_eq!(process_calculation("-5/0"), "-inf");
}

#[test]
fn unrecognized_text_is_invalid() {
    assert_eq!(process_calculation("abc"), "Invalid");
    assert_eq!(process_calculation(""), "Invalid");
    assert_eq!(process_calculation("5+"), "Invalid");
    assert_eq!(process_calculation("5+-"), "Invalid");
}

#[test]
fn subtraction_and_multiplication() {
    assert_eq!(process_calculation("2-5"), "-3");
    assert_eq!(process_calculation("5x2"), "10");
    assert_eq!(process_calculation("2x-3"), "-6");
}

#[test]
fn unary_signs_in_operands() {
    assert_eq!(process_calculation("+5"), "5");
    assert_eq!(process_calculation("-2.5"), "-2.5");
    assert_eq!(process_calculation("5+-3"), "2");
    assert_eq!(process_calculation("-2x-3"), "6");
}

#[test]
fn remainder_sign_follows_dividend() {
    assert_eq!(process_calculation("-7%2"), "-1");
    assert_eq!(process_calculation("7%-2"), "1");
}

#[test]
fn fractional_results_keep_five_decimals_at_most() {
    // 10/3 = 3.3333... rounded to five decimal digits
    assert_eq!(process_calculation("10/3"), "3.33333");
    assert_eq!(process_calculation("1/8"), "0.125");
}

#[test]
fn single_number_round_trip() {
    let cases = ["42", "3.140000", "+5", "-2.5", "0.100000", "12."];
    let expected = ["42", "3.14", "5", "-2.5", "0.1", "Invalid"];
    for (input, want) in cases.iter().zip(expected.iter()) {
        assert_eq!(process_calculation(input), *want);
    }
    // the reformatted value is numerically equal to the input
    for input in ["42", "3.140000", "+5", "-2.5", "0.100000"] {
        let out = process_calculation(input);
        let a: f64 = input.parse().unwrap();
        let b: f64 = out.parse().unwrap();
        assert_eq!(a, b);
    }
}

#[test]
fn stripping_formatter_output() {
    let cases = [
        ("5.00000", "5"),
        ("2.50000", "2.5"),
        ("-0.00000", "-0"),
        ("3.33333", "3.33333"),
        ("inf", "inf"),
        ("NaN", "NaN"),
    ];
    for (input, want) in cases {
        let mut v: Vec<char> = input.chars().collect();
        strip_formatted_exec(&mut v);
        let got: String = v.iter().collect();
        assert_eq!(got, want);
    }
}

#[test]
fn equals_key_replaces_buffer() {
    let mut b: Vec<char> = "2+3".chars().collect();
    press_equals(&mut b);
    let text: String = b.iter().collect();
    assert_eq!(text, "5");
    // the result restarts the lifecycle: further input is validated
    assert!(try_append(&mut b, '+'));
    assert!(try_append(&mut b, '2'));
    press_equals(&mut b);
    let text: String = b.iter().collect();
    assert_eq!(text, "7");
}

#[test]
fn buffers_built_by_presses_evaluate() {
    let mut b: Vec<char> = Vec::new();
    for label in ['1', '0', '.', '5', 'x', '-', '2'] {
        assert!(try_append(&mut b, label));
    }
    let text: String = b.iter().collect();
    assert_eq!(text, "10.5x-2");
    press_equals(&mut b);
    let result: String = b.iter().collect();
    assert_eq!(result, "-21");
}
