use calculator::buffer::{backspace, clear_buffer, enforce_length_limit};
use calculator::grammar::{is_operator, is_unary_sign};
use calculator::validator::try_append;

fn buf(s: &str) -> Vec<char> {
    s.chars().collect()
}

fn text(v: &Vec<char>) -> String {
    v.iter().collect()
}

#[test]
fn operator_classification() {
    for c in ['+', '-', 'x', '/', '^', '%'] {
        assert!(is_operator(c));
    }
    assert!(!is_operator('*'));
    assert!(!is_operator('5'));
    assert!(!is_operator('.'));
    assert!(is_unary_sign('+'));
    assert!(is_unary_sign('-'));
    assert!(!is_unary_sign('x'));
}

#[test]
fn digits_append_to_empty_buffer() {
    let mut b = buf("");
    assert!(try_append(&mut b, '5'));
    assert_eq!(text(&b), "5");
    assert!(try_append(&mut b, '7'));
    assert_eq!(text(&b), "57");
}

#[test]
fn unary_sign_then_operator_replacement() {
    // appends "5", "+", "-": the minus becomes a unary sign
    let mut b = buf("");
    assert!(try_append(&mut b, '5'));
    assert!(try_append(&mut b, '+'));
    assert!(try_append(&mut b, '-'));
    assert_eq!(text(&b), "5+-");
    // a further "+" replaces the trailing sign
    assert!(try_append(&mut b, '+'));
    assert_eq!(text(&b), "5++");
}

#[test]
fn non_sign_operator_rejected_after_unary_sign() {
    let mut b = buf("5+-");
    assert!(!try_append(&mut b, 'x'));
    assert_eq!(text(&b), "5+-");
}

#[test]
fn leading_sign_replacement() {
    let mut b = buf("");
    assert!(try_append(&mut b, '-'));
    assert_eq!(text(&b), "-");
    assert!(try_append(&mut b, '+'));
    assert_eq!(text(&b), "+");
    // a non-sign operator cannot replace a lone leading sign
    assert!(!try_append(&mut b, 'x'));
    assert_eq!(text(&b), "+");
}

#[test]
fn binary_operator_replacement() {
    let mut b = buf("5+");
    assert!(try_append(&mut b, 'x'));
    assert_eq!(text(&b), "5x");
    assert!(try_append(&mut b, '/'));
    assert_eq!(text(&b), "5/");
}

#[test]
fn decimal_point_becomes_zero_point() {
    let mut b = buf("");
    assert!(try_append(&mut b, '.'));
    assert_eq!(text(&b), "0.");
    let mut b = buf("5+");
    assert!(try_append(&mut b, '.'));
    assert_eq!(text(&b), "5+0.");
}

#[test]
fn decimal_point_after_digit_stays_a_point() {
    let mut b = buf("12");
    assert!(try_append(&mut b, '.'));
    assert_eq!(text(&b), "12.");
    // a second point in the same number is rejected
    assert!(try_append(&mut b, '5'));
    assert!(!try_append(&mut b, '.'));
    assert_eq!(text(&b), "12.5");
}

#[test]
fn zero_buffer_shortcut() {
    let mut b = buf("0");
    assert!(try_append(&mut b, '5'));
    assert_eq!(text(&b), "5");
    let mut b = buf("0");
    assert!(try_append(&mut b, '+'));
    assert_eq!(text(&b), "0+");
    let mut b = buf("0");
    assert!(try_append(&mut b, '.'));
    assert_eq!(text(&b), "0.");
}

#[test]
fn leading_zero_guard_replaces_zero() {
    let mut b = buf("5+0");
    assert!(try_append(&mut b, '7'));
    assert_eq!(text(&b), "5+7");
}

#[test]
fn rejection_leaves_buffer_identical() {
    let cases = [("5.", '.'), ("+", 'x'), ("5x2", 'x'), ("5+-", '/'), ("abc", '1')];
    for (start, label) in cases {
        let mut b = buf(start);
        let before = text(&b);
        assert!(!try_append(&mut b, label));
        assert_eq!(text(&b), before);
    }
}

#[test]
fn overflow_sentinel_rejects_edits() {
    let mut b = buf("Length Overflow");
    assert!(!try_append(&mut b, '1'));
    assert_eq!(text(&b), "Length Overflow");
}

#[test]
fn buffer_at_threshold_accepts_more_input() {
    // exactly 43 characters: the governor leaves it alone and a further
    // valid digit is still accepted
    let mut b = buf(&"1".repeat(43));
    enforce_length_limit(&mut b);
    assert_eq!(b.len(), 43);
    assert!(try_append(&mut b, '2'));
    assert_eq!(b.len(), 44);
    // one character past the threshold forces the sentinel
    enforce_length_limit(&mut b);
    assert_eq!(text(&b), "Length Overflow");
}

#[test]
fn clear_and_backspace() {
    let mut b = buf("5+2");
    backspace(&mut b);
    assert_eq!(text(&b), "5+");
    backspace(&mut b);
    backspace(&mut b);
    assert_eq!(text(&b), "");
    backspace(&mut b);
    assert_eq!(text(&b), "");
    let mut b = buf("12x3");
    clear_buffer(&mut b);
    assert_eq!(text(&b), "");
}
