//! The expression evaluator: a finished buffer is parsed against the
//! grammar, its one or two operands are handed to 64-bit float
//! arithmetic, and the result is formatted to at most five decimal
//! digits with trailing zeros removed. A buffer outside the grammar
//! evaluates to the literal `Invalid`.

use vstd::prelude::*;

use vstd::string::StringExecFns;
use crate::grammar::{
    St, single_number, full_expression, op_index_at, lemma_run_from_concat, lemma_mirror,
    lemma_op_index_unique, scan_with_op,
};
use crate::buffer::{string_to_chars, chars_to_string};

verus! {

/// The value of the single signed decimal number `a` under 64-bit float
/// parsing, formatted with five digits after the decimal point.
pub uninterp spec fn number_fmt(a: Seq<char>) -> Seq<char>;

/// The value of `a op b` under 64-bit float arithmetic, formatted with
/// five digits after the decimal point. `op` is one of `+ - * / % ^`,
/// where `%` is the remainder with the dividend's sign and `^` raises to
/// a power.
pub uninterp spec fn binary_fmt(a: Seq<char>, op: char, b: Seq<char>) -> Seq<char>;

/// What fixed-precision formatting guarantees of the wrappers' results:
/// any decimal point sits exactly six characters from the end, so there
/// is at most one, with exactly five digits after it.
pub open spec fn five_decimal_form(s: Seq<char>) -> bool {
    forall|i: int| 0 <= i < s.len() && s[i] == '.' ==> i + 6 == s.len()
}

/// The operator character handed to the arithmetic backend: the keypad's
/// `x` means multiplication, every other operator stands for itself.
pub open spec fn eval_op_char(c: char) -> char {
    if c == 'x' {
        '*'
    } else {
        c
    }
}

/// Exec mapping of a keypad operator to the backend operator.
fn map_operator(c: char) -> (r: char)
    ensures
        r == eval_op_char(c),
{
    if c == 'x' {
        '*'
    } else {
        c
    }
}

/// Relies on meval::eval_str: a single parenthesized signed decimal
/// number evaluates to its own 64-bit float value, which `{:.5}`
/// formatting renders with exactly five digits after the decimal point
/// (`inf` and `NaN` render without one).
#[verifier::external_body]
fn eval_single(a: &Vec<char>) -> (r: Vec<char>)
    requires
        single_number(a@),
    ensures
        r@ == number_fmt(a@),
        five_decimal_form(r@),
{
    let text: String = a.iter().collect();
    let v = meval::eval_str(format!("({})", text)).unwrap();
    format!("{:.5}", v).chars().collect()
}

/// Relies on meval::eval_str: `(a) op (b)` evaluates the two operands
/// with 64-bit float arithmetic (`%` keeps the dividend's sign, `^` is a
/// float power, division by zero gives an infinity), and `{:.5}`
/// formatting renders the value with exactly five digits after the
/// decimal point (`inf` and `NaN` render without one).
#[verifier::external_body]
fn eval_binary(a: &Vec<char>, op: char, b: &Vec<char>) -> (r: Vec<char>)
    requires
        single_number(a@),
        single_number(b@),
        op == '+' || op == '-' || op == '*' || op == '/' || op == '%' || op == '^',
    ensures
        r@ == binary_fmt(a@, op, b@),
        five_decimal_form(r@),
{
    let left: String = a.iter().collect();
    let right: String = b.iter().collect();
    let v = meval::eval_str(format!("({}){}({})", left, op, right)).unwrap();
    format!("{:.5}", v).chars().collect()
}

/// `s` with every trailing `0` removed.
pub open spec fn drop_trailing_zeros(s: Seq<char>) -> Seq<char>
    decreases s.len(),
{
    if s.len() > 0 && s.last() == '0' {
        drop_trailing_zeros(s.drop_last())
    } else {
        s
    }
}

/// A formatted value tidied for display: trailing zeros removed, then a
/// trailing decimal point removed if one remains.
pub open spec fn strip_formatted(s: Seq<char>) -> Seq<char> {
    let t = drop_trailing_zeros(s);
    if t.len() > 0 && t.last() == '.' {
        t.drop_last()
    } else {
        t
    }
}

/// At most five digits after any decimal point and, where a point
/// occurs, no trailing zero and no trailing point.
pub open spec fn tidy_decimal(s: Seq<char>) -> bool {
    forall|i: int|
        0 <= i < s.len() && s[i] == '.' ==> s.len() - i - 1 <= 5 && s.last() != '0' && s.last()
            != '.'
}

proof fn lemma_drop_zeros_prefix(s: Seq<char>)
    ensures
        drop_trailing_zeros(s).len() <= s.len(),
        drop_trailing_zeros(s) == s.take(drop_trailing_zeros(s).len() as int),
        drop_trailing_zeros(s).len() > 0 ==> drop_trailing_zeros(s).last() != '0',
    decreases s.len(),
{
    if s.len() > 0 && s.last() == '0' {
        lemma_drop_zeros_prefix(s.drop_last());
        assert(s.drop_last().take(drop_trailing_zeros(s).len() as int) =~= s.take(
            drop_trailing_zeros(s).len() as int,
        ));
    } else {
        assert(s.take(s.len() as int) =~= s);
    }
}

/// Tidying a value in five-decimal form leaves at most five decimal
/// digits and neither a trailing zero of the fraction nor a bare point.
pub proof fn lemma_strip_tidy(s: Seq<char>)
    requires
        five_decimal_form(s),
    ensures
        tidy_decimal(strip_formatted(s)),
{
    lemma_drop_zeros_prefix(s);
    let t = drop_trailing_zeros(s);
    let r = strip_formatted(s);
    assert forall|i: int|
        0 <= i < r.len() && r[i] == '.' implies r.len() - i - 1 <= 5 && r.last() != '0'
        && r.last() != '.' by {
        assert(r[i] == s[i]);
        if t.len() > 0 && t.last() == '.' {
            assert(s[t.len() - 1] == '.');
            assert(i + 6 == s.len() && t.len() - 1 + 6 == s.len());
        }
    };
}

/// The operator position of a full expression.
pub open spec fn op_split_index(s: Seq<char>) -> int {
    choose|i: int| op_index_at(s, i)
}

/// What evaluation returns: a single complete number is reformatted; a
/// full two-operand expression is split at its operator and computed;
/// anything else is the `Invalid` sentinel.
pub open spec fn eval_result(s: Seq<char>) -> Seq<char> {
    if single_number(s) {
        strip_formatted(number_fmt(s))
    } else if full_expression(s) {
        let i = op_split_index(s);
        strip_formatted(
            binary_fmt(s.take(i), eval_op_char(s[i]), s.subrange(i + 1, s.len() as int)),
        )
    } else {
        "Invalid"@
    }
}

/// Removes trailing zeros, then a trailing decimal point if one remains:
/// the display form of a fixed-precision formatter's output.
pub fn strip_formatted_exec(v: &mut Vec<char>)
    ensures
        final(v)@ == strip_formatted(old(v)@),
{
    while v.len() > 0 && v[v.len() - 1] == '0'
        invariant
            drop_trailing_zeros(v@) == drop_trailing_zeros(old(v)@),
        decreases v@.len(),
    {
        v.pop();
    }
    if v.len() > 0 && v[v.len() - 1] == '.' {
        v.pop();
    }
}

/// The characters of `v` from `from` (inclusive) to `to` (exclusive).
fn subvec(v: &Vec<char>, from: usize, to: usize) -> (r: Vec<char>)
    requires
        from <= to <= v@.len(),
    ensures
        r@ == v@.subrange(from as int, to as int),
{
    let mut r: Vec<char> = Vec::new();
    let mut i: usize = from;
    while i < to
        invariant
            from <= i <= to <= v@.len(),
            r@ == v@.subrange(from as int, i as int),
        decreases to - i,
    {
        r.push(v[i]);
        proof {
            assert(v@.subrange(from as int, i + 1 as int) =~= v@.subrange(
                from as int,
                i as int,
            ).push(v@[i as int]));
        }
        i = i + 1;
    }
    r
}

/// Evaluates a finished buffer: a single complete number comes back
/// reformatted to at most five decimal digits with no trailing zeros; a
/// full two-operand expression is computed and formatted the same way;
/// any other text yields the literal `Invalid`.
pub fn process_calculation(calc_str: &str) -> (r: String)
    ensures
        r@ == eval_result(calc_str@),
        single_number(calc_str@) || full_expression(calc_str@) ==> tidy_decimal(r@),
{
    let chars = string_to_chars(calc_str);
    let scan = scan_with_op(&chars);
    let st = scan.0;
    let opidx = scan.1;
    if st == St::IntA || st == St::FracA {
        let mut f = eval_single(&chars);
        proof {
            lemma_strip_tidy(f@);
        }
        strip_formatted_exec(&mut f);
        chars_to_string(&f)
    } else if st == St::IntB || st == St::FracB {
        proof {
            assert(op_index_at(chars@, opidx as int));
            assert(op_index_at(chars@, op_split_index(chars@))) by {
                assert(exists|i: int| op_index_at(chars@, i));
            }
            lemma_op_index_unique(chars@, opidx as int, op_split_index(chars@));
            assert(opidx < chars@.len());
        }
        let n = chars.len();
        proof {
            assert(opidx < n);
        }
        let left = subvec(&chars, 0, opidx);
        let right = subvec(&chars, opidx + 1, n);
        proof {
            assert(chars@.subrange(0, opidx as int) =~= chars@.take(opidx as int));
            assert(chars@ =~= chars@.take(opidx + 1 as int) + chars@.subrange(
                opidx + 1 as int,
                chars@.len() as int,
            ));
            lemma_run_from_concat(
                St::Start,
                chars@.take(opidx + 1 as int),
                chars@.subrange(opidx + 1 as int, chars@.len() as int),
            );
            assert(chars@.take(opidx + 1 as int).drop_last() =~= chars@.take(opidx as int));
            assert(chars@.take(opidx + 1 as int).last() == chars@[opidx as int]);
            lemma_mirror(right@);
        }
        let op = map_operator(chars[opidx]);
        let mut f = eval_binary(&left, op, &right);
        proof {
            lemma_strip_tidy(f@);
        }
        strip_formatted_exec(&mut f);
        chars_to_string(&f)
    } else {
        String::from_str("Invalid")
    }
}

/// The equals key: the buffer is replaced by the evaluation result,
/// restarting the lifecycle.
pub fn press_equals(buf: &mut Vec<char>)
    ensures
        final(buf)@ == eval_result(old(buf)@),
        single_number(old(buf)@) || full_expression(old(buf)@) ==> tidy_decimal(final(buf)@),
{
    let text = chars_to_string(buf);
    let result = process_calculation(text.as_str());
    *buf = string_to_chars(result.as_str());
}

} // verus!
