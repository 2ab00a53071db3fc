//! The expression grammar, given as a character-level state machine.
//!
//! A buffer is well formed when it lies inside one of five progressive
//! stages on the way to a full `sign? digits (. digits)? operator sign?
//! digits (. digits)?` expression. Each stage is a set of states of one
//! deterministic automaton, so a single left-to-right scan decides them
//! all at once.

use vstd::prelude::*;

verus! {

/// A decimal digit `0`..`9`.
pub open spec fn is_digit_char(c: char) -> bool {
    '0' <= c && c <= '9'
}

/// One of the six operator keys: `+ - x / ^ %`.
pub open spec fn is_operator_char(c: char) -> bool {
    c == '+' || c == '-' || c == 'x' || c == '/' || c == '^' || c == '%'
}

/// A `+` or `-`, which can also act as a unary sign.
pub open spec fn is_sign_char(c: char) -> bool {
    c == '+' || c == '-'
}

/// A label a keypad can send into the buffer: a digit, an operator, or
/// the decimal point.
pub open spec fn is_keypad_label(c: char) -> bool {
    is_digit_char(c) || is_operator_char(c) || c == '.'
}

/// Whether `c` is one of the six operator characters.
pub fn is_operator(c: char) -> (r: bool)
    ensures
        r == is_operator_char(c),
{
    c == '+' || c == '-' || c == 'x' || c == '/' || c == '^' || c == '%'
}

/// Whether `c` can act as a unary sign.
pub fn is_unary_sign(c: char) -> (r: bool)
    ensures
        r == is_sign_char(c),
{
    c == '+' || c == '-'
}

/// Whether `c` is a decimal digit.
pub fn is_digit(c: char) -> (r: bool)
    ensures
        r == is_digit_char(c),
{
    '0' <= c && c <= '9'
}

/// A state of the expression automaton. The `A` states read the first
/// operand, the `B` states the second; `Empty`-suffixed states mark a
/// decimal point that was not preceded by a digit, which may still grow
/// into a partial number but never into a complete one.
#[derive(Clone, Copy, PartialEq, Eq, Structural, Debug)]
pub enum St {
    Start,
    LeadSign,
    IntA,
    DotAEmpty,
    FracAEmpty,
    DotA,
    FracA,
    AfterOp,
    SignB,
    IntB,
    DotBEmpty,
    FracBEmpty,
    DotB,
    FracB,
    Dead,
}

/// One transition of the automaton.
pub open spec fn step(st: St, c: char) -> St {
    match st {
        St::Start => if is_digit_char(c) {
            St::IntA
        } else if is_sign_char(c) {
            St::LeadSign
        } else if c == '.' {
            St::DotAEmpty
        } else {
            St::Dead
        },
        St::LeadSign => if is_digit_char(c) {
            St::IntA
        } else if c == '.' {
            St::DotAEmpty
        } else {
            St::Dead
        },
        St::IntA => if is_digit_char(c) {
            St::IntA
        } else if c == '.' {
            St::DotA
        } else if is_operator_char(c) {
            St::AfterOp
        } else {
            St::Dead
        },
        St::DotAEmpty => if is_digit_char(c) {
            St::FracAEmpty
        } else {
            St::Dead
        },
        St::FracAEmpty => if is_digit_char(c) {
            St::FracAEmpty
        } else {
            St::Dead
        },
        St::DotA => if is_digit_char(c) {
            St::FracA
        } else {
            St::Dead
        },
        St::FracA => if is_digit_char(c) {
            St::FracA
        } else if is_operator_char(c) {
            St::AfterOp
        } else {
            St::Dead
        },
        St::AfterOp => if is_digit_char(c) {
            St::IntB
        } else if is_sign_char(c) {
            St::SignB
        } else if c == '.' {
            St::DotBEmpty
        } else {
            St::Dead
        },
        St::SignB => if is_digit_char(c) {
            St::IntB
        } else if c == '.' {
            St::DotBEmpty
        } else {
            St::Dead
        },
        St::IntB => if is_digit_char(c) {
            St::IntB
        } else if c == '.' {
            St::DotB
        } else {
            St::Dead
        },
        St::DotBEmpty => if is_digit_char(c) {
            St::FracBEmpty
        } else {
            St::Dead
        },
        St::FracBEmpty => if is_digit_char(c) {
            St::FracBEmpty
        } else {
            St::Dead
        },
        St::DotB => if is_digit_char(c) {
            St::FracB
        } else {
            St::Dead
        },
        St::FracB => if is_digit_char(c) {
            St::FracB
        } else {
            St::Dead
        },
        St::Dead => St::Dead,
    }
}

/// The automaton run on `s` starting from `st`.
pub open spec fn run_from(st: St, s: Seq<char>) -> St
    decreases s.len(),
{
    if s.len() == 0 {
        st
    } else {
        step(run_from(st, s.drop_last()), s.last())
    }
}

/// The automaton run on `s` from the initial state.
pub open spec fn run(s: Seq<char>) -> St {
    run_from(St::Start, s)
}

/// Stage one: an optional sign and a partial first number.
pub open spec fn stage_one(s: Seq<char>) -> bool {
    matches!(run(s), St::Start | St::LeadSign | St::IntA | St::DotAEmpty | St::FracAEmpty
        | St::DotA | St::FracA)
}

/// Stage two: a complete number followed by an operator.
pub open spec fn stage_two(s: Seq<char>) -> bool {
    run(s) == St::AfterOp
}

/// Stage three: a complete number, an operator, and an optional sign.
pub open spec fn stage_three(s: Seq<char>) -> bool {
    run(s) == St::AfterOp || run(s) == St::SignB
}

/// Stage four: a complete number, an operator, an optional sign, and a
/// partial second number.
pub open spec fn stage_four(s: Seq<char>) -> bool {
    matches!(run(s), St::AfterOp | St::SignB | St::IntB | St::DotBEmpty | St::FracBEmpty
        | St::DotB | St::FracB)
}

/// Stage five: a full two-operand expression.
pub open spec fn full_expression(s: Seq<char>) -> bool {
    run(s) == St::IntB || run(s) == St::FracB
}

/// A single complete signed decimal number, with no operator.
pub open spec fn single_number(s: Seq<char>) -> bool {
    run(s) == St::IntA || run(s) == St::FracA
}

/// Whether `s` lies inside the grammar: empty, or in one of the stages.
pub open spec fn buffer_valid(s: Seq<char>) -> bool {
    run(s) != St::Dead
}

/// A buffer lies inside the grammar exactly when it is in one of the
/// five progressive stages.
pub proof fn lemma_stages_cover(s: Seq<char>)
    ensures
        buffer_valid(s) <==> (stage_one(s) || stage_two(s) || stage_three(s) || stage_four(s)
            || full_expression(s)),
{
}

/// States that read the second operand, or are stuck: once the scan has
/// passed the operator it never returns to the first operand.
pub open spec fn second_part(st: St) -> bool {
    matches!(st, St::AfterOp | St::SignB | St::IntB | St::DotBEmpty | St::FracBEmpty | St::DotB
        | St::FracB | St::Dead)
}

/// Running over a concatenation equals running over the parts in turn.
pub proof fn lemma_run_from_concat(st: St, a: Seq<char>, b: Seq<char>)
    ensures
        run_from(st, a + b) == run_from(run_from(st, a), b),
    decreases b.len(),
{
    if b.len() == 0 {
        assert(a + b =~= a);
    } else {
        lemma_run_from_concat(st, a, b.drop_last());
        assert((a + b).drop_last() =~= a + b.drop_last());
        assert((a + b).last() == b.last());
    }
}

/// The second-operand states are closed under any further input.
pub proof fn lemma_second_part_closed(st: St, t: Seq<char>)
    requires
        second_part(st),
    ensures
        second_part(run_from(st, t)),
    decreases t.len(),
{
    if t.len() > 0 {
        lemma_second_part_closed(st, t.drop_last());
    }
}

/// The first-operand state matching each live second-operand state.
pub open spec fn mirror(st: St) -> St {
    match st {
        St::AfterOp => St::Start,
        St::SignB => St::LeadSign,
        St::IntB => St::IntA,
        St::DotBEmpty => St::DotAEmpty,
        St::FracBEmpty => St::FracAEmpty,
        St::DotB => St::DotA,
        St::FracB => St::FracA,
        _ => St::Dead,
    }
}

/// A live run over the second operand mirrors a run from the start: in
/// particular, the text after the operator of a full expression is by
/// itself a single complete number.
pub proof fn lemma_mirror(t: Seq<char>)
    requires
        run_from(St::AfterOp, t) != St::Dead,
    ensures
        run(t) == mirror(run_from(St::AfterOp, t)),
    decreases t.len(),
{
    if t.len() > 0 {
        lemma_second_part_closed(St::AfterOp, t.drop_last());
        lemma_mirror(t.drop_last());
    }
}

/// The operator position: the character at `i` is an operator and the
/// text before it is a complete first operand.
pub open spec fn op_index_at(s: Seq<char>, i: int) -> bool {
    0 <= i < s.len() && is_operator_char(s[i]) && (run(s.take(i)) == St::IntA || run(s.take(i))
        == St::FracA)
}

proof fn lemma_after_op_second_part(s: Seq<char>, i: int, j: int)
    requires
        op_index_at(s, i),
        i < j <= s.len(),
    ensures
        second_part(run(s.take(j))),
{
    assert(s.take(i + 1).drop_last() =~= s.take(i));
    assert(s.take(i + 1).last() == s[i]);
    assert(s.take(j) =~= s.take(i + 1) + s.subrange(i + 1, j));
    lemma_run_from_concat(St::Start, s.take(i + 1), s.subrange(i + 1, j));
    lemma_second_part_closed(St::AfterOp, s.subrange(i + 1, j));
}

/// A character sequence has at most one operator position.
pub proof fn lemma_op_index_unique(s: Seq<char>, i: int, j: int)
    requires
        op_index_at(s, i),
        op_index_at(s, j),
    ensures
        i == j,
{
    if i < j {
        lemma_after_op_second_part(s, i, j);
    }
    if j < i {
        lemma_after_op_second_part(s, j, i);
    }
}

/// One exec transition, equal to the specification `step`.
pub fn step_char(st: St, c: char) -> (r: St)
    ensures
        r == step(st, c),
{
    let digit = is_digit(c);
    let sign = is_unary_sign(c);
    let op = is_operator(c);
    match st {
        St::Start => if digit {
            St::IntA
        } else if sign {
            St::LeadSign
        } else if c == '.' {
            St::DotAEmpty
        } else {
            St::Dead
        },
        St::LeadSign => if digit {
            St::IntA
        } else if c == '.' {
            St::DotAEmpty
        } else {
            St::Dead
        },
        St::IntA => if digit {
            St::IntA
        } else if c == '.' {
            St::DotA
        } else if op {
            St::AfterOp
        } else {
            St::Dead
        },
        St::DotAEmpty => if digit {
            St::FracAEmpty
        } else {
            St::Dead
        },
        St::FracAEmpty => if digit {
            St::FracAEmpty
        } else {
            St::Dead
        },
        St::DotA => if digit {
            St::FracA
        } else {
            St::Dead
        },
        St::FracA => if digit {
            St::FracA
        } else if op {
            St::AfterOp
        } else {
            St::Dead
        },
        St::AfterOp => if digit {
            St::IntB
        } else if sign {
            St::SignB
        } else if c == '.' {
            St::DotBEmpty
        } else {
            St::Dead
        },
        St::SignB => if digit {
            St::IntB
        } else if c == '.' {
            St::DotBEmpty
        } else {
            St::Dead
        },
        St::IntB => if digit {
            St::IntB
        } else if c == '.' {
            St::DotB
        } else {
            St::Dead
        },
        St::DotBEmpty => if digit {
            St::FracBEmpty
        } else {
            St::Dead
        },
        St::FracBEmpty => if digit {
            St::FracBEmpty
        } else {
            St::Dead
        },
        St::DotB => if digit {
            St::FracB
        } else {
            St::Dead
        },
        St::FracB => if digit {
            St::FracB
        } else {
            St::Dead
        },
        St::Dead => St::Dead,
    }
}

/// The automaton state a character sequence ends in.
pub fn scan_state(s: &Vec<char>) -> (st: St)
    ensures
        st == run(s@),
{
    let mut st = St::Start;
    let mut i: usize = 0;
    while i < s.len()
        invariant
            0 <= i <= s@.len(),
            st == run(s@.take(i as int)),
        decreases s@.len() - i,
    {
        proof {
            assert(s@.take(i + 1 as int).drop_last() =~= s@.take(i as int));
            assert(s@.take(i + 1 as int).last() == s@[i as int]);
        }
        st = step_char(st, s[i]);
        i = i + 1;
    }
    proof {
        assert(s@.take(s@.len() as int) =~= s@);
    }
    st
}

/// The final automaton state, together with the operator position when
/// the scan has entered the second operand.
pub fn scan_with_op(s: &Vec<char>) -> (r: (St, usize))
    ensures
        r.0 == run(s@),
        second_part(run(s@)) && run(s@) != St::Dead ==> op_index_at(s@, r.1 as int),
{
    let mut st = St::Start;
    let mut opidx: usize = 0;
    let mut i: usize = 0;
    while i < s.len()
        invariant
            0 <= i <= s@.len(),
            st == run(s@.take(i as int)),
            second_part(st) && st != St::Dead ==> opidx < i && op_index_at(s@, opidx as int),
        decreases s@.len() - i,
    {
        if (st == St::IntA || st == St::FracA) && is_operator(s[i]) {
            opidx = i;
        }
        proof {
            assert(s@.take(i + 1 as int).drop_last() =~= s@.take(i as int));
            assert(s@.take(i + 1 as int).last() == s@[i as int]);
        }
        st = step_char(st, s[i]);
        i = i + 1;
    }
    proof {
        assert(s@.take(s@.len() as int) =~= s@);
    }
    (st, opidx)
}

} // verus!
