//! The input validator: given the current buffer and a keypad label, it
//! appends, replaces the trailing character, or rejects, so that every
//! buffer built from the empty one by accepted presses stays inside the
//! expression grammar.

use vstd::prelude::*;

use crate::grammar::{
    is_digit_char, is_operator_char, is_sign_char, is_keypad_label, is_digit, is_operator,
    is_unary_sign, St, step, run, buffer_valid, stage_one, stage_two, stage_three, stage_four,
    full_expression, lemma_stages_cover, scan_state,
};

verus! {

/// An operator immediately followed by a zero and another digit begins a
/// multi-digit number with a redundant leading zero, which the validator
/// refuses to build.
pub open spec fn pattern_at(s: Seq<char>, i: int) -> bool {
    0 <= i && i + 2 < s.len() && is_operator_char(s[i]) && s[i + 1] == '0' && is_digit_char(
        s[i + 2],
    )
}

/// Whether the leading-zero pattern occurs anywhere in `s`.
pub open spec fn has_leading_zero_pattern(s: Seq<char>) -> bool {
    exists|i: int| pattern_at(s, i)
}

/// The characters a label press tries to add: a `.` that does not follow
/// a digit becomes `0.`, every other label stands for itself.
pub open spec fn effective_label(b: Seq<char>, label: char) -> Seq<char> {
    if label == '.' && !(b.len() > 0 && is_digit_char(b.last())) {
        seq!['0', '.']
    } else {
        seq![label]
    }
}

/// What one press does to the buffer: `Some(new)` when the press is
/// accepted and the buffer becomes `new`, `None` when it is rejected and
/// the buffer stays as it is. The rules, in order: the `0.` substitution,
/// the shortcut on a buffer holding exactly `0`, operator replacement
/// with its unary-sign exceptions, the leading-zero guard, and the
/// generic grammar check on the tentative buffer.
pub open spec fn append_outcome(b: Seq<char>, label: char) -> Option<Seq<char>> {
    let eff = effective_label(b, label);
    if b == seq!['0'] {
        if is_operator_char(label) || label == '.' {
            Some(b.push(label))
        } else {
            Some(seq![label])
        }
    } else if is_operator_char(label) && b.len() >= 1 && is_operator_char(b.last()) {
        if b.len() == 1 && is_sign_char(b.last()) {
            // a lone leading unary sign: only another sign may replace it
            if is_sign_char(label) {
                Some(b.drop_last().push(label))
            } else {
                None
            }
        } else if b.len() >= 2 && is_operator_char(b[b.len() - 2]) && is_sign_char(b.last()) {
            // a unary sign after a binary operator: only a sign may replace it
            if is_sign_char(label) {
                Some(b.drop_last().push(label))
            } else {
                None
            }
        } else if is_sign_char(label) {
            // a sign after an active binary operator is appended as unary
            Some(b.push(label))
        } else {
            // a new binary operator replaces the active one
            Some(b.drop_last().push(label))
        }
    } else {
        let temp = b + eff;
        if has_leading_zero_pattern(temp) {
            // the guard replaces the buffer's last character instead
            Some(b.drop_last() + eff)
        } else if run(temp) != St::Dead {
            Some(temp)
        } else {
            None
        }
    }
}

/// A buffer the validator maintains: inside the grammar and free of the
/// leading-zero pattern.
pub open spec fn well_formed(s: Seq<char>) -> bool {
    buffer_valid(s) && !has_leading_zero_pattern(s)
}

/// The empty buffer is well formed.
pub proof fn lemma_empty_well_formed()
    ensures
        well_formed(Seq::<char>::empty()),
{
    assert forall|i: int| !pattern_at(Seq::<char>::empty(), i) by {};
}

/// Dropping the last character cannot create the leading-zero pattern.
proof fn lemma_pattern_drop_last(s: Seq<char>)
    requires
        !has_leading_zero_pattern(s),
        s.len() > 0,
    ensures
        !has_leading_zero_pattern(s.drop_last()),
{
    assert forall|i: int| !pattern_at(s.drop_last(), i) by {
        if pattern_at(s.drop_last(), i) {
            assert(pattern_at(s, i));
        }
    };
}

/// Pushing `c` creates the leading-zero pattern exactly when it was
/// already there, or when `c` is a digit completing an `operator 0 c` run.
proof fn lemma_pattern_push(s: Seq<char>, c: char)
    ensures
        has_leading_zero_pattern(s.push(c)) <==> (has_leading_zero_pattern(s) || (s.len() >= 2
            && is_operator_char(s[s.len() - 2]) && s[s.len() - 1] == '0' && is_digit_char(c))),
{
    let t = s.push(c);
    if has_leading_zero_pattern(t) {
        let i = choose|i: int| pattern_at(t, i);
        if i + 2 < s.len() {
            assert(pattern_at(s, i));
        } else {
            assert(i + 2 == s.len());
        }
    }
    if has_leading_zero_pattern(s) {
        let i = choose|i: int| pattern_at(s, i);
        assert(pattern_at(t, i));
    }
    if s.len() >= 2 && is_operator_char(s[s.len() - 2]) && s[s.len() - 1] == '0' && is_digit_char(
        c,
    ) {
        assert(pattern_at(t, s.len() - 2));
    }
}

/// Pushing one character steps the automaton once.
proof fn lemma_run_push(s: Seq<char>, c: char)
    ensures
        run(s.push(c)) == step(run(s), c),
{
    assert(s.push(c).drop_last() =~= s);
}

/// An accepted keypad press keeps a well-formed buffer well formed: the
/// result is still inside the grammar and free of the leading-zero
/// pattern. Together with `lemma_empty_well_formed` and
/// `lemma_stages_cover`, this shows that every buffer built from the
/// empty one purely by accepted presses matches one of the five stages.
pub proof fn lemma_append_preserves_well_formed(b: Seq<char>, label: char)
    requires
        well_formed(b),
        is_keypad_label(label),
        append_outcome(b, label).is_some(),
    ensures
        well_formed(append_outcome(b, label).unwrap()),
{
    let eff = effective_label(b, label);
    if b == seq!['0'] {
        assert(seq!['0'] =~= Seq::<char>::empty().push('0'));
        lemma_run_push(Seq::<char>::empty(), '0');
        if is_operator_char(label) || label == '.' {
            lemma_run_push(b, label);
            assert forall|i: int| !pattern_at(b.push(label), i) by {};
        } else {
            assert(seq![label] =~= Seq::<char>::empty().push(label));
            lemma_run_push(Seq::<char>::empty(), label);
            assert forall|i: int| !pattern_at(seq![label], i) by {};
        }
    } else if is_operator_char(label) && b.len() >= 1 && is_operator_char(b.last()) {
        let p = b.drop_last();
        assert(p.push(b.last()) =~= b);
        lemma_run_push(p, b.last());
        lemma_pattern_drop_last(b);
        if b.len() == 1 && is_sign_char(b.last()) {
            if is_sign_char(label) {
                assert(p =~= Seq::<char>::empty());
                lemma_run_push(p, label);
                lemma_pattern_push(p, label);
            }
        } else if b.len() >= 2 && is_operator_char(b[b.len() - 2]) && is_sign_char(b.last()) {
            if is_sign_char(label) {
                lemma_run_push(p, label);
                lemma_pattern_push(p, label);
            }
        } else {
            if b.len() == 1 {
                // a lone non-sign operator could not have been valid
                assert(p =~= Seq::<char>::empty());
                assert(false);
            }
            let pp = p.drop_last();
            assert(pp.push(p.last()) =~= p);
            lemma_run_push(pp, p.last());
            if is_sign_char(label) {
                // the buffer ends in an active binary operator
                lemma_run_push(b, label);
                lemma_pattern_push(b, label);
            } else {
                lemma_run_push(p, label);
                lemma_pattern_push(p, label);
            }
        }
    } else {
        if label == '.' && !(b.len() > 0 && is_digit_char(b.last())) {
            // the substituted `0.` can never complete the guarded pattern
            let t1 = b.push('0');
            lemma_pattern_push(b, '0');
            lemma_pattern_push(t1, '.');
            assert(b + eff =~= t1.push('.'));
        } else {
            assert(b + eff =~= b.push(label));
            lemma_pattern_push(b, label);
            if has_leading_zero_pattern(b + eff) {
                // the guard fires: the buffer ends in an operator and a zero
                let p = b.drop_last();
                lemma_pattern_drop_last(b);
                assert(p.push(b.last()) =~= b);
                lemma_run_push(p, b.last());
                let pp = p.drop_last();
                assert(pp.push(p.last()) =~= p);
                lemma_run_push(pp, p.last());
                lemma_run_push(p, label);
                lemma_pattern_push(p, label);
                assert(b.drop_last() + eff =~= p.push(label));
            }
        }
    }
}

/// The buffer obtained by pressing `labels` in order on an empty buffer,
/// each press applied when accepted and ignored when rejected.
pub open spec fn replay(labels: Seq<char>) -> Seq<char>
    decreases labels.len(),
{
    if labels.len() == 0 {
        Seq::empty()
    } else {
        let prev = replay(labels.drop_last());
        match append_outcome(prev, labels.last()) {
            Some(n) => n,
            None => prev,
        }
    }
}

/// Every buffer built purely through keypad presses on an initially
/// empty buffer is well formed, and so matches one of the five grammar
/// stages.
pub proof fn lemma_replay_in_stages(labels: Seq<char>)
    requires
        forall|i: int| 0 <= i < labels.len() ==> is_keypad_label(#[trigger] labels[i]),
    ensures
        well_formed(replay(labels)),
        stage_one(replay(labels)) || stage_two(replay(labels)) || stage_three(replay(labels))
            || stage_four(replay(labels)) || full_expression(replay(labels)),
    decreases labels.len(),
{
    if labels.len() == 0 {
        lemma_empty_well_formed();
    } else {
        lemma_replay_in_stages(labels.drop_last());
        let prev = replay(labels.drop_last());
        assert(labels.last() == labels[labels.len() - 1]);
        if append_outcome(prev, labels.last()).is_some() {
            lemma_append_preserves_well_formed(prev, labels.last());
        }
    }
    lemma_stages_cover(replay(labels));
}

/// Whether the leading-zero pattern occurs in `v`.
fn has_leading_zero(v: &Vec<char>) -> (r: bool)
    ensures
        r == has_leading_zero_pattern(v@),
{
    if v.len() < 3 {
        proof {
            assert forall|i: int| !pattern_at(v@, i) by {};
        }
        return false;
    }
    let mut i: usize = 0;
    while i < v.len() - 2
        invariant
            v@.len() >= 3,
            0 <= i <= v@.len() - 2,
            forall|k: int| 0 <= k < i ==> !pattern_at(v@, k),
        decreases v@.len() - i,
    {
        if is_operator(v[i]) && v[i + 1] == '0' && is_digit(v[i + 2]) {
            proof {
                assert(pattern_at(v@, i as int));
            }
            return true;
        }
        i = i + 1;
    }
    proof {
        assert forall|k: int| !pattern_at(v@, k) by {
            if pattern_at(v@, k) {
                assert(0 <= k < v@.len() - 2);
            }
        };
    }
    false
}

/// One keypad press against the buffer. Returns whether the press was
/// accepted (the buffer was appended to or had its last character
/// replaced); a rejected press leaves the buffer exactly as it was.
pub fn try_append(buf: &mut Vec<char>, label: char) -> (r: bool)
    ensures
        r == append_outcome(old(buf)@, label).is_some(),
        (match append_outcome(old(buf)@, label) {
            Some(n) => final(buf)@ == n,
            None => final(buf)@ == old(buf)@,
        }),
{
    let ghost b0 = buf@;
    let last_is_digit = if buf.len() > 0 {
        is_digit(buf[buf.len() - 1])
    } else {
        false
    };
    let two_char = label == '.' && !last_is_digit;

    // shortcut on a buffer holding exactly "0"
    if buf.len() == 1 && buf[0] == '0' {
        proof {
            assert(b0 =~= seq!['0']);
        }
        if is_operator(label) || label == '.' {
            buf.push(label);
            return true;
        } else {
            buf.clear();
            buf.push(label);
            proof {
                assert(buf@ =~= seq![label]);
            }
            return true;
        }
    }
    proof {
        assert(b0 != seq!['0']);
    }

    // operator replacement with unary exceptions
    if is_operator(label) && buf.len() >= 1 && is_operator(buf[buf.len() - 1]) {
        let len = buf.len();
        if len == 1 && is_unary_sign(buf[0]) {
            if is_unary_sign(label) {
                buf.pop();
                buf.push(label);
                return true;
            }
            return false;
        }
        if len >= 2 && is_operator(buf[len - 2]) && is_unary_sign(buf[len - 1]) {
            if is_unary_sign(label) {
                buf.pop();
                buf.push(label);
                return true;
            }
            return false;
        }
        if is_unary_sign(label) {
            buf.push(label);
            return true;
        }
        buf.pop();
        buf.push(label);
        return true;
    }

    // tentative buffer: current contents plus the effective label
    let mut temp: Vec<char> = Vec::new();
    let mut i: usize = 0;
    while i < buf.len()
        invariant
            0 <= i <= buf@.len(),
            buf@ == b0,
            temp@ == b0.take(i as int),
        decreases buf@.len() - i,
    {
        temp.push(buf[i]);
        i = i + 1;
    }
    proof {
        assert(temp@ =~= b0);
    }
    if two_char {
        temp.push('0');
        temp.push('.');
    } else {
        temp.push(label);
    }
    proof {
        assert(temp@ =~= b0 + effective_label(b0, label));
    }

    // leading-zero guard: replace the last buffer character instead
    if has_leading_zero(&temp) {
        proof {
            let i = choose|i: int| pattern_at(temp@, i);
            assert(temp@.len() >= 3);
            assert(b0.len() >= 1);
        }
        buf.pop();
        if two_char {
            buf.push('0');
            buf.push('.');
        } else {
            buf.push(label);
        }
        proof {
            assert(buf@ =~= b0.drop_last() + effective_label(b0, label));
        }
        return true;
    }

    // generic grammar check on the tentative buffer
    let st = scan_state(&temp);
    if st != St::Dead {
        *buf = temp;
        return true;
    }
    false
}

} // verus!
