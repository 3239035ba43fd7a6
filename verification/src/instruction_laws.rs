use vstd::prelude::*;
use crate::opcode::{Opcode, decode, opcode_byte};
use crate::machine::{
    error_message, MachineView, StepView, EffectView, MachineError, Fault, step_spec, fault_of, word_at, le_i32,
    arith, branch_taken, trunc_div, trunc_rem, abs,
};

verus! {

/// Truncating division: `x == q * d + r` with `|r| < |d|` and `r` zero or of
/// the sign of `x`.
proof fn lemma_trunc_div_rem(x: int, d: int)
    requires
        d != 0,
    ensures
        x == trunc_div(x, d) * d + trunc_rem(x, d),
        if d > 0 {
            -d < trunc_rem(x, d) < d
        } else {
            d < trunc_rem(x, d) < -d
        },
        trunc_rem(x, d) == 0 || (trunc_rem(x, d) < 0) == (x < 0),
{
    let ax = abs(x);
    let ad = abs(d);
    let q = ax / ad;
    let r = ax % ad;
    vstd::arithmetic::div_mod::lemma_fundamental_div_mod(ax, ad);
    vstd::arithmetic::div_mod::lemma_mod_pos_bound(ax, ad);
    assert(ax == ad * q + r);
    if x >= 0 && d > 0 {
        assert(q * d == ad * q) by (nonlinear_arith)
            requires
                d == ad,
        ;
    } else if x >= 0 {
        assert((-q) * d == ad * q) by (nonlinear_arith)
            requires
                d == -ad,
        ;
    } else if d > 0 {
        assert((-q) * d == -(ad * q)) by (nonlinear_arith)
            requires
                d == ad,
        ;
    } else {
        assert(q * d == -(ad * q)) by (nonlinear_arith)
            requires
                d == -ad,
        ;
    }
}

/// The two-value conditional jumps compare the value `b` below the top with
/// the top value `a`: `JEQ` when they are equal, `JGT`/`JLT` when `b` is
/// greater/smaller, `JGE`/`JLE` when it is not smaller/not greater. So of
/// `JEQ`, `JGT`, `JLT` exactly one is taken, `JGE` is `JGT` or `JEQ`, and
/// `JLE` is `JLT` or `JEQ`.
pub proof fn law_branch_conditions(b: i32, a: i32)
    ensures
        branch_taken(Opcode::Jeq, b, a) <==> b == a,
        branch_taken(Opcode::Jgt, b, a) <==> b > a,
        branch_taken(Opcode::Jlt, b, a) <==> b < a,
        branch_taken(Opcode::Jge, b, a) <==> b >= a,
        branch_taken(Opcode::Jle, b, a) <==> b <= a,
        branch_taken(Opcode::Jeq, b, a) == branch_taken(Opcode::Jeq, a, b),
        branch_taken(Opcode::Jgt, b, a) == branch_taken(Opcode::Jlt, a, b),
        branch_taken(Opcode::Jge, b, a) == (branch_taken(Opcode::Jgt, b, a) || branch_taken(
            Opcode::Jeq,
            b,
            a,
        )),
        branch_taken(Opcode::Jle, b, a) == (branch_taken(Opcode::Jlt, b, a) || branch_taken(
            Opcode::Jeq,
            b,
            a,
        )),
        branch_taken(Opcode::Jeq, b, a) as int + branch_taken(Opcode::Jgt, b, a) as int
            + branch_taken(Opcode::Jlt, b, a) as int == 1,
{
}

/// The arithmetic instructions on the value `b` below the top and the top
/// value `a`: `ADD` gives `b + a`, `SUB` gives `b - a`, `MUL` gives `b * a`,
/// and `DIV` and `MOD` give the quotient `q` and remainder `r` of truncating
/// division: `b == q * a + r`, `|r| < |a|`, and `r` is zero or has the sign
/// of `b`.
pub proof fn law_arithmetic(b: int, a: int)
    ensures
        arith(Opcode::Add, b, a) == b + a,
        arith(Opcode::Sub, b, a) == b - a,
        arith(Opcode::Mul, b, a) == b * a,
        a != 0 ==> ({
            let q = arith(Opcode::Div, b, a);
            let r = arith(Opcode::Mod, b, a);
            &&& b == q * a + r
            &&& if a > 0 {
                -a < r < a
            } else {
                a < r < -a
            }
            &&& r == 0 || (r < 0) == (b < 0)
        }),
{
    assert(a * b == b * a) by (nonlinear_arith);
    if a != 0 {
        lemma_trunc_div_rem(b, a);
    }
}

/// An arithmetic instruction with two values on the stack makes the host
/// panic exactly when: `ADD`, `SUB`, `MUL` give a value outside `i32`;
/// `DIV`, `MOD` divide by zero or compute `i32::MIN` by `-1`. Every other
/// `DIV` or `MOD` is fine.
pub proof fn law_arithmetic_faults(s: MachineView, p: Seq<u8>)
    requires
        s.pc < p.len(),
        s.stack.len() >= 2,
    ensures
        ({
            let n = s.stack.len();
            let a = s.stack[n - 1] as int;
            let b = s.stack[n - 2] as int;
            let op = decode(p[s.pc as int]);
            let in_range = |v: int| i32::MIN <= v <= i32::MAX;
            &&& op == Some(Opcode::Add) ==> (fault_of(s, p) == if in_range(b + a) {
                None
            } else {
                Some(Fault::AddOverflow)
            })
            &&& op == Some(Opcode::Sub) ==> (fault_of(s, p) == if in_range(b - a) {
                None
            } else {
                Some(Fault::SubOverflow)
            })
            &&& op == Some(Opcode::Mul) ==> (fault_of(s, p) == if in_range(b * a) {
                None
            } else {
                Some(Fault::MulOverflow)
            })
            &&& op == Some(Opcode::Div) ==> (fault_of(s, p) == if a == 0 {
                Some(Fault::DivideByZero)
            } else if b == i32::MIN && a == -1 {
                Some(Fault::DivideOverflow)
            } else {
                None
            })
            &&& op == Some(Opcode::Mod) ==> (fault_of(s, p) == if a == 0 {
                Some(Fault::RemainderByZero)
            } else if b == i32::MIN && a == -1 {
                Some(Fault::RemainderOverflow)
            } else {
                None
            })
        }),
{
    let n = s.stack.len();
    let a = s.stack[n - 1] as int;
    let b = s.stack[n - 2] as int;
    assert(a * b == b * a) by (nonlinear_arith);
    if a != 0 {
        if !(b == i32::MIN && a == -1) {
            crate::machine::lemma_trunc_div_in_range(b, a);
        } else {
            assert(abs(b) == 0x8000_0000 && abs(a) == 1);
            assert(0x8000_0000int / 1int == 0x8000_0000int);
            assert(trunc_div(b, a) == 0x8000_0000);
        }
        crate::machine::lemma_trunc_rem_in_range(b, a);
    }
}

/// Instructions other than arithmetic, `CHAR`, `STORE`, `LOAD` and `PRINT`
/// never make the host panic; `CHAR`, `STORE` and `LOAD` do exactly when
/// their operand byte is past the end of the program, and `PRINT` exactly
/// when the end address of its text does not fit in `usize`.
pub proof fn law_other_faults(s: MachineView, p: Seq<u8>)
    requires
        s.pc < p.len(),
    ensures
        ({
            let op = decode(p[s.pc as int]);
            &&& (op is None || op == Some(Opcode::Push) || op == Some(Opcode::Pop) || op == Some(
                Opcode::Top,
            ) || op == Some(Opcode::Jump) || op == Some(Opcode::Jez) || op == Some(Opcode::Jeq)
                || op == Some(Opcode::Jgt) || op == Some(Opcode::Jlt) || op == Some(Opcode::Jge)
                || op == Some(Opcode::Jle)) ==> fault_of(s, p) is None
            &&& (op == Some(Opcode::Char) || op == Some(Opcode::Store) || op == Some(Opcode::Load))
                ==> (fault_of(s, p) == if s.pc + 1 < p.len() {
                None
            } else {
                Some(Fault::OperandPastEnd)
            })
            &&& op == Some(Opcode::Print) ==> (fault_of(s, p) == if s.pc + 5 <= p.len() && s.pc
                + 5 + (word_at(p, s.pc + 1) as usize) > usize::MAX {
                Some(Fault::PrintLengthOverflow)
            } else {
                None
            })
        }),
{
}

/// An operand word is the two's-complement reading of its four bytes, least
/// significant first.
pub proof fn law_operand_word(p: Seq<u8>, at: int)
    requires
        0 <= at,
        at + 4 <= p.len(),
    ensures
        ({
            let w = word_at(p, at) as int;
            let u = p[at] + 256 * p[at + 1] + 65536 * p[at + 2] + 16777216 * p[at + 3];
            &&& i32::MIN <= w <= i32::MAX
            &&& (w == u || w == u - 0x1_0000_0000)
            &&& (w < 0 <==> p[at + 3] >= 128)
        }),
{
}

/// `PUSH v` puts `v`, the word after the opcode, on the stack and moves on
/// five bytes; without four operand bytes it is refused.
pub proof fn law_push(s: MachineView, p: Seq<u8>)
    requires
        p.len() <= isize::MAX,
        s.pc < p.len(),
        decode(p[s.pc as int]) == Some(Opcode::Push),
    ensures
        ({
            let (r, t) = step_spec(s, p);
            if s.pc + 5 <= p.len() {
                &&& r == StepView::Continue
                &&& t.stack.len() == s.stack.len() + 1
                &&& t.stack.last() == word_at(p, s.pc + 1)
                &&& t.stack.drop_last() == s.stack
                &&& t.vars == s.vars
                &&& t.pc == s.pc + 5
            } else {
                r == StepView::Error(MachineError::MalformedPush) && t == s
            }
        }),
{
    let (r, t) = step_spec(s, p);
    if s.pc + 5 <= p.len() {
        assert(t.stack.drop_last() =~= s.stack);
    }
}

/// `TOP` shows the value on top of the stack and leaves the stack as it is;
/// on an empty stack it is refused.
pub proof fn law_top(s: MachineView, p: Seq<u8>)
    requires
        p.len() <= isize::MAX,
        s.pc < p.len(),
        decode(p[s.pc as int]) == Some(Opcode::Top),
    ensures
        ({
            let (r, t) = step_spec(s, p);
            if s.stack.len() > 0 {
                &&& r == StepView::Output(EffectView::PrintInt(s.stack.last()))
                &&& t.stack == s.stack
                &&& t.vars == s.vars
                &&& t.pc == s.pc + 1
            } else {
                r == StepView::Error(MachineError::StackUnderflow) && t == s
            }
        }),
{
}

/// `PUSH v` followed by `TOP` shows `v`, whatever was on the stack before.
pub proof fn law_top_shows_last_push(s: MachineView, p: Seq<u8>)
    requires
        p.len() <= isize::MAX,
        s.pc + 6 <= p.len(),
        s.pc + 6 <= usize::MAX,
        decode(p[s.pc as int]) == Some(Opcode::Push),
        decode(p[s.pc + 5]) == Some(Opcode::Top),
    ensures
        ({
            let (r1, t1) = step_spec(s, p);
            let (r2, t2) = step_spec(t1, p);
            r2 == StepView::Output(EffectView::PrintInt(word_at(p, s.pc + 1)))
        }),
{
}

/// `POP` removes the top value, if there is one, and moves on one byte.
pub proof fn law_pop(s: MachineView, p: Seq<u8>)
    requires
        p.len() <= isize::MAX,
        s.pc < p.len(),
        decode(p[s.pc as int]) == Some(Opcode::Pop),
    ensures
        ({
            let (r, t) = step_spec(s, p);
            &&& r == StepView::Continue
            &&& t.stack.len() == if s.stack.len() > 0 {
                s.stack.len() - 1
            } else {
                0
            }
            &&& forall|i: int| 0 <= i < t.stack.len() ==> t.stack[i] == s.stack[i]
            &&& t.vars == s.vars
            &&& t.pc == s.pc + 1
        }),
{
}

/// An arithmetic instruction replaces the value `b` below the top and the
/// top value `a` by one result (see `law_arithmetic` for which) and moves
/// on one byte; with fewer than two values it is refused.
pub proof fn law_arithmetic_step(s: MachineView, p: Seq<u8>)
    requires
        p.len() <= isize::MAX,
        s.pc < p.len(),
        fault_of(s, p) is None,
        decode(p[s.pc as int]) matches Some(op) && (op == Opcode::Add || op == Opcode::Sub || op
            == Opcode::Mul || op == Opcode::Div || op == Opcode::Mod),
    ensures
        ({
            let (r, t) = step_spec(s, p);
            let n = s.stack.len();
            let op = decode(p[s.pc as int]).unwrap();
            if n >= 2 {
                let b = s.stack[n - 2] as int;
                let a = s.stack[n - 1] as int;
                let v = t.stack.last() as int;
                &&& r == StepView::Continue
                &&& t.stack.len() == n - 1
                &&& t.stack.drop_last() == s.stack.take(n - 2)
                &&& op == Opcode::Add ==> v == b + a
                &&& op == Opcode::Sub ==> v == b - a
                &&& op == Opcode::Mul ==> v == b * a
                &&& op == Opcode::Div ==> {
                    let rem = b - v * a;
                    &&& if a > 0 {
                        -a < rem < a
                    } else {
                        a < rem < -a
                    }
                    &&& rem == 0 || (rem < 0) == (b < 0)
                }
                &&& t.vars == s.vars
                &&& t.pc == s.pc + 1
            } else {
                &&& t == s
                &&& op == Opcode::Add ==> r == StepView::Error(MachineError::StackTooShortAdd)
                &&& op == Opcode::Sub ==> r == StepView::Error(MachineError::StackTooShortSub)
                &&& op == Opcode::Mul ==> r == StepView::Error(MachineError::StackTooShortMul)
                &&& op == Opcode::Div ==> r == StepView::Error(MachineError::StackTooShortDiv)
                &&& op == Opcode::Mod ==> r == StepView::Error(MachineError::StackTooShortMod)
            }
        }),
{
    let (r, t) = step_spec(s, p);
    let n = s.stack.len();
    if n >= 2 {
        let b = s.stack[n - 2] as int;
        let a = s.stack[n - 1] as int;
        law_arithmetic(b, a);
        law_arithmetic_faults(s, p);
        assert(t.stack.drop_last() =~= s.stack.take(n - 2));
    }
}

/// `DIV` and `MOD` on the same two values agree: with `q` what `DIV` leaves
/// and `r` what `MOD` leaves, `b == q * a + r`, `|r| < |a|`, and `r` is zero
/// or has the sign of `b`.
pub proof fn law_div_mod_agree(s1: MachineView, p1: Seq<u8>, s2: MachineView, p2: Seq<u8>)
    requires
        s1.pc < p1.len(),
        s2.pc < p2.len(),
        decode(p1[s1.pc as int]) == Some(Opcode::Div),
        decode(p2[s2.pc as int]) == Some(Opcode::Mod),
        fault_of(s1, p1) is None,
        fault_of(s2, p2) is None,
        s1.stack.len() >= 2,
        s2.stack.len() >= 2,
        s1.stack.last() == s2.stack.last(),
        s1.stack[s1.stack.len() - 2] == s2.stack[s2.stack.len() - 2],
    ensures
        ({
            let b = s1.stack[s1.stack.len() - 2] as int;
            let a = s1.stack.last() as int;
            let q = step_spec(s1, p1).1.stack.last() as int;
            let r = step_spec(s2, p2).1.stack.last() as int;
            &&& b == q * a + r
            &&& if a > 0 {
                -a < r < a
            } else {
                a < r < -a
            }
            &&& r == 0 || (r < 0) == (b < 0)
        }),
{
    let b = s1.stack[s1.stack.len() - 2] as int;
    let a = s1.stack.last() as int;
    law_arithmetic_faults(s1, p1);
    law_arithmetic_faults(s2, p2);
    law_arithmetic(b, a);
}

/// `JUMP` sends the program counter to its operand word (a negative word
/// reads as a huge address, which ends the run) and touches nothing else.
pub proof fn law_jump(s: MachineView, p: Seq<u8>)
    requires
        p.len() <= isize::MAX,
        s.pc < p.len(),
        decode(p[s.pc as int]) == Some(Opcode::Jump),
    ensures
        ({
            let (r, t) = step_spec(s, p);
            if s.pc + 5 <= p.len() {
                &&& r == StepView::Continue
                &&& t.stack == s.stack
                &&& t.vars == s.vars
                &&& t.pc == word_at(p, s.pc + 1) as usize
            } else {
                r == StepView::Error(MachineError::MissingJumpAddress) && t == s
            }
        }),
{
}

/// `JEZ` pops the top value and jumps to its operand exactly when that value
/// is zero; otherwise it moves on five bytes.
pub proof fn law_jez(s: MachineView, p: Seq<u8>)
    requires
        p.len() <= isize::MAX,
        s.pc < p.len(),
        decode(p[s.pc as int]) == Some(Opcode::Jez),
    ensures
        ({
            let (r, t) = step_spec(s, p);
            if s.pc + 5 > p.len() {
                r == StepView::Error(MachineError::MissingBranchAddress) && t == s
            } else if s.stack.len() == 0 {
                r == StepView::Error(MachineError::StackTooShortBranch) && t == s
            } else {
                let x = s.stack.last();
                &&& r == StepView::Continue
                &&& t.stack == s.stack.drop_last()
                &&& t.vars == s.vars
                &&& x == 0 ==> t.pc == word_at(p, s.pc + 1) as usize
                &&& x != 0 ==> t.pc == s.pc + 5
            }
        }),
{
}

/// The two-value conditional jumps pop the top value `a` and the value `b`
/// below it, then jump to their operand when the comparison of `b` with `a`
/// holds (`JEQ` `b == a`, `JGT` `b > a`, `JLT` `b < a`, `JGE` `b >= a`,
/// `JLE` `b <= a`) and otherwise move on five bytes.
pub proof fn law_compare_jump(s: MachineView, p: Seq<u8>)
    requires
        p.len() <= isize::MAX,
        s.pc < p.len(),
        decode(p[s.pc as int]) matches Some(op) && (op == Opcode::Jeq || op == Opcode::Jgt || op
            == Opcode::Jlt || op == Opcode::Jge || op == Opcode::Jle),
    ensures
        ({
            let (r, t) = step_spec(s, p);
            let n = s.stack.len();
            let op = decode(p[s.pc as int]).unwrap();
            if s.pc + 5 > p.len() {
                r == StepView::Error(MachineError::MissingBranchAddress) && t == s
            } else if n == 0 {
                r == StepView::Error(MachineError::StackTooShortBranch) && t == s
            } else if n == 1 {
                r == StepView::Error(MachineError::UnexpectedStackUnderflow) && t == s
            } else {
                let b = s.stack[n - 2];
                let a = s.stack[n - 1];
                let cond = match op {
                    Opcode::Jeq => b == a,
                    Opcode::Jgt => b > a,
                    Opcode::Jlt => b < a,
                    Opcode::Jge => b >= a,
                    _ => b <= a,
                };
                &&& r == StepView::Continue
                &&& t.stack == s.stack.take(n - 2)
                &&& t.vars == s.vars
                &&& t.pc == if cond {
                    word_at(p, s.pc + 1) as usize
                } else {
                    (s.pc + 5) as usize
                }
            }
        }),
{
    let n = s.stack.len();
    if n >= 2 {
        law_branch_conditions(s.stack[n - 2], s.stack[n - 1]);
    }
}

/// `CHAR k` shows the top `k` values, deepest first, each cut to its low
/// byte, removes them, and moves on `k + 1` bytes; with fewer than `k`
/// values it is refused.
pub proof fn law_char(s: MachineView, p: Seq<u8>)
    requires
        p.len() <= isize::MAX,
        s.pc + 1 < p.len(),
        decode(p[s.pc as int]) == Some(Opcode::Char),
    ensures
        ({
            let (r, t) = step_spec(s, p);
            let k = p[s.pc + 1] as int;
            let n = s.stack.len();
            if n < k {
                r == StepView::Error(MachineError::StackUnderflow) && t == s
            } else {
                &&& r matches StepView::Output(EffectView::PrintBytes(shown)) && shown.len() == k
                    && forall|i: int| 0 <= i < k ==> shown[i] as int == s.stack[n - k + i] % 256
                &&& t.stack.len() == n - k
                &&& forall|i: int| 0 <= i < n - k ==> t.stack[i] == s.stack[i]
                &&& t.vars == s.vars
                &&& t.pc == s.pc + k + 1
            }
        }),
{
    let (r, t) = step_spec(s, p);
    let k = p[s.pc + 1] as int;
    let n = s.stack.len();
    if n >= k {
        if let StepView::Output(EffectView::PrintBytes(shown)) = r {
            assert forall|i: int| 0 <= i < k implies shown[i] as int == s.stack[n - k + i]
                % 256 by {
                let x = s.stack[n - k + i];
                assert((x as u8) as int == x % 256) by (bit_vector);
            }
        }
    }
}

/// `PRINT len text` shows the `len` bytes that follow its length word and
/// moves past them; a text that runs past the end, or a missing length, is
/// refused.
pub proof fn law_print(s: MachineView, p: Seq<u8>)
    requires
        p.len() <= isize::MAX,
        s.pc < p.len(),
        fault_of(s, p) is None,
        decode(p[s.pc as int]) == Some(Opcode::Print),
    ensures
        ({
            let (r, t) = step_spec(s, p);
            if s.pc + 5 > p.len() {
                r == StepView::Error(MachineError::MissingPrintLength) && t == s
            } else {
                let len = word_at(p, s.pc + 1) as usize as int;
                if s.pc + 5 + len <= p.len() {
                    &&& r matches StepView::Output(EffectView::PrintBytes(shown)) && shown.len()
                        == len && forall|i: int| 0 <= i < len ==> shown[i] == p[s.pc + 5 + i]
                    &&& t.stack == s.stack
                    &&& t.vars == s.vars
                    &&& t.pc == s.pc + 5 + len
                } else {
                    r == StepView::Error(MachineError::UnexpectedEndOfFile) && t == s
                }
            }
        }),
{
}

/// `STORE k` pops the top value into slot `k` (and no other slot) and moves
/// on two bytes; `LOAD k` pushes the value of slot `k` and moves on two
/// bytes. `STORE` on an empty stack is refused.
pub proof fn law_store_load(s: MachineView, p: Seq<u8>)
    requires
        p.len() <= isize::MAX,
        s.pc + 1 < p.len(),
        s.vars.len() == 256,
    ensures
        ({
            let (r, t) = step_spec(s, p);
            let k = p[s.pc + 1] as int;
            let n = s.stack.len();
            &&& decode(p[s.pc as int]) == Some(Opcode::Store) ==> if n == 0 {
                r == StepView::Error(MachineError::StackTooShortStore) && t == s
            } else {
                &&& r == StepView::Continue
                &&& t.stack == s.stack.drop_last()
                &&& t.vars.len() == 256
                &&& t.vars[k] == s.stack.last()
                &&& forall|j: int| 0 <= j < 256 && j != k ==> t.vars[j] == s.vars[j]
                &&& t.pc == s.pc + 2
            }
            &&& decode(p[s.pc as int]) == Some(Opcode::Load) ==> {
                &&& r == StepView::Continue
                &&& t.stack.len() == n + 1
                &&& t.stack.last() == s.vars[k]
                &&& t.stack.drop_last() == s.stack
                &&& t.vars == s.vars
                &&& t.pc == s.pc + 2
            }
        }),
{
    let (r, t) = step_spec(s, p);
    if decode(p[s.pc as int]) == Some(Opcode::Load) {
        assert(t.stack.drop_last() =~= s.stack);
    }
}

/// A byte that is no opcode is refused and changes nothing.
pub proof fn law_unrecognized(s: MachineView, p: Seq<u8>)
    requires
        s.pc < p.len(),
        decode(p[s.pc as int]) is None,
    ensures
        step_spec(s, p) == (StepView::Error(MachineError::UnrecognizedBytecode), s),
{
}

/// The opcode table: which byte encodes which instruction.
pub proof fn law_opcode_table(byte: u8)
    ensures
        decode(byte) == Some(Opcode::Push) <==> byte == 1,
        decode(byte) == Some(Opcode::Pop) <==> byte == 2,
        decode(byte) == Some(Opcode::Top) <==> byte == 3,
        decode(byte) == Some(Opcode::Add) <==> byte == 4,
        decode(byte) == Some(Opcode::Sub) <==> byte == 5,
        decode(byte) == Some(Opcode::Mul) <==> byte == 6,
        decode(byte) == Some(Opcode::Div) <==> byte == 7,
        decode(byte) == Some(Opcode::Mod) <==> byte == 8,
        decode(byte) == Some(Opcode::Char) <==> byte == 9,
        decode(byte) == Some(Opcode::Print) <==> byte == 10,
        decode(byte) == Some(Opcode::Jump) <==> byte == 11,
        decode(byte) == Some(Opcode::Jez) <==> byte == 12,
        decode(byte) == Some(Opcode::Jeq) <==> byte == 13,
        decode(byte) == Some(Opcode::Jgt) <==> byte == 14,
        decode(byte) == Some(Opcode::Jlt) <==> byte == 15,
        decode(byte) == Some(Opcode::Jge) <==> byte == 16,
        decode(byte) == Some(Opcode::Jle) <==> byte == 17,
        decode(byte) == Some(Opcode::Store) <==> byte == 18,
        decode(byte) == Some(Opcode::Load) <==> byte == 19,
        decode(byte) is None <==> (byte == 0 || byte >= 20),
        decode(byte) matches Some(op) ==> opcode_byte(op) == byte,
{
}

/// The text reported for each error.
pub proof fn law_error_texts()
    ensures
        error_message(MachineError::MalformedPush) == "malformed argument for PUSH"@,
        error_message(MachineError::StackUnderflow) == "stack underflow"@,
        error_message(MachineError::StackTooShortAdd) == "stack too short for ADD"@,
        error_message(MachineError::StackTooShortSub) == "stack too short for SUB"@,
        error_message(MachineError::StackTooShortMul) == "stack too short for MUL"@,
        error_message(MachineError::StackTooShortDiv) == "stack too short for DIV"@,
        error_message(MachineError::StackTooShortMod) == "stack too short for MOD"@,
        error_message(MachineError::MissingPrintLength) == "missing length argument for PRINT"@,
        error_message(MachineError::UnexpectedEndOfFile) == "unexpected end of file"@,
        error_message(MachineError::MissingJumpAddress) == "missing jumping address for JUMP"@,
        error_message(MachineError::MissingBranchAddress) == "missing jumping address for JEZ"@,
        error_message(MachineError::StackTooShortBranch) == "stack too short for JEZ"@,
        error_message(MachineError::UnexpectedStackUnderflow) == "unexpected stack underflow"@,
        error_message(MachineError::StackTooShortStore) == "stack too short for STORE"@,
        error_message(MachineError::UnrecognizedBytecode) == "unrecognized bytecode"@,
{
}

} // verus!
