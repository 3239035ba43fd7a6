use vstd::prelude::*;
use crate::opcode::{Opcode, decode, opcode_byte};
use crate::machine::{MachineView, StepView, step_spec, word_at};

verus! {

/// Every instruction's byte decodes back to that instruction.
pub proof fn law_decode_encode(op: Opcode)
    ensures
        decode(opcode_byte(op)) == Some(op),
{
}

/// A byte decodes to an instruction exactly when it lies in 1..=19, and then
/// that instruction is encoded by the same byte.
pub proof fn law_encode_decode(byte: u8)
    ensures
        decode(byte) is Some <==> 1 <= byte <= 19,
        decode(byte) matches Some(op) ==> opcode_byte(op) == byte,
{
}

/// Once the program counter is past the end of the program, a step reports
/// that the run is over and changes nothing.
pub proof fn law_halted_is_final(s: MachineView, p: Seq<u8>)
    requires
        s.pc >= p.len(),
    ensures
        step_spec(s, p) == (StepView::Halted, s),
{
}

/// An instruction that cannot run changes nothing.
pub proof fn law_refused_step_changes_nothing(s: MachineView, p: Seq<u8>)
    requires
        step_spec(s, p).0 is Error,
    ensures
        step_spec(s, p).1 == s,
{
}

/// Whether a step ran an instruction (as opposed to halting or failing).
pub open spec fn ran(r: StepView) -> bool {
    r is Continue || r is Output
}

/// How many values the instruction at `s.pc` takes off the stack when it runs.
pub open spec fn values_taken(s: MachineView, p: Seq<u8>) -> int {
    let n = s.stack.len() as int;
    match decode(p[s.pc as int]) {
        Some(Opcode::Pop) => if n > 0 { 1 } else { 0 },
        Some(Opcode::Add) | Some(Opcode::Sub) | Some(Opcode::Mul) | Some(Opcode::Div) | Some(
            Opcode::Mod,
        ) => 2,
        Some(Opcode::Char) => p[s.pc + 1] as int,
        Some(Opcode::Jez) | Some(Opcode::Store) => 1,
        Some(Opcode::Jeq) | Some(Opcode::Jgt) | Some(Opcode::Jlt) | Some(Opcode::Jge) | Some(
            Opcode::Jle,
        ) => 2,
        _ => 0,
    }
}

/// How many values the instruction at `s.pc` puts on the stack when it runs.
pub open spec fn values_given(s: MachineView, p: Seq<u8>) -> int {
    match decode(p[s.pc as int]) {
        Some(Opcode::Push) | Some(Opcode::Load) | Some(Opcode::Add) | Some(Opcode::Sub) | Some(
            Opcode::Mul,
        ) | Some(Opcode::Div) | Some(Opcode::Mod) => 1,
        _ => 0,
    }
}

/// A step that runs an instruction only works on the top of the stack: it
/// takes off the values the instruction consumes, puts on the ones it
/// produces, and leaves everything below untouched.
pub proof fn law_stack_discipline(s: MachineView, p: Seq<u8>)
    requires
        s.pc < p.len(),
        ran(step_spec(s, p).0),
    ensures
        ({
            let t = step_spec(s, p).1;
            let keep = s.stack.len() - values_taken(s, p);
            &&& 0 <= keep
            &&& t.stack.len() == keep + values_given(s, p)
            &&& t.stack.take(keep) == s.stack.take(keep)
        }),
{
    let t = step_spec(s, p).1;
    let keep = s.stack.len() - values_taken(s, p);
    assert(t.stack.take(keep) =~= s.stack.take(keep));
}

/// Only `STORE` writes a variable, and it writes just the slot it names.
pub proof fn law_only_store_writes_variables(s: MachineView, p: Seq<u8>, slot: int)
    requires
        s.pc < p.len(),
        s.vars.len() == 256,
        0 <= slot < 256,
        decode(p[s.pc as int]) != Some(Opcode::Store) || slot != p[s.pc + 1],
    ensures
        step_spec(s, p).1.vars.len() == s.vars.len(),
        step_spec(s, p).1.vars[slot] == s.vars[slot],
{
}

/// What `LOAD k` gives back is what the `STORE k` just before it wrote:
/// storing the top value and loading it again leaves the stack as it was,
/// with the value now held in slot `k`.
pub proof fn law_load_reads_store(s: MachineView, p: Seq<u8>)
    requires
        s.pc + 4 <= p.len(),
        s.pc + 4 <= usize::MAX,
        s.vars.len() == 256,
        s.stack.len() > 0,
        decode(p[s.pc as int]) == Some(Opcode::Store),
        decode(p[s.pc + 2]) == Some(Opcode::Load),
        p[s.pc + 1] == p[s.pc + 3],
    ensures
        ({
            let (r1, t1) = step_spec(s, p);
            let (r2, t2) = step_spec(t1, p);
            &&& r1 is Continue && r2 is Continue
            &&& t2.stack == s.stack
            &&& t2.vars[p[s.pc + 1] as int] == s.stack.last()
            &&& t2.pc == s.pc + 4
        }),
{
    let (r1, t1) = step_spec(s, p);
    let (r2, t2) = step_spec(t1, p);
    assert(t2.stack =~= s.stack);
}

/// `POP` undoes `PUSH`: pushing a value and popping it again leaves the stack
/// and the variables as they were and moves past both instructions.
pub proof fn law_pop_undoes_push(s: MachineView, p: Seq<u8>)
    requires
        s.pc + 6 <= p.len(),
        s.pc + 6 <= usize::MAX,
        decode(p[s.pc as int]) == Some(Opcode::Push),
        decode(p[s.pc + 5]) == Some(Opcode::Pop),
    ensures
        ({
            let (r1, t1) = step_spec(s, p);
            let (r2, t2) = step_spec(t1, p);
            &&& r1 is Continue && r2 is Continue
            &&& t1.stack.last() == word_at(p, s.pc + 1)
            &&& t2.stack == s.stack
            &&& t2.vars == s.vars
            &&& t2.pc == s.pc + 6
        }),
{
    let (r1, t1) = step_spec(s, p);
    let (r2, t2) = step_spec(t1, p);
    assert(t2.stack =~= s.stack);
}

/// Only the jump instructions move the program counter backwards: every
/// other instruction that runs moves it forward.
pub proof fn law_only_jumps_go_back(s: MachineView, p: Seq<u8>)
    requires
        s.pc < p.len(),
        p.len() <= isize::MAX,
        ran(step_spec(s, p).0),
        decode(p[s.pc as int]) != Some(Opcode::Jump),
        decode(p[s.pc as int]) != Some(Opcode::Jez),
        decode(p[s.pc as int]) != Some(Opcode::Jeq),
        decode(p[s.pc as int]) != Some(Opcode::Jgt),
        decode(p[s.pc as int]) != Some(Opcode::Jlt),
        decode(p[s.pc as int]) != Some(Opcode::Jge),
        decode(p[s.pc as int]) != Some(Opcode::Jle),
    ensures
        step_spec(s, p).1.pc > s.pc,
{
}

/// Only `TOP`, `CHAR` and `PRINT` show anything.
pub proof fn law_only_output_instructions_show(s: MachineView, p: Seq<u8>)
    requires
        s.pc < p.len(),
        step_spec(s, p).0 is Output,
    ensures
        decode(p[s.pc as int]) == Some(Opcode::Top) || decode(p[s.pc as int]) == Some(
            Opcode::Char,
        ) || decode(p[s.pc as int]) == Some(Opcode::Print),
{
}

} // verus!
