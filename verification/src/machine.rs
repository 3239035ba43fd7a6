use vstd::prelude::*;
use crate::opcode::{Opcode, decode};

verus! {


/// Why the machine stopped: each variant is one of the messages the host
/// reports before aborting (see `MachineError::message`).
#[derive(Clone, Copy, Debug, PartialEq, Eq, Structural)]
pub enum MachineError {
    /// `PUSH` without four operand bytes.
    MalformedPush,
    /// `TOP` on an empty stack, or `CHAR n` with fewer than `n` values.
    StackUnderflow,
    /// `ADD` with fewer than two values.
    StackTooShortAdd,
    /// `SUB` with fewer than two values.
    StackTooShortSub,
    /// `MUL` with fewer than two values.
    StackTooShortMul,
    /// `DIV` with fewer than two values.
    StackTooShortDiv,
    /// `MOD` with fewer than two values.
    StackTooShortMod,
    /// `PRINT` without four length bytes.
    MissingPrintLength,
    /// `PRINT` whose text runs past the end of the program.
    UnexpectedEndOfFile,
    /// `JUMP` without four address bytes.
    MissingJumpAddress,
    /// A conditional jump without four address bytes.
    MissingBranchAddress,
    /// A conditional jump on an empty stack.
    StackTooShortBranch,
    /// A two-operand conditional jump with a single value on the stack.
    UnexpectedStackUnderflow,
    /// `STORE` on an empty stack.
    StackTooShortStore,
    /// A byte that is no opcode.
    UnrecognizedBytecode,
}

/// The text reported for each error.
pub open spec fn error_message(e: MachineError) -> Seq<char> {
    match e {
        MachineError::MalformedPush => "malformed argument for PUSH"@,
        MachineError::StackUnderflow => "stack underflow"@,
        MachineError::StackTooShortAdd => "stack too short for ADD"@,
        MachineError::StackTooShortSub => "stack too short for SUB"@,
        MachineError::StackTooShortMul => "stack too short for MUL"@,
        MachineError::StackTooShortDiv => "stack too short for DIV"@,
        MachineError::StackTooShortMod => "stack too short for MOD"@,
        MachineError::MissingPrintLength => "missing length argument for PRINT"@,
        MachineError::UnexpectedEndOfFile => "unexpected end of file"@,
        MachineError::MissingJumpAddress => "missing jumping address for JUMP"@,
        MachineError::MissingBranchAddress => "missing jumping address for JEZ"@,
        MachineError::StackTooShortBranch => "stack too short for JEZ"@,
        MachineError::UnexpectedStackUnderflow => "unexpected stack underflow"@,
        MachineError::StackTooShortStore => "stack too short for STORE"@,
        MachineError::UnrecognizedBytecode => "unrecognized bytecode"@,
    }
}

impl MachineError {
    /// The message the host prints for this error.
    pub fn message(&self) -> (r: &'static str)
        ensures
            r@ == error_message(*self),
    {
        match self {
            MachineError::MalformedPush => "malformed argument for PUSH",
            MachineError::StackUnderflow => "stack underflow",
            MachineError::StackTooShortAdd => "stack too short for ADD",
            MachineError::StackTooShortSub => "stack too short for SUB",
            MachineError::StackTooShortMul => "stack too short for MUL",
            MachineError::StackTooShortDiv => "stack too short for DIV",
            MachineError::StackTooShortMod => "stack too short for MOD",
            MachineError::MissingPrintLength => "missing length argument for PRINT",
            MachineError::UnexpectedEndOfFile => "unexpected end of file",
            MachineError::MissingJumpAddress => "missing jumping address for JUMP",
            MachineError::MissingBranchAddress => "missing jumping address for JEZ",
            MachineError::StackTooShortBranch => "stack too short for JEZ",
            MachineError::UnexpectedStackUnderflow => "unexpected stack underflow",
            MachineError::StackTooShortStore => "stack too short for STORE",
            MachineError::UnrecognizedBytecode => "unrecognized bytecode",
        }
    }
}

/// The two's-complement `i32` whose little-endian bytes are `b0 b1 b2 b3`.
pub open spec fn le_i32(b0: u8, b1: u8, b2: u8, b3: u8) -> i32 {
    let u: int = b0 + 256 * b1 + 65536 * b2 + 16777216 * b3;
    if u < 0x8000_0000 {
        u as i32
    } else {
        (u - 0x1_0000_0000) as i32
    }
}

/// The four-byte little-endian operand that starts at `at`.
pub open spec fn word_at(p: Seq<u8>, at: int) -> i32 {
    le_i32(p[at], p[at + 1], p[at + 2], p[at + 3])
}

/// Reads the four-byte little-endian operand that starts at `at`.
pub fn read_word(program: &Vec<u8>, at: usize) -> (v: i32)
    requires
        at + 4 <= program.len(),
    ensures
        v == word_at(program@, at as int),
{
    let u: u64 = program[at] as u64 + (program[at + 1] as u64) * 256 + (program[at + 2] as u64)
        * 65536 + (program[at + 3] as u64) * 16777216;
    if u < 0x8000_0000 {
        u as i32
    } else {
        (u as i64 - 0x1_0000_0000) as i32
    }
}

/// Rust's `/` on integers: the quotient rounded toward zero.
pub open spec fn trunc_div(x: int, d: int) -> int {
    let q = abs(x) / abs(d);
    if (x < 0) == (d < 0) {
        q
    } else {
        -q
    }
}

/// Rust's `%` on integers: the remainder takes the sign of `x`.
pub open spec fn trunc_rem(x: int, d: int) -> int {
    let r = abs(x) % abs(d);
    if x < 0 {
        -r
    } else {
        r
    }
}

/// The absolute value of `x`.
pub open spec fn abs(x: int) -> int {
    if x < 0 {
        -x
    } else {
        x
    }
}

/// What a two-operand arithmetic instruction computes from the value `b`
/// below the top and the top value `a`.
pub open spec fn arith(op: Opcode, b: int, a: int) -> int {
    match op {
        Opcode::Add => a + b,
        Opcode::Sub => b - a,
        Opcode::Mul => a * b,
        Opcode::Div => trunc_div(b, a),
        _ => trunc_rem(b, a),
    }
}

/// Whether a two-operand conditional jump is taken, for the value `b`
/// below the top and the top value `a`.
pub open spec fn branch_taken(op: Opcode, b: i32, a: i32) -> bool {
    match op {
        Opcode::Jeq => b == a,
        Opcode::Jgt => b > a,
        Opcode::Jlt => b < a,
        Opcode::Jge => b >= a,
        _ => b <= a,
    }
}

/// The error of an arithmetic instruction that finds fewer than two values.
pub open spec fn too_short_error(op: Opcode) -> MachineError {
    match op {
        Opcode::Add => MachineError::StackTooShortAdd,
        Opcode::Sub => MachineError::StackTooShortSub,
        Opcode::Mul => MachineError::StackTooShortMul,
        Opcode::Div => MachineError::StackTooShortDiv,
        _ => MachineError::StackTooShortMod,
    }
}

/// Whether `op` is one of the two-operand arithmetic instructions.
pub open spec fn is_arith(op: Opcode) -> bool {
    op == Opcode::Add || op == Opcode::Sub || op == Opcode::Mul || op == Opcode::Div || op
        == Opcode::Mod
}

/// Whether `op` is one of the two-operand conditional jumps.
pub open spec fn is_compare_jump(op: Opcode) -> bool {
    op == Opcode::Jeq || op == Opcode::Jgt || op == Opcode::Jlt || op == Opcode::Jge || op
        == Opcode::Jle
}

/// Something the host has to show.
#[derive(Debug, PartialEq, Eq)]
pub enum Effect {
    /// Print the value in decimal, then a newline.
    PrintInt(i32),
    /// Print each byte as the character with that code point, with no newline.
    PrintBytes(Vec<u8>),
}

/// The mathematical content of an `Effect`.
#[verifier::ext_equal]
pub enum EffectView {
    PrintInt(i32),
    PrintBytes(Seq<u8>),
}

impl View for Effect {
    type V = EffectView;

    open spec fn view(&self) -> EffectView {
        match self {
            Effect::PrintInt(v) => EffectView::PrintInt(*v),
            Effect::PrintBytes(b) => EffectView::PrintBytes(b@),
        }
    }
}

/// What one step did.
#[derive(Debug, PartialEq, Eq)]
pub enum Step {
    /// An instruction ran and there is nothing to show.
    Continue,
    /// An instruction ran and the host has to show this.
    Output(Effect),
    /// The program counter is past the end of the program: the run is over.
    Halted,
    /// The instruction at the program counter cannot run; the run aborts.
    Error(MachineError),
}

/// The mathematical content of a `Step`.
#[verifier::ext_equal]
pub enum StepView {
    Continue,
    Output(EffectView),
    Halted,
    Error(MachineError),
}

impl View for Step {
    type V = StepView;

    open spec fn view(&self) -> StepView {
        match self {
            Step::Continue => StepView::Continue,
            Step::Output(e) => StepView::Output(e@),
            Step::Halted => StepView::Halted,
            Step::Error(e) => StepView::Error(*e),
        }
    }
}

/// The ways in which an instruction would make the host program panic:
/// arithmetic that leaves `i32`, or an operand byte past the end.
#[derive(Clone, Copy, Debug, PartialEq, Eq, Structural)]
pub enum Fault {
    AddOverflow,
    SubOverflow,
    MulOverflow,
    DivideByZero,
    DivideOverflow,
    RemainderByZero,
    RemainderOverflow,
    /// `CHAR`, `STORE` or `LOAD` as the last byte of the program.
    OperandPastEnd,
    /// A `PRINT` length whose end address does not fit in `usize`.
    PrintLengthOverflow,
}

/// The state of the machine.
pub struct Machine {
    /// The operand stack; its last element is the top.
    pub stack: Vec<i32>,
    /// The variable slots.
    pub vars: [i32; 256],
    /// The offset of the next instruction in the program.
    pub pc: usize,
}

/// The mathematical content of a `Machine`.
#[verifier::ext_equal]
pub struct MachineView {
    pub stack: Seq<i32>,
    pub vars: Seq<i32>,
    pub pc: usize,
}

impl View for Machine {
    type V = MachineView;

    open spec fn view(&self) -> MachineView {
        MachineView { stack: self.stack@, vars: self.vars@, pc: self.pc }
    }
}

/// The state `s` with a new stack and program counter.
pub open spec fn moved(s: MachineView, stack: Seq<i32>, pc: int) -> MachineView {
    MachineView { stack: stack, vars: s.vars, pc: pc as usize }
}

/// How the instruction at `s.pc` would panic, if it would.
pub open spec fn fault_of(s: MachineView, p: Seq<u8>) -> Option<Fault> {
    let pc = s.pc as int;
    let st = s.stack;
    let n = st.len();
    if pc >= p.len() {
        None
    } else {
        match decode(p[pc]) {
            Some(op) => if is_arith(op) && n >= 2 {
                let a = st[n - 1] as int;
                let b = st[n - 2] as int;
                if (op == Opcode::Div || op == Opcode::Mod) && a == 0 {
                    Some(if op == Opcode::Div { Fault::DivideByZero } else { Fault::RemainderByZero })
                } else if op == Opcode::Mod && b == i32::MIN && a == -1 {
                    Some(Fault::RemainderOverflow)
                } else if i32::MIN <= arith(op, b, a) <= i32::MAX {
                    None
                } else {
                    Some(
                        match op {
                            Opcode::Add => Fault::AddOverflow,
                            Opcode::Sub => Fault::SubOverflow,
                            Opcode::Mul => Fault::MulOverflow,
                            Opcode::Div => Fault::DivideOverflow,
                            _ => Fault::RemainderOverflow,
                        },
                    )
                }
            } else if (op == Opcode::Char || op == Opcode::Store || op == Opcode::Load) && pc
                + 1 >= p.len() {
                Some(Fault::OperandPastEnd)
            } else if op == Opcode::Print && pc + 5 <= p.len() && pc + 5 + (word_at(p, pc + 1)
                as usize) > usize::MAX {
                Some(Fault::PrintLengthOverflow)
            } else {
                None
            },
            None => None,
        }
    }
}

/// One step of the machine on program `p`: what the step reports and the
/// state after it. A step that reports `Halted` or `Error` leaves the state
/// as it was. (Where `fault_of` is not `None` the host panics instead, and
/// what this function gives there is not used.)
pub open spec fn step_spec(s: MachineView, p: Seq<u8>) -> (StepView, MachineView) {
    let pc = s.pc as int;
    let st = s.stack;
    let n = st.len();
    if pc >= p.len() {
        (StepView::Halted, s)
    } else {
        match decode(p[pc]) {
            None => (StepView::Error(MachineError::UnrecognizedBytecode), s),
            Some(op) => match op {
                Opcode::Push => if pc + 5 <= p.len() {
                    (StepView::Continue, moved(s, st.push(word_at(p, pc + 1)), pc + 5))
                } else {
                    (StepView::Error(MachineError::MalformedPush), s)
                },
                Opcode::Pop => (
                    StepView::Continue,
                    moved(s, if n > 0 { st.drop_last() } else { st }, pc + 1),
                ),
                Opcode::Top => if n == 0 {
                    (StepView::Error(MachineError::StackUnderflow), s)
                } else {
                    (StepView::Output(EffectView::PrintInt(st[n - 1])), moved(s, st, pc + 1))
                },
                Opcode::Add | Opcode::Sub | Opcode::Mul | Opcode::Div | Opcode::Mod => if n
                    >= 2 {
                    let r = arith(op, st[n - 2] as int, st[n - 1] as int);
                    (StepView::Continue, moved(s, st.take(n - 2).push(r as i32), pc + 1))
                } else {
                    (StepView::Error(too_short_error(op)), s)
                },
                Opcode::Char => {
                    let k = p[pc + 1] as int;
                    if n < k {
                        (StepView::Error(MachineError::StackUnderflow), s)
                    } else {
                        let shown = Seq::new(k as nat, |i: int| st[n - k + i] as u8);
                        (
                            StepView::Output(EffectView::PrintBytes(shown)),
                            moved(s, st.take(n - k), pc + k + 1),
                        )
                    }
                },
                Opcode::Print => if pc + 5 <= p.len() {
                    let len = word_at(p, pc + 1) as usize;
                    if pc + 5 + len <= p.len() {
                        (
                            StepView::Output(
                                EffectView::PrintBytes(p.subrange(pc + 5, pc + 5 + len)),
                            ),
                            moved(s, st, pc + 5 + len),
                        )
                    } else {
                        (StepView::Error(MachineError::UnexpectedEndOfFile), s)
                    }
                } else {
                    (StepView::Error(MachineError::MissingPrintLength), s)
                },
                Opcode::Jump => if pc + 5 <= p.len() {
                    (StepView::Continue, moved(s, st, (word_at(p, pc + 1) as usize) as int))
                } else {
                    (StepView::Error(MachineError::MissingJumpAddress), s)
                },
                Opcode::Jez => if pc + 5 > p.len() {
                    (StepView::Error(MachineError::MissingBranchAddress), s)
                } else if n == 0 {
                    (StepView::Error(MachineError::StackTooShortBranch), s)
                } else {
                    let target = (word_at(p, pc + 1) as usize) as int;
                    (
                        StepView::Continue,
                        moved(s, st.drop_last(), if st[n - 1] == 0 { target } else { pc + 5 }),
                    )
                },
                Opcode::Jeq | Opcode::Jgt | Opcode::Jlt | Opcode::Jge | Opcode::Jle => if pc
                    + 5 > p.len() {
                    (StepView::Error(MachineError::MissingBranchAddress), s)
                } else if n == 0 {
                    (StepView::Error(MachineError::StackTooShortBranch), s)
                } else if n == 1 {
                    (StepView::Error(MachineError::UnexpectedStackUnderflow), s)
                } else {
                    let target = (word_at(p, pc + 1) as usize) as int;
                    let taken = branch_taken(op, st[n - 2], st[n - 1]);
                    (
                        StepView::Continue,
                        moved(s, st.take(n - 2), if taken { target } else { pc + 5 }),
                    )
                },
                Opcode::Store => if n == 0 {
                    (StepView::Error(MachineError::StackTooShortStore), s)
                } else {
                    let slot = p[pc + 1] as int;
                    (
                        StepView::Continue,
                        MachineView {
                            stack: st.drop_last(),
                            vars: s.vars.update(slot, st[n - 1]),
                            pc: (pc + 2) as usize,
                        },
                    )
                },
                Opcode::Load => {
                    let slot = p[pc + 1] as int;
                    (StepView::Continue, moved(s, st.push(s.vars[slot]), pc + 2))
                },
            },
        }
    }
}

/// Computes a two-operand arithmetic instruction on the value `b` below the
/// top and the top value `a`, where the result is defined and fits in `i32`.
pub fn apply_arith(op: Opcode, b: i32, a: i32) -> (r: i32)
    requires
        is_arith(op),
        (op == Opcode::Div || op == Opcode::Mod) ==> a != 0,
        op == Opcode::Mod ==> !(b == i32::MIN && a == -1),
        i32::MIN <= arith(op, b as int, a as int) <= i32::MAX,
    ensures
        r == arith(op, b as int, a as int),
{
    match op {
        Opcode::Add => a + b,
        Opcode::Sub => b - a,
        Opcode::Mul => a * b,
        Opcode::Div => {
            let q = b.checked_div(a);
            proof {
                if b == 0 {
                    assert(0int / abs(a as int) == 0) by (nonlinear_arith)
                        requires
                            abs(a as int) > 0,
                    ;
                }
            }
            assert(q == Some(trunc_div(b as int, a as int) as i32));
            q.unwrap()
        },
        _ => {
            let r = b.checked_rem(a);
            proof {
                if b == 0 {
                    assert(0int % abs(a as int) == 0) by (nonlinear_arith)
                        requires
                            abs(a as int) > 0,
                    ;
                }
            }
            assert(r == Some(trunc_rem(b as int, a as int) as i32));
            r.unwrap()
        },
    }
}

/// Whether a two-operand conditional jump is taken.
pub fn compare(op: Opcode, b: i32, a: i32) -> (r: bool)
    requires
        is_compare_jump(op),
    ensures
        r == branch_taken(op, b, a),
{
    match op {
        Opcode::Jeq => b == a,
        Opcode::Jgt => b > a,
        Opcode::Jlt => b < a,
        Opcode::Jge => b >= a,
        _ => b <= a,
    }
}

impl Machine {
    /// A machine at the start of a run: empty stack, every variable 0, and
    /// the program counter at the first byte.
    pub fn new() -> (m: Machine)
        ensures
            m@.stack == Seq::<i32>::empty(),
            m@.vars == Seq::new(256, |i: int| 0i32),
            m@.pc == 0,
    {
        let m = Machine { stack: Vec::new(), vars: [0i32; 256], pc: 0 };
        assert(m@.vars =~= Seq::new(256, |i: int| 0i32));
        m
    }

    /// How the next instruction would make the host panic, if it would;
    /// `step` may be called exactly when this is `None`.
    pub fn fault(&self, program: &Vec<u8>) -> (r: Option<Fault>)
        requires
            program@.len() <= isize::MAX,
        ensures
            r == fault_of(self@, program@),
    {
        let pc = self.pc;
        let n = self.stack.len();
        if pc >= program.len() {
            return None;
        }
        match Opcode::from_u8(program[pc]) {
            Some(op) => {
                if (op == Opcode::Add || op == Opcode::Sub || op == Opcode::Mul || op
                    == Opcode::Div || op == Opcode::Mod) && n >= 2 {
                    let a = self.stack[n - 1];
                    let b = self.stack[n - 2];
                    if (op == Opcode::Div || op == Opcode::Mod) && a == 0 {
                        if op == Opcode::Div {
                            Some(Fault::DivideByZero)
                        } else {
                            Some(Fault::RemainderByZero)
                        }
                    } else if op == Opcode::Mod && b == i32::MIN && a == -1 {
                        Some(Fault::RemainderOverflow)
                    } else {
                        match op {
                            Opcode::Add => match b.checked_add(a) {
                                Some(_) => None,
                                None => Some(Fault::AddOverflow),
                            },
                            Opcode::Sub => match b.checked_sub(a) {
                                Some(_) => None,
                                None => Some(Fault::SubOverflow),
                            },
                            Opcode::Mul => match b.checked_mul(a) {
                                Some(_) => None,
                                None => Some(Fault::MulOverflow),
                            },
                            Opcode::Div => if b == i32::MIN && a == -1 {
                                Some(Fault::DivideOverflow)
                            } else {
                                proof { lemma_trunc_div_in_range(b as int, a as int); }
                                None
                            },
                            _ => {
                                proof { lemma_trunc_rem_in_range(b as int, a as int); }
                                None
                            },
                        }
                    }
                } else if (op == Opcode::Char || op == Opcode::Store || op == Opcode::Load)
                    && pc + 1 >= program.len() {
                    Some(Fault::OperandPastEnd)
                } else if op == Opcode::Print && program.len() - pc >= 5 {
                    let len = #[verifier::truncate] (read_word(program, pc + 1) as usize);
                    if len > usize::MAX - (pc + 5) {
                        Some(Fault::PrintLengthOverflow)
                    } else {
                        None
                    }
                } else {
                    None
                }
            },
            None => None,
        }
    }
}

impl Machine {
    /// Executes the instruction at the program counter.
    ///
    /// The result and the new state are exactly those of `step_spec`: past
    /// the end of the program the step reports `Halted`; an instruction that
    /// cannot run reports its `Error`; both leave the machine as it was.
    /// `program` must be a length a `Vec<u8>` can have, and the instruction
    /// must not be one that makes the host panic (see `fault`).
    pub fn step(&mut self, program: &Vec<u8>) -> (r: Step)
        requires
            program@.len() <= isize::MAX,
            fault_of(old(self)@, program@) is None,
        ensures
            (r@, final(self)@) == step_spec(old(self)@, program@),
    {
        let pc = self.pc;
        let len = program.len();
        if pc >= len {
            return Step::Halted;
        }
        let n = self.stack.len();
        match Opcode::from_u8(program[pc]) {
            None => Step::Error(MachineError::UnrecognizedBytecode),
            Some(op) => match op {
                Opcode::Push => {
                    if len - pc >= 5 {
                        let v = read_word(program, pc + 1);
                        self.stack.push(v);
                        self.pc = pc + 5;
                        Step::Continue
                    } else {
                        Step::Error(MachineError::MalformedPush)
                    }
                },
                Opcode::Pop => {
                    self.stack.pop();
                    self.pc = pc + 1;
                    Step::Continue
                },
                Opcode::Top => {
                    if n == 0 {
                        Step::Error(MachineError::StackUnderflow)
                    } else {
                        let v = self.stack[n - 1];
                        self.pc = pc + 1;
                        Step::Output(Effect::PrintInt(v))
                    }
                },
                Opcode::Add | Opcode::Sub | Opcode::Mul | Opcode::Div | Opcode::Mod => {
                    if n >= 2 {
                        let a = self.stack[n - 1];
                        let b = self.stack[n - 2];
                        let r = apply_arith(op, b, a);
                        self.stack.truncate(n - 2);
                        self.stack.push(r);
                        self.pc = pc + 1;
                        Step::Continue
                    } else {
                        Step::Error(
                            match op {
                                Opcode::Add => MachineError::StackTooShortAdd,
                                Opcode::Sub => MachineError::StackTooShortSub,
                                Opcode::Mul => MachineError::StackTooShortMul,
                                Opcode::Div => MachineError::StackTooShortDiv,
                                _ => MachineError::StackTooShortMod,
                            },
                        )
                    }
                },
                Opcode::Char => self.run_char(program),
                Opcode::Print => self.run_print(program),
                Opcode::Jump => {
                    if len - pc >= 5 {
                        let target = #[verifier::truncate] (read_word(program, pc + 1) as usize);
                        self.pc = target;
                        Step::Continue
                    } else {
                        Step::Error(MachineError::MissingJumpAddress)
                    }
                },
                Opcode::Jez => {
                    if len - pc < 5 {
                        Step::Error(MachineError::MissingBranchAddress)
                    } else if n == 0 {
                        Step::Error(MachineError::StackTooShortBranch)
                    } else {
                        let target = #[verifier::truncate] (read_word(program, pc + 1) as usize);
                        let x = self.stack[n - 1];
                        self.stack.pop();
                        self.pc = if x == 0 { target } else { pc + 5 };
                        Step::Continue
                    }
                },
                Opcode::Jeq | Opcode::Jgt | Opcode::Jlt | Opcode::Jge | Opcode::Jle => {
                    if len - pc < 5 {
                        Step::Error(MachineError::MissingBranchAddress)
                    } else if n == 0 {
                        Step::Error(MachineError::StackTooShortBranch)
                    } else if n == 1 {
                        Step::Error(MachineError::UnexpectedStackUnderflow)
                    } else {
                        let target = #[verifier::truncate] (read_word(program, pc + 1) as usize);
                        let a = self.stack[n - 1];
                        let b = self.stack[n - 2];
                        self.stack.truncate(n - 2);
                        self.pc = if compare(op, b, a) { target } else { pc + 5 };
                        Step::Continue
                    }
                },
                Opcode::Store => {
                    let slot = program[pc + 1] as usize;
                    if n == 0 {
                        Step::Error(MachineError::StackTooShortStore)
                    } else {
                        let v = self.stack[n - 1];
                        self.stack.pop();
                        self.vars[slot] = v;
                        self.pc = pc + 2;
                        Step::Continue
                    }
                },
                Opcode::Load => {
                    let slot = program[pc + 1] as usize;
                    let v = self.vars[slot];
                    self.stack.push(v);
                    self.pc = pc + 2;
                    Step::Continue
                },
            },
        }
    }

    /// `CHAR k`: shows the top `k` values, deepest first, each cut to its
    /// low byte, removes them, and moves the program counter on by `k + 1`.
    fn run_char(&mut self, program: &Vec<u8>) -> (r: Step)
        requires
            program@.len() <= isize::MAX,
            old(self).pc + 1 < program@.len(),
            decode(program@[old(self).pc as int]) == Some(Opcode::Char),
        ensures
            (r@, final(self)@) == step_spec(old(self)@, program@),
    {
        let pc = self.pc;
        let k = program[pc + 1] as usize;
        let n = self.stack.len();
        if n < k {
            return Step::Error(MachineError::StackUnderflow);
        }
        let mut shown: Vec<u8> = Vec::new();
        let mut i: usize = n - k;
        while i < n
            invariant
                n - k <= i <= n,
                n == self.stack@.len(),
                self.stack@ == old(self).stack@,
                shown@.len() == i - (n - k),
                forall|j: int|
                    0 <= j < shown@.len() ==> shown@[j] == self.stack@[n - k + j] as u8,
            decreases n - i,
        {
            let x = self.stack[i];
            shown.push(#[verifier::truncate] (x as u8));
            i = i + 1;
        }
        self.stack.truncate(n - k);
        self.pc = pc + k + 1;
        let ghost st = old(self).stack@;
        assert(shown@ =~= Seq::new(k as nat, |j: int| st[n - k + j] as u8));
        Step::Output(Effect::PrintBytes(shown))
    }

    /// `PRINT len text`: shows the `len` bytes that follow the length and
    /// moves the program counter past them.
    fn run_print(&mut self, program: &Vec<u8>) -> (r: Step)
        requires
            program@.len() <= isize::MAX,
            old(self).pc < program@.len(),
            decode(program@[old(self).pc as int]) == Some(Opcode::Print),
            fault_of(old(self)@, program@) is None,
        ensures
            (r@, final(self)@) == step_spec(old(self)@, program@),
    {
        let pc = self.pc;
        if program.len() - pc < 5 {
            return Step::Error(MachineError::MissingPrintLength);
        }
        let len = #[verifier::truncate] (read_word(program, pc + 1) as usize);
        let start = pc + 5;
        let end = start + len;
        if end > program.len() {
            return Step::Error(MachineError::UnexpectedEndOfFile);
        }
        let mut shown: Vec<u8> = Vec::new();
        let mut i: usize = start;
        while i < end
            invariant
                start <= i <= end <= program@.len(),
                shown@ =~= program@.subrange(start as int, i as int),
            decreases end - i,
        {
            shown.push(program[i]);
            i = i + 1;
        }
        self.pc = end;
        Step::Output(Effect::PrintBytes(shown))
    }
}

/// Rust's `/` stays within `i32` except for `i32::MIN / -1`.
pub proof fn lemma_trunc_div_in_range(x: int, d: int)
    requires
        i32::MIN <= x <= i32::MAX,
        i32::MIN <= d <= i32::MAX,
        d != 0,
        !(x == i32::MIN && d == -1),
    ensures
        i32::MIN <= trunc_div(x, d) <= i32::MAX,
{
    let q = abs(x) / abs(d);
    assert(0 <= q <= abs(x)) by (nonlinear_arith)
        requires
            abs(x) >= 0,
            abs(d) >= 1,
            q == abs(x) / abs(d),
    ;
    if abs(d) >= 2 {
        assert(q <= abs(x) / 2) by (nonlinear_arith)
            requires
                abs(x) >= 0,
                abs(d) >= 2,
                q == abs(x) / abs(d),
        ;
    }
}

/// Rust's `%` stays within `i32`.
pub proof fn lemma_trunc_rem_in_range(x: int, d: int)
    requires
        i32::MIN <= x <= i32::MAX,
        d != 0,
    ensures
        i32::MIN <= trunc_rem(x, d) <= i32::MAX,
{
    let r = abs(x) % abs(d);
    assert(0 <= r <= abs(x)) by (nonlinear_arith)
        requires
            abs(x) >= 0,
            abs(d) >= 1,
            r == abs(x) % abs(d),
    ;
}

} // verus!
