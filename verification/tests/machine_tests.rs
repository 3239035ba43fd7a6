use cola::machine::{read_word, Effect, Fault, Machine, MachineError, Step};
use cola::opcode::Opcode;

/// How a whole run ended, with everything it printed.
#[derive(Debug, PartialEq)]
enum End {
    Done(String),
    Failed(String, MachineError, usize),
    Faulted(String, Fault),
}

fn run(program: &Vec<u8>) -> End {
    let mut m = Machine::new();
    let mut out = String::new();
    for _ in 0..100_000 {
        if let Some(f) = m.fault(program) {
            return End::Faulted(out, f);
        }
        let pc = m.pc;
        match m.step(program) {
            Step::Continue => {}
            Step::Output(Effect::PrintInt(v)) => out.push_str(&format!("{}\n", v)),
            Step::Output(Effect::PrintBytes(bytes)) => {
                for b in bytes {
                    out.push(b as char);
                }
            }
            Step::Halted => return End::Done(out),
            Step::Error(e) => return End::Failed(out, e, pc),
        }
    }
    panic!("program did not stop");
}

fn push(v: i32) -> Vec<u8> {
    let mut b = vec![1u8];
    b.extend_from_slice(&v.to_le_bytes());
    b
}

fn prog(parts: &[Vec<u8>]) -> Vec<u8> {
    parts.concat()
}

#[test]
fn from_u8_decodes_every_opcode() {
    let all = [
        Opcode::Push,
        Opcode::Pop,
        Opcode::Top,
        Opcode::Add,
        Opcode::Sub,
        Opcode::Mul,
        Opcode::Div,
        Opcode::Mod,
        Opcode::Char,
        Opcode::Print,
        Opcode::Jump,
        Opcode::Jez,
        Opcode::Jeq,
        Opcode::Jgt,
        Opcode::Jlt,
        Opcode::Jge,
        Opcode::Jle,
        Opcode::Store,
        Opcode::Load,
    ];
    for (i, op) in all.iter().enumerate() {
        let byte = (i + 1) as u8;
        assert_eq!(Opcode::from_u8(byte), Some(*op));
        assert_eq!(op.to_u8(), byte);
    }
}

#[test]
fn from_u8_rejects_other_bytes() {
    assert_eq!(Opcode::from_u8(0), None);
    assert_eq!(Opcode::from_u8(20), None);
    assert_eq!(Opcode::from_u8(255), None);
}

#[test]
fn read_word_is_little_endian_twos_complement() {
    assert_eq!(read_word(&vec![1, 0, 0, 0], 0), 1);
    assert_eq!(read_word(&vec![9, 0x34, 0x12, 0, 0], 1), 0x1234);
    assert_eq!(read_word(&vec![255, 255, 255, 255], 0), -1);
    assert_eq!(read_word(&vec![0, 0, 0, 128], 0), i32::MIN);
    assert_eq!(read_word(&vec![255, 255, 255, 127], 0), i32::MAX);
}

#[test]
fn error_messages() {
    assert_eq!(MachineError::MalformedPush.message(), "malformed argument for PUSH");
    assert_eq!(MachineError::StackUnderflow.message(), "stack underflow");
    assert_eq!(MachineError::StackTooShortAdd.message(), "stack too short for ADD");
    assert_eq!(MachineError::StackTooShortSub.message(), "stack too short for SUB");
    assert_eq!(MachineError::StackTooShortMul.message(), "stack too short for MUL");
    assert_eq!(MachineError::StackTooShortDiv.message(), "stack too short for DIV");
    assert_eq!(MachineError::StackTooShortMod.message(), "stack too short for MOD");
    assert_eq!(MachineError::MissingPrintLength.message(), "missing length argument for PRINT");
    assert_eq!(MachineError::UnexpectedEndOfFile.message(), "unexpected end of file");
    assert_eq!(MachineError::MissingJumpAddress.message(), "missing jumping address for JUMP");
    assert_eq!(MachineError::MissingBranchAddress.message(), "missing jumping address for JEZ");
    assert_eq!(MachineError::StackTooShortBranch.message(), "stack too short for JEZ");
    assert_eq!(MachineError::UnexpectedStackUnderflow.message(), "unexpected stack underflow");
    assert_eq!(MachineError::StackTooShortStore.message(), "stack too short for STORE");
    assert_eq!(MachineError::UnrecognizedBytecode.message(), "unrecognized bytecode");
}

#[test]
fn new_machine_is_empty() {
    let m = Machine::new();
    assert!(m.stack.is_empty());
    assert!(m.vars.iter().all(|v| *v == 0));
    assert_eq!(m.pc, 0);
}

#[test]
fn fibonacci_program_prints_five_terms() {
    let program: Vec<u8> = vec![
        1, 0, 0, 0, 0, 18, 0, 1, 1, 0, 0, 0, 18, 1, 1, 5, 0, 0, 0, 18, 2, 19, 2, 1, 0, 0, 0, 0,
        13, 63, 0, 0, 0, 19, 0, 3, 2, 19, 0, 19, 1, 4, 19, 1, 18, 0, 18, 1, 19, 2, 1, 1, 0, 0,
        0, 5, 18, 2, 11, 21, 0, 0, 0, 1, 0, 0, 0, 0,
    ];
    assert_eq!(run(&program), End::Done("0\n1\n1\n2\n3\n".to_string()));
}

#[test]
fn equal_values_take_the_jeq_branch() {
    let program: Vec<u8> = vec![
        1, 5, 0, 0, 0, 1, 5, 0, 0, 0, 13, 21, 0, 0, 0, 10, 1, 0, 0, 0, 48, 10, 1, 0, 0, 0, 49,
    ];
    assert_eq!(run(&program), End::Done("1".to_string()));
}

#[test]
fn arithmetic_uses_second_value_as_left_operand() {
    let top = vec![3u8, 2];
    for (op, want) in [(4u8, "13\n"), (5, "7\n"), (6, "30\n"), (7, "3\n"), (8, "1\n")] {
        let program = prog(&[push(10), push(3), vec![op], top.clone()]);
        assert_eq!(run(&program), End::Done(want.to_string()));
    }
}

#[test]
fn division_rounds_toward_zero() {
    let program = prog(&[push(-7), push(2), vec![7, 3, 2], push(-7), push(2), vec![8, 3]]);
    assert_eq!(run(&program), End::Done("-3\n-1\n".to_string()));
    let program = prog(&[push(7), push(-2), vec![7, 3, 2], push(7), push(-2), vec![8, 3]]);
    assert_eq!(run(&program), End::Done("-3\n1\n".to_string()));
}

#[test]
fn pop_on_empty_stack_is_harmless() {
    let program = prog(&[vec![2, 2], push(4), vec![3]]);
    assert_eq!(run(&program), End::Done("4\n".to_string()));
}

#[test]
fn char_prints_low_bytes_deepest_first() {
    let program = prog(&[push(72), push(105 + 256), vec![9, 2]]);
    let mut m = Machine::new();
    for _ in 0..2 {
        assert_eq!(m.step(&program), Step::Continue);
    }
    assert_eq!(m.step(&program), Step::Output(Effect::PrintBytes(vec![72, 105])));
    assert!(m.stack.is_empty());
    assert_eq!(m.pc, 13);
    assert_eq!(m.step(&program), Step::Halted);
}

#[test]
fn char_advances_by_count_plus_one() {
    // `CHAR 0` moves on by one byte only, so its operand byte 0 is read next.
    let program = vec![9u8, 0];
    let mut m = Machine::new();
    assert_eq!(m.step(&program), Step::Output(Effect::PrintBytes(vec![])));
    assert_eq!(m.pc, 1);
    assert_eq!(m.step(&program), Step::Error(MachineError::UnrecognizedBytecode));
}

#[test]
fn print_shows_inline_text() {
    let program = vec![10u8, 2, 0, 0, 0, b'o', b'k', 10, 0, 0, 0, 0];
    assert_eq!(run(&program), End::Done("ok".to_string()));
}

#[test]
fn print_past_end_is_an_error() {
    let program = vec![10u8, 3, 0, 0, 0, b'o', b'k'];
    assert_eq!(run(&program), End::Failed(String::new(), MachineError::UnexpectedEndOfFile, 0));
}

#[test]
fn print_with_very_negative_length_is_an_error() {
    let mut program = vec![10u8];
    program.extend_from_slice(&i32::MIN.to_le_bytes());
    assert_eq!(run(&program), End::Failed(String::new(), MachineError::UnexpectedEndOfFile, 0));
}

#[test]
fn print_with_length_minus_one_faults() {
    let program = vec![10u8, 255, 255, 255, 255];
    assert_eq!(Machine::new().fault(&program), Some(Fault::PrintLengthOverflow));
}

#[test]
fn truncated_operands_are_errors() {
    assert_eq!(run(&vec![1, 0, 0]), End::Failed(String::new(), MachineError::MalformedPush, 0));
    assert_eq!(run(&vec![10, 0]), End::Failed(String::new(), MachineError::MissingPrintLength, 0));
    assert_eq!(run(&vec![11, 0]), End::Failed(String::new(), MachineError::MissingJumpAddress, 0));
    for op in 12u8..=17 {
        assert_eq!(
            run(&vec![op, 0, 0]),
            End::Failed(String::new(), MachineError::MissingBranchAddress, 0)
        );
    }
}

#[test]
fn stack_shortage_errors() {
    assert_eq!(run(&vec![3]), End::Failed(String::new(), MachineError::StackUnderflow, 0));
    let short = [
        (4u8, MachineError::StackTooShortAdd),
        (5, MachineError::StackTooShortSub),
        (6, MachineError::StackTooShortMul),
        (7, MachineError::StackTooShortDiv),
        (8, MachineError::StackTooShortMod),
    ];
    for (op, e) in short {
        let program = prog(&[push(1), vec![op]]);
        assert_eq!(run(&program), End::Failed(String::new(), e, 5));
    }
    let program = prog(&[push(1), vec![9, 2]]);
    assert_eq!(run(&program), End::Failed(String::new(), MachineError::StackUnderflow, 5));
    assert_eq!(
        run(&vec![12, 0, 0, 0, 0]),
        End::Failed(String::new(), MachineError::StackTooShortBranch, 0)
    );
    assert_eq!(
        run(&vec![14, 0, 0, 0, 0]),
        End::Failed(String::new(), MachineError::StackTooShortBranch, 0)
    );
    let program = prog(&[push(1), vec![15, 0, 0, 0, 0]]);
    assert_eq!(
        run(&program),
        End::Failed(String::new(), MachineError::UnexpectedStackUnderflow, 5)
    );
    assert_eq!(
        run(&vec![18, 0]),
        End::Failed(String::new(), MachineError::StackTooShortStore, 0)
    );
    assert_eq!(
        run(&vec![0]),
        End::Failed(String::new(), MachineError::UnrecognizedBytecode, 0)
    );
}

#[test]
fn refused_step_changes_nothing() {
    let program = prog(&[push(1), vec![4]]);
    let mut m = Machine::new();
    m.step(&program);
    assert_eq!(m.step(&program), Step::Error(MachineError::StackTooShortAdd));
    assert_eq!(m.stack, vec![1]);
    assert_eq!(m.pc, 5);
}

#[test]
fn output_before_an_error_is_kept() {
    let program = prog(&[push(9), vec![3, 2, 3]]);
    assert_eq!(
        run(&program),
        End::Failed("9\n".to_string(), MachineError::StackUnderflow, 7)
    );
}

#[test]
fn faults_are_reported_before_the_step() {
    let cases = [
        (push(i32::MAX), push(1), 4u8, Fault::AddOverflow),
        (push(i32::MIN), push(1), 5, Fault::SubOverflow),
        (push(65536), push(65536), 6, Fault::MulOverflow),
        (push(1), push(0), 7, Fault::DivideByZero),
        (push(i32::MIN), push(-1), 7, Fault::DivideOverflow),
        (push(1), push(0), 8, Fault::RemainderByZero),
        (push(i32::MIN), push(-1), 8, Fault::RemainderOverflow),
    ];
    for (x, y, op, f) in cases {
        let program = prog(&[x, y, vec![op]]);
        assert_eq!(run(&program), End::Faulted(String::new(), f));
    }
    for op in [9u8, 18, 19] {
        assert_eq!(run(&vec![op]), End::Faulted(String::new(), Fault::OperandPastEnd));
    }
}

#[test]
fn jumps_follow_their_conditions() {
    // For each comparison: push b, push a, jump to the PRINT of "y" if taken.
    let cases = [(13u8, 2, 2, "y"), (14, 3, 2, "y"), (14, 2, 3, "n"), (15, 2, 3, "y"),
        (16, 2, 2, "y"), (16, 1, 2, "n"), (17, 2, 2, "y"), (17, 3, 2, "n")];
    for (op, b, a, want) in cases {
        let mut program = prog(&[push(b), push(a)]);
        // 10: op target; 15: PRINT "n"; 21: JUMP end; 26: PRINT "y"; 32: end
        program.extend_from_slice(&[op, 26, 0, 0, 0]);
        program.extend_from_slice(&[10, 1, 0, 0, 0, b'n']);
        program.extend_from_slice(&[11, 32, 0, 0, 0]);
        program.extend_from_slice(&[10, 1, 0, 0, 0, b'y']);
        assert_eq!(run(&program), End::Done(want.to_string()), "op {}", op);
    }
}

#[test]
fn jez_jumps_on_zero_only() {
    let program = prog(&[push(0), vec![12, 11, 0, 0, 0, 0], push(1), vec![12, 0, 0, 0, 0, 3]]);
    // first JEZ jumps over the 0 byte; second pops 1 and falls through to TOP
    // on an empty stack.
    assert_eq!(
        run(&program),
        End::Failed(String::new(), MachineError::StackUnderflow, 21)
    );
}

#[test]
fn negative_jump_target_ends_the_run() {
    let program = vec![11u8, 255, 255, 255, 255, 0];
    assert_eq!(run(&program), End::Done(String::new()));
}

#[test]
fn store_then_load_gives_the_value_back() {
    let program = prog(&[push(42), vec![18, 7, 19, 7, 3]]);
    let mut m = Machine::new();
    m.step(&program);
    m.step(&program);
    assert_eq!(m.vars[7], 42);
    assert!(m.stack.is_empty());
    m.step(&program);
    assert_eq!(m.stack, vec![42]);
    assert_eq!(m.pc, 9);
    assert_eq!(m.step(&program), Step::Output(Effect::PrintInt(42)));
}

#[test]
fn pop_undoes_push() {
    let program = prog(&[push(5), push(-9), vec![2]]);
    let mut m = Machine::new();
    m.step(&program);
    m.step(&program);
    assert_eq!(m.stack, vec![5, -9]);
    m.step(&program);
    assert_eq!(m.stack, vec![5]);
    assert_eq!(m.pc, 11);
}

#[test]
fn halted_machine_stays_put() {
    let program = vec![2u8];
    let mut m = Machine::new();
    m.step(&program);
    assert_eq!(m.step(&program), Step::Halted);
    assert_eq!(m.step(&program), Step::Halted);
    assert_eq!(m.pc, 1);
}

#[test]
fn stack_below_operands_is_untouched() {
    let program = prog(&[push(1), push(2), push(3), vec![4]]);
    let mut m = Machine::new();
    for _ in 0..4 {
        m.step(&program);
    }
    assert_eq!(m.stack, vec![1, 5]);
}
