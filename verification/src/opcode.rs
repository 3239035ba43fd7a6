use vstd::prelude::*;

verus! {

/// The instructions of the machine. Each one is encoded by one byte,
/// `Push` by 1 up to `Load` by 19 (see `Opcode::to_u8`).
#[derive(Clone, Copy, Debug, PartialEq, Eq, Structural)]
pub enum Opcode {
    Push,
    Pop,
    Top,
    Add,
    Sub,
    Mul,
    Div,
    Mod,
    Char,
    Print,
    Jump,
    Jez,
    Jeq,
    Jgt,
    Jlt,
    Jge,
    Jle,
    Store,
    Load,
}

/// The byte that encodes `op`.
pub open spec fn opcode_byte(op: Opcode) -> u8 {
    match op {
        Opcode::Push => 1,
        Opcode::Pop => 2,
        Opcode::Top => 3,
        Opcode::Add => 4,
        Opcode::Sub => 5,
        Opcode::Mul => 6,
        Opcode::Div => 7,
        Opcode::Mod => 8,
        Opcode::Char => 9,
        Opcode::Print => 10,
        Opcode::Jump => 11,
        Opcode::Jez => 12,
        Opcode::Jeq => 13,
        Opcode::Jgt => 14,
        Opcode::Jlt => 15,
        Opcode::Jge => 16,
        Opcode::Jle => 17,
        Opcode::Store => 18,
        Opcode::Load => 19,
    }
}

/// The instruction a byte decodes to, if any.
pub open spec fn decode(byte: u8) -> Option<Opcode> {
    if byte == 1 {
        Some(Opcode::Push)
    } else if byte == 2 {
        Some(Opcode::Pop)
    } else if byte == 3 {
        Some(Opcode::Top)
    } else if byte == 4 {
        Some(Opcode::Add)
    } else if byte == 5 {
        Some(Opcode::Sub)
    } else if byte == 6 {
        Some(Opcode::Mul)
    } else if byte == 7 {
        Some(Opcode::Div)
    } else if byte == 8 {
        Some(Opcode::Mod)
    } else if byte == 9 {
        Some(Opcode::Char)
    } else if byte == 10 {
        Some(Opcode::Print)
    } else if byte == 11 {
        Some(Opcode::Jump)
    } else if byte == 12 {
        Some(Opcode::Jez)
    } else if byte == 13 {
        Some(Opcode::Jeq)
    } else if byte == 14 {
        Some(Opcode::Jgt)
    } else if byte == 15 {
        Some(Opcode::Jlt)
    } else if byte == 16 {
        Some(Opcode::Jge)
    } else if byte == 17 {
        Some(Opcode::Jle)
    } else if byte == 18 {
        Some(Opcode::Store)
    } else if byte == 19 {
        Some(Opcode::Load)
    } else {
        None
    }
}

impl Opcode {
    /// Decodes one opcode byte; bytes outside 1..=19 are not instructions.
    pub fn from_u8(byte: u8) -> (r: Option<Opcode>)
        ensures
            r == decode(byte),
    {
        match byte {
            1 => Some(Opcode::Push),
            2 => Some(Opcode::Pop),
            3 => Some(Opcode::Top),
            4 => Some(Opcode::Add),
            5 => Some(Opcode::Sub),
            6 => Some(Opcode::Mul),
            7 => Some(Opcode::Div),
            8 => Some(Opcode::Mod),
            9 => Some(Opcode::Char),
            10 => Some(Opcode::Print),
            11 => Some(Opcode::Jump),
            12 => Some(Opcode::Jez),
            13 => Some(Opcode::Jeq),
            14 => Some(Opcode::Jgt),
            15 => Some(Opcode::Jlt),
            16 => Some(Opcode::Jge),
            17 => Some(Opcode::Jle),
            18 => Some(Opcode::Store),
            19 => Some(Opcode::Load),
            _ => None,
        }
    }

    /// The byte that encodes this instruction.
    pub fn to_u8(&self) -> (r: u8)
        ensures
            r == opcode_byte(*self),
    {
        match self {
            Opcode::Push => 1,
            Opcode::Pop => 2,
            Opcode::Top => 3,
            Opcode::Add => 4,
            Opcode::Sub => 5,
            Opcode::Mul => 6,
            Opcode::Div => 7,
            Opcode::Mod => 8,
            Opcode::Char => 9,
            Opcode::Print => 10,
            Opcode::Jump => 11,
            Opcode::Jez => 12,
            Opcode::Jeq => 13,
            Opcode::Jgt => 14,
            Opcode::Jlt => 15,
            Opcode::Jge => 16,
            Opcode::Jle => 17,
            Opcode::Store => 18,
            Opcode::Load => 19,
        }
    }
}

} // verus!
