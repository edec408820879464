use vstd::prelude::*;

verus! {

/// The closed set of operation codes shared by the assembler and the virtual
/// machine. Every instruction encodes to four bytes: one opcode byte followed
/// by up to three operand bytes, padded with zeros.
#[derive(Copy, Clone, Debug, PartialEq, Eq, Structural)]
pub enum Opcode {
    LOAD,
    ADD,
    SUB,
    MUL,
    DIV,
    HLT,
    IGL,
    JMP,
    EQ,
    NEQ,
    GT,
    GTE,
    LT,
    LTE,
    JMPE,
    NOP,
    ALOC,
    PRTS,
}

/// The byte emitted for an opcode in the code segment.
pub open spec fn opcode_code(op: Opcode) -> u8 {
    match op {
        Opcode::LOAD => 0,
        Opcode::ADD => 1,
        Opcode::SUB => 2,
        Opcode::MUL => 3,
        Opcode::DIV => 4,
        Opcode::HLT => 6,
        Opcode::JMP => 7,
        Opcode::EQ => 8,
        Opcode::NEQ => 9,
        Opcode::GT => 10,
        Opcode::GTE => 11,
        Opcode::LT => 12,
        Opcode::LTE => 13,
        Opcode::JMPE => 14,
        Opcode::NOP => 15,
        Opcode::ALOC => 17,
        Opcode::PRTS => 18,
        Opcode::IGL => 255,
    }
}

/// The opcode decoded from a byte; unknown bytes decode to `IGL`.
pub open spec fn opcode_of_byte(b: u8) -> Opcode {
    if b == 0 {
        Opcode::LOAD
    } else if b == 1 {
        Opcode::ADD
    } else if b == 2 {
        Opcode::SUB
    } else if b == 3 {
        Opcode::MUL
    } else if b == 4 {
        Opcode::DIV
    } else if b == 6 {
        Opcode::HLT
    } else if b == 7 {
        Opcode::JMP
    } else if b == 8 {
        Opcode::EQ
    } else if b == 9 {
        Opcode::NEQ
    } else if b == 10 {
        Opcode::GT
    } else if b == 11 {
        Opcode::GTE
    } else if b == 12 {
        Opcode::LT
    } else if b == 13 {
        Opcode::LTE
    } else if b == 14 {
        Opcode::JMPE
    } else if b == 15 {
        Opcode::NOP
    } else if b == 17 {
        Opcode::ALOC
    } else if b == 18 {
        Opcode::PRTS
    } else {
        Opcode::IGL
    }
}

/// How many operands an opcode's shape admits in source text.
pub open spec fn operand_limit(op: Opcode) -> int {
    match op {
        Opcode::LOAD => 2,
        Opcode::ADD => 3,
        Opcode::SUB => 3,
        Opcode::MUL => 3,
        Opcode::DIV => 3,
        Opcode::EQ => 3,
        Opcode::NEQ => 3,
        Opcode::GT => 3,
        Opcode::GTE => 3,
        Opcode::LT => 3,
        Opcode::LTE => 3,
        Opcode::JMP => 1,
        Opcode::JMPE => 1,
        Opcode::ALOC => 1,
        Opcode::PRTS => 1,
        Opcode::HLT => 0,
        Opcode::NOP => 0,
        Opcode::IGL => 0,
    }
}

/// Whether operand position `pos` (0-based) of an opcode expects a register.
/// A label usage may only stand in a non-register position, where it lowers
/// to a 16-bit offset.
pub open spec fn slot_is_register(op: Opcode, pos: int) -> bool {
    match op {
        Opcode::LOAD => pos == 0,
        Opcode::ADD => true,
        Opcode::SUB => true,
        Opcode::MUL => true,
        Opcode::DIV => true,
        Opcode::EQ => true,
        Opcode::NEQ => true,
        Opcode::GT => true,
        Opcode::GTE => true,
        Opcode::LT => true,
        Opcode::LTE => true,
        Opcode::JMP => pos == 0,
        Opcode::JMPE => pos == 0,
        Opcode::ALOC => pos == 0,
        Opcode::PRTS => false,
        Opcode::HLT => false,
        Opcode::NOP => false,
        Opcode::IGL => false,
    }
}

impl Opcode {
    /// The byte this opcode encodes to.
    pub fn to_byte(self) -> (b: u8)
        ensures
            b == opcode_code(self),
    {
        match self {
            Opcode::LOAD => 0,
            Opcode::ADD => 1,
            Opcode::SUB => 2,
            Opcode::MUL => 3,
            Opcode::DIV => 4,
            Opcode::HLT => 6,
            Opcode::JMP => 7,
            Opcode::EQ => 8,
            Opcode::NEQ => 9,
            Opcode::GT => 10,
            Opcode::GTE => 11,
            Opcode::LT => 12,
            Opcode::LTE => 13,
            Opcode::JMPE => 14,
            Opcode::NOP => 15,
            Opcode::ALOC => 17,
            Opcode::PRTS => 18,
            Opcode::IGL => 255,
        }
    }
}

impl From<u8> for Opcode {
    fn from(v: u8) -> (r: Opcode) {
        if v == 0 {
            Opcode::LOAD
        } else if v == 1 {
            Opcode::ADD
        } else if v == 2 {
            Opcode::SUB
        } else if v == 3 {
            Opcode::MUL
        } else if v == 4 {
            Opcode::DIV
        } else if v == 6 {
            Opcode::HLT
        } else if v == 7 {
            Opcode::JMP
        } else if v == 8 {
            Opcode::EQ
        } else if v == 9 {
            Opcode::NEQ
        } else if v == 10 {
            Opcode::GT
        } else if v == 11 {
            Opcode::GTE
        } else if v == 12 {
            Opcode::LT
        } else if v == 13 {
            Opcode::LTE
        } else if v == 14 {
            Opcode::JMPE
        } else if v == 15 {
            Opcode::NOP
        } else if v == 17 {
            Opcode::ALOC
        } else if v == 18 {
            Opcode::PRTS
        } else {
            Opcode::IGL
        }
    }
}

impl vstd::std_specs::convert::FromSpecImpl<u8> for Opcode {
    open spec fn obeys_from_spec() -> bool {
        true
    }

    open spec fn from_spec(v: u8) -> Opcode {
        opcode_of_byte(v)
    }
}

/// A decoded instruction: just its opcode. Operand bytes are read directly
/// from the program buffer by the interpreter.
#[derive(Copy, Clone, Debug, PartialEq, Eq, Structural)]
pub struct Instruction {
    pub opcode: Opcode,
}

impl Instruction {
    pub fn new(opcode: Opcode) -> (r: Instruction)
        ensures
            r.opcode == opcode,
    {
        Instruction { opcode }
    }
}

} // verus!
