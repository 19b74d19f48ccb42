//! The instruction set: opcodes and their one-byte encoding.

use vstd::prelude::*;

verus! {

/// The arithmetic operations that take two operands.
#[derive(Clone, Copy, Debug, PartialEq, Eq, Structural)]
pub enum BinaryOp {
    Add,
    Subtract,
    Multiply,
    Divide,
}

/// A single-byte tag identifying one instruction of the virtual machine.
#[derive(Clone, Copy, Debug, PartialEq, Eq, Structural)]
pub enum Opcode {
    Return,
    Constant,
    Negate,
    Add,
    Subtract,
    Multiply,
    Divide,
}

/// The number of opcodes: every byte below it encodes one, no other byte does.
pub const OPCODE_COUNT: u8 = 7;

impl Opcode {
    /// The byte that encodes `self`.
    pub open spec fn byte(self) -> u8 {
        match self {
            Opcode::Return => 0,
            Opcode::Constant => 1,
            Opcode::Negate => 2,
            Opcode::Add => 3,
            Opcode::Subtract => 4,
            Opcode::Multiply => 5,
            Opcode::Divide => 6,
        }
    }

    /// The opcode that `byte` encodes, if any.
    pub open spec fn decode(byte: u8) -> Option<Opcode> {
        if byte == 0 {
            Some(Opcode::Return)
        } else if byte == 1 {
            Some(Opcode::Constant)
        } else if byte == 2 {
            Some(Opcode::Negate)
        } else if byte == 3 {
            Some(Opcode::Add)
        } else if byte == 4 {
            Some(Opcode::Subtract)
        } else if byte == 5 {
            Some(Opcode::Multiply)
        } else if byte == 6 {
            Some(Opcode::Divide)
        } else {
            None
        }
    }

    /// The number of operand bytes that follow the opcode byte.
    pub open spec fn operand_width(self) -> int {
        if self == Opcode::Constant {
            1
        } else {
            0
        }
    }

    /// The arithmetic operation of a two-operand opcode.
    pub open spec fn binary(self) -> Option<BinaryOp> {
        match self {
            Opcode::Add => Some(BinaryOp::Add),
            Opcode::Subtract => Some(BinaryOp::Subtract),
            Opcode::Multiply => Some(BinaryOp::Multiply),
            Opcode::Divide => Some(BinaryOp::Divide),
            _ => None,
        }
    }

    /// The name of the opcode, as listings show it.
    pub open spec fn name(self) -> Seq<char> {
        match self {
            Opcode::Return => "Return"@,
            Opcode::Constant => "Constant"@,
            Opcode::Negate => "Negate"@,
            Opcode::Add => "Add"@,
            Opcode::Subtract => "Subtract"@,
            Opcode::Multiply => "Multiply"@,
            Opcode::Divide => "Divide"@,
        }
    }

    /// The name of the opcode.
    pub fn as_str(self) -> (text: &'static str)
        ensures
            text@ == self.name(),
    {
        match self {
            Opcode::Return => "Return",
            Opcode::Constant => "Constant",
            Opcode::Negate => "Negate",
            Opcode::Add => "Add",
            Opcode::Subtract => "Subtract",
            Opcode::Multiply => "Multiply",
            Opcode::Divide => "Divide",
        }
    }

    /// Encodes the opcode as its byte.
    pub fn to_byte(self) -> (byte: u8)
        ensures
            byte == self.byte(),
            byte < OPCODE_COUNT,
    {
        match self {
            Opcode::Return => 0,
            Opcode::Constant => 1,
            Opcode::Negate => 2,
            Opcode::Add => 3,
            Opcode::Subtract => 4,
            Opcode::Multiply => 5,
            Opcode::Divide => 6,
        }
    }

    /// Decodes a byte: `Some` for the bytes below `OPCODE_COUNT`, `None` for
    /// every other byte.
    pub fn from_byte(byte: u8) -> (opcode: Option<Opcode>)
        ensures
            opcode == Opcode::decode(byte),
            opcode is Some <==> byte < OPCODE_COUNT,
            opcode matches Some(op) ==> op.byte() == byte,
    {
        match byte {
            0 => Some(Opcode::Return),
            1 => Some(Opcode::Constant),
            2 => Some(Opcode::Negate),
            3 => Some(Opcode::Add),
            4 => Some(Opcode::Subtract),
            5 => Some(Opcode::Multiply),
            6 => Some(Opcode::Divide),
            _ => None,
        }
    }

    /// The arithmetic operation of a two-operand opcode, `None` for the
    /// other opcodes.
    pub fn binary_op(self) -> (op: Option<BinaryOp>)
        ensures
            op == self.binary(),
    {
        match self {
            Opcode::Add => Some(BinaryOp::Add),
            Opcode::Subtract => Some(BinaryOp::Subtract),
            Opcode::Multiply => Some(BinaryOp::Multiply),
            Opcode::Divide => Some(BinaryOp::Divide),
            _ => None,
        }
    }
}

/// Decoding undoes encoding: every opcode is read back from its own byte.
pub proof fn lemma_decode_encode(opcode: Opcode)
    ensures
        Opcode::decode(opcode.byte()) == Some(opcode),
{
}

/// Encoding undoes decoding: a byte that decodes to an opcode is that
/// opcode's byte, so no two bytes stand for the same opcode.
pub proof fn lemma_encode_decode(byte: u8)
    ensures
        Opcode::decode(byte) matches Some(opcode) ==> opcode.byte() == byte,
        Opcode::decode(byte) is Some <==> byte < OPCODE_COUNT,
{
}

} // verus!
