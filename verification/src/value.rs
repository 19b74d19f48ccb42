//! The values that the virtual machine computes with.

use crate::text::{hexadecimal, push_hexadecimal};
use vstd::prelude::*;
use vstd::string::*;

verus! {

/// The sign bit of a 64-bit IEEE 754 number.
pub const SIGN_BIT: u64 = 0x8000_0000_0000_0000;

/// A runtime datum. Each kind of datum is one variant, so that further kinds
/// can be added beside the numbers.
///
/// Two values are equal when they are the same variant with the same
/// payload; for numbers this is equality of bit patterns, under which a NaN
/// equals itself and the two zeros differ.
#[derive(Clone, Copy, Debug, PartialEq, Eq, Structural)]
pub enum Value {
    /// A 64-bit IEEE 754 number, held as its bit pattern.
    Number(u64),
}

impl Value {
    /// The bit pattern of a number.
    pub open spec fn bits(self) -> u64 {
        match self {
            Value::Number(bits) => bits,
        }
    }

    /// The number with the opposite sign: the same bits but for the sign bit.
    pub open spec fn negated(self) -> Value {
        if self.bits() >= SIGN_BIT {
            Value::Number((self.bits() - SIGN_BIT) as u64)
        } else {
            Value::Number((self.bits() + SIGN_BIT) as u64)
        }
    }

    /// The text of a value: `0x` and the sixteen hexadecimal digits of the
    /// bit pattern.
    pub open spec fn text(self) -> Seq<char> {
        seq!['0', 'x'] + hexadecimal(self.bits() as nat, 16)
    }

    /// The bit pattern of a number.
    pub fn to_bits(self) -> (bits: u64)
        ensures
            bits == self.bits(),
    {
        match self {
            Value::Number(bits) => bits,
        }
    }

    /// Negates a number by flipping its sign bit, which is what IEEE 754
    /// negation does to every number, the zeros, the infinities and the NaNs
    /// included.
    pub fn negate(self) -> (result: Value)
        ensures
            result == self.negated(),
    {
        let bits = self.to_bits();
        if bits >= SIGN_BIT {
            Value::Number(bits - SIGN_BIT)
        } else {
            Value::Number(bits + SIGN_BIT)
        }
    }

    /// Appends the text of the value to `out`.
    pub fn push_text(self, out: &mut String)
        ensures
            final(out)@ == old(out)@ + self.text(),
    {
        out.append("0x");
        push_hexadecimal(out, self.to_bits(), 16);
        proof {
            reveal_strlit("0x");
            assert("0x"@ =~= seq!['0', 'x']);
            assert(final(out)@ =~= old(out)@ + self.text());
        }
    }

    /// The text of the value, as the disassembler and the trace show it.
    pub fn render(self) -> (out: String)
        ensures
            out@ == self.text(),
    {
        let mut out = String::new();
        self.push_text(&mut out);
        proof {
            assert(out@ =~= self.text());
        }
        out
    }
}

/// Negating twice gives the value back.
pub proof fn lemma_negate_twice(value: Value)
    ensures
        value.negated().negated() == value,
{
}

} // verus!
