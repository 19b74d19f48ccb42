//! The chunk: bytecode, the source line of each byte, and the constant pool.

use crate::common::Opcode;
use crate::text::{decimal, push_decimal, push_decimal_aligned, right_aligned};
use crate::value::Value;
use std::collections::HashMap;
use vstd::prelude::*;
use vstd::string::*;

verus! {

broadcast use vstd::std_specs::hash::group_hash_axioms;

/// The most constants that one chunk holds: an instruction names a constant
/// by one byte.
pub const MAX_CONSTANTS: usize = 256;

/// Why a chunk refused what the compiler asked of it.
#[derive(Clone, Copy, Debug, PartialEq, Eq, Structural)]
pub enum ChunkError {
    /// The constant pool is full.
    TooManyConstants,
    /// The index of a constant does not fit in the one byte of an operand.
    ConstantIndexTooLarge(usize),
}

/// What the bytes at one offset of the code say.
#[derive(Clone, Copy, Debug, PartialEq, Eq, Structural)]
pub enum Decoded {
    /// An instruction without operands.
    Simple(Opcode),
    /// The instruction that loads the constant at `index`, which is `value`.
    Constant { index: u8, value: Value },
    /// A `Constant` opcode whose operand is no index into the pool.
    BadConstant { index: u8 },
    /// A `Constant` opcode at the end of the code, where its operand is
    /// missing.
    MissingOperand,
    /// A byte that is no opcode.
    InvalidOpcode(u8),
}

/// One entry of a listing: what was decoded at `offset`, and the source line
/// of the byte there.
#[derive(Clone, Copy, Debug, PartialEq, Eq, Structural)]
pub struct Instruction {
    pub offset: usize,
    pub line: usize,
    pub decoded: Decoded,
}

impl Instruction {
    /// The text of the entry: the offset in four digits, the line in a field
    /// of four characters, and the instruction or what is wrong with it. A
    /// constant is shown with its index and its value.
    pub open spec fn text(self) -> Seq<char> {
        let head = right_aligned(decimal(self.offset as nat), 4, '0') + " "@ + right_aligned(
            decimal(self.line as nat),
            4,
            ' ',
        ) + " "@;
        match self.decoded {
            Decoded::Simple(opcode) => head + opcode.name(),
            Decoded::Constant { index, value } => head + Opcode::Constant.name() + " Idx "@
                + decimal(index as nat) + " Value "@ + value.text(),
            Decoded::BadConstant { index } => head + "Failed to convert data "@ + decimal(
                index as nat,
            ) + " at offset "@ + decimal((self.offset + 1) as nat) + " into constant index"@,
            Decoded::MissingOperand => head + "Missing operand at offset "@ + decimal(
                (self.offset + 1) as nat,
            ),
            Decoded::InvalidOpcode(byte) => head + "Invalid opcode "@ + right_aligned(
                decimal(byte as nat),
                4,
                '0',
            ),
        }
    }

    /// Renders the entry as one line of a listing, without a line break.
    pub fn render(&self) -> (out: String)
        requires
            self.offset < usize::MAX,
        ensures
            out@ == self.text(),
    {
        let mut out = String::new();
        push_decimal_aligned(&mut out, self.offset, 4, true);
        out.append(" ");
        push_decimal_aligned(&mut out, self.line, 4, false);
        out.append(" ");
        let ghost head = out@;
        assert(head =~= right_aligned(decimal(self.offset as nat), 4, '0') + " "@ + right_aligned(
            decimal(self.line as nat),
            4,
            ' ',
        ) + " "@);
        match self.decoded {
            Decoded::Simple(opcode) => {
                out.append(opcode.as_str());
            },
            Decoded::Constant { index, value } => {
                out.append(Opcode::Constant.as_str());
                out.append(" Idx ");
                push_decimal(&mut out, index as usize);
                out.append(" Value ");
                value.push_text(&mut out);
                assert(out@ =~= head + Opcode::Constant.name() + " Idx "@ + decimal(index as nat)
                    + " Value "@ + value.text());
            },
            Decoded::BadConstant { index } => {
                out.append("Failed to convert data ");
                push_decimal(&mut out, index as usize);
                out.append(" at offset ");
                push_decimal(&mut out, self.offset + 1);
                out.append(" into constant index");
                assert(out@ =~= head + "Failed to convert data "@ + decimal(index as nat)
                    + " at offset "@ + decimal((self.offset + 1) as nat)
                    + " into constant index"@);
            },
            Decoded::MissingOperand => {
                out.append("Missing operand at offset ");
                push_decimal(&mut out, self.offset + 1);
                assert(out@ =~= head + "Missing operand at offset "@ + decimal(
                    (self.offset + 1) as nat,
                ));
            },
            Decoded::InvalidOpcode(byte) => {
                out.append("Invalid opcode ");
                push_decimal_aligned(&mut out, byte as usize, 4, true);
                assert(out@ =~= head + "Invalid opcode "@ + right_aligned(
                    decimal(byte as nat),
                    4,
                    '0',
                ));
            },
        }
        out
    }
}

/// The text of the entries of a listing, one line each.
pub open spec fn lines_text(entries: Seq<Instruction>) -> Seq<char>
    decreases entries.len(),
{
    if entries.len() == 0 {
        Seq::empty()
    } else {
        entries[0].text() + "\n"@ + lines_text(entries.drop_first())
    }
}

/// A chunk as contracts see it: the bytes of the code, for each byte the
/// source line it was written for, and the constants in the order in which
/// they were added.
pub struct ChunkView {
    pub code: Seq<u8>,
    pub lines: Seq<usize>,
    pub constants: Seq<Value>,
}

impl ChunkView {
    /// The chunk that holds nothing.
    pub open spec fn empty() -> ChunkView {
        ChunkView { code: Seq::empty(), lines: Seq::empty(), constants: Seq::empty() }
    }

    /// What holds of every chunk: each byte has its line, and the pool holds
    /// no more than `MAX_CONSTANTS` constants.
    pub open spec fn wf(self) -> bool {
        &&& self.lines.len() == self.code.len()
        &&& self.constants.len() <= MAX_CONSTANTS
    }

    /// The chunk with one more byte, written for `line`.
    pub open spec fn write(self, byte: u8, line: usize) -> ChunkView {
        ChunkView { code: self.code.push(byte), lines: self.lines.push(line), ..self }
    }

    /// The chunk with one more constant.
    pub open spec fn with_constant(self, value: Value) -> ChunkView {
        ChunkView { constants: self.constants.push(value), ..self }
    }

    /// The chunk with one more instruction that loads the constant at
    /// `index`: the opcode and the index, both written for `line`.
    pub open spec fn write_constant(self, index: u8, line: usize) -> ChunkView {
        self.write(Opcode::Constant.byte(), line).write(index, line)
    }

    /// What the bytes at `offset` say.
    ///
    /// A byte that is no opcode is reported as such. A `Constant` opcode
    /// takes the next byte as its operand: it is decoded with the constant
    /// that the operand names, or reported if the operand is missing or
    /// names no constant of the pool.
    pub open spec fn decode(self, offset: int) -> Decoded {
        match Opcode::decode(self.code[offset]) {
            None => Decoded::InvalidOpcode(self.code[offset]),
            Some(Opcode::Constant) => if offset + 1 >= self.code.len() {
                Decoded::MissingOperand
            } else if self.code[offset + 1] < self.constants.len() {
                Decoded::Constant {
                    index: self.code[offset + 1],
                    value: self.constants[self.code[offset + 1] as int],
                }
            } else {
                Decoded::BadConstant { index: self.code[offset + 1] }
            },
            Some(opcode) => Decoded::Simple(opcode),
        }
    }

    /// The offset of the instruction after the one at `offset`: two bytes on
    /// behind a `Constant` opcode with its operand, one byte on behind
    /// anything else.
    pub open spec fn next_offset(self, offset: int) -> int {
        match self.decode(offset) {
            Decoded::Constant { .. } | Decoded::BadConstant { .. } => offset + 2,
            _ => offset + 1,
        }
    }

    /// Where a walk over the code that starts at `offset` ends, going from
    /// each instruction to the one behind it.
    pub open spec fn walk_end(self, offset: int) -> int
        decreases self.code.len() - offset,
    {
        if 0 <= offset < self.code.len() {
            self.walk_end(self.next_offset(offset))
        } else {
            offset
        }
    }

    /// The entry of a listing for the instruction at `offset`.
    pub open spec fn instruction(self, offset: int) -> Instruction {
        Instruction {
            offset: offset as usize,
            line: self.lines[offset],
            decoded: self.decode(offset),
        }
    }

    /// The entries of a listing of the code from `offset` on: one for each
    /// instruction that a walk from `offset` meets.
    pub open spec fn listing(self, offset: int) -> Seq<Instruction>
        decreases self.code.len() - offset,
    {
        if 0 <= offset < self.code.len() {
            seq![self.instruction(offset)] + self.listing(self.next_offset(offset))
        } else {
            Seq::empty()
        }
    }

    /// The listing of the whole chunk as text: a heading with `name`, the
    /// lines of the entries, and a closing line.
    pub open spec fn disassembly(self, name: Seq<char>) -> Seq<char> {
        "== "@ + name + " ==\n"@ + lines_text(self.listing(0)) + "====\n"@
    }
}

/// Bytecode that only grows: instructions, the source line of each of their
/// bytes, and the pool of constants that the instructions refer to.
#[derive(Debug, PartialEq, Eq)]
pub struct Chunk {
    code: Vec<u8>,
    lines: HashMap<usize, usize>,
    constants: Vec<Value>,
}

impl View for Chunk {
    type V = ChunkView;

    closed spec fn view(&self) -> ChunkView {
        ChunkView {
            code: self.code@,
            lines: Seq::new(self.code@.len(), |offset: int| self.lines@[offset as usize]),
            constants: self.constants@,
        }
    }
}

impl Chunk {
    /// The invariant of a chunk: the line map has an entry for each offset
    /// of the code, and the pool is within its limit.
    pub closed spec fn wf(&self) -> bool {
        &&& forall|offset: usize| offset < self.code@.len() ==> self.lines@.contains_key(offset)
        &&& self.constants@.len() <= MAX_CONSTANTS
    }

    /// A chunk that meets its invariant has a view that meets its own.
    pub proof fn lemma_wf(&self)
        requires
            self.wf(),
        ensures
            self@.wf(),
    {
    }

    /// An empty chunk.
    pub fn new() -> (chunk: Chunk)
        ensures
            chunk.wf(),
            chunk@ == ChunkView::empty(),
    {
        let chunk = Chunk { code: Vec::new(), lines: HashMap::new(), constants: Vec::new() };
        assert(chunk@.lines =~= Seq::empty());
        chunk
    }

    /// Appends the byte of `opcode`, written for `line`.
    pub fn write_opcode(&mut self, opcode: Opcode, line: usize)
        requires
            old(self).wf(),
        ensures
            final(self).wf(),
            final(self)@ == old(self)@.write(opcode.byte(), line),
    {
        self.write_byte(opcode.to_byte(), line);
    }

    /// Appends one byte, written for `line`.
    pub fn write_byte(&mut self, byte: u8, line: usize)
        requires
            old(self).wf(),
        ensures
            final(self).wf(),
            final(self)@ == old(self)@.write(byte, line),
    {
        self.lines.insert(self.code.len(), line);
        self.code.push(byte);
        assert(self@.lines =~= old(self)@.lines.push(line));
    }

    /// Adds a constant to the pool and returns its index.
    ///
    /// Fails, and leaves the chunk as it is, if the pool already holds
    /// `MAX_CONSTANTS` constants.
    pub fn add_constant(&mut self, value: Value) -> (result: Result<usize, ChunkError>)
        requires
            old(self).wf(),
        ensures
            final(self).wf(),
            match result {
                Ok(index) => {
                    &&& old(self)@.constants.len() < MAX_CONSTANTS
                    &&& index == old(self)@.constants.len()
                    &&& final(self)@ == old(self)@.with_constant(value)
                },
                Err(error) => {
                    &&& old(self)@.constants.len() >= MAX_CONSTANTS
                    &&& error == ChunkError::TooManyConstants
                    &&& final(self)@ == old(self)@
                },
            },
    {
        if self.constants.len() >= MAX_CONSTANTS {
            return Err(ChunkError::TooManyConstants);
        }
        self.constants.push(value);
        assert(self@.lines =~= old(self)@.lines);
        Ok(self.constants.len() - 1)
    }

    /// Appends the instruction that loads the constant at `constant_index`:
    /// the `Constant` opcode and the index as its operand, both written for
    /// `line`.
    ///
    /// Fails, and leaves the chunk as it is, if the index does not fit in
    /// one byte.
    pub fn write_constant(&mut self, constant_index: usize, line: usize) -> (result: Result<
        (),
        ChunkError,
    >)
        requires
            old(self).wf(),
        ensures
            final(self).wf(),
            match result {
                Ok(_) => {
                    &&& constant_index <= u8::MAX
                    &&& final(self)@ == old(self)@.write_constant(constant_index as u8, line)
                },
                Err(error) => {
                    &&& constant_index > u8::MAX
                    &&& error == ChunkError::ConstantIndexTooLarge(constant_index)
                    &&& final(self)@ == old(self)@
                },
            },
    {
        if constant_index > 255 {
            return Err(ChunkError::ConstantIndexTooLarge(constant_index));
        }
        self.write_opcode(Opcode::Constant, line);
        self.write_byte(constant_index as u8, line);
        Ok(())
    }

    /// The bytes of the code.
    pub fn code(&self) -> (code: &Vec<u8>)
        ensures
            code@ == self@.code,
    {
        &self.code
    }

    /// The constants of the pool.
    pub fn constants(&self) -> (constants: &Vec<Value>)
        ensures
            constants@ == self@.constants,
    {
        &self.constants
    }

    /// The source line that the byte at `offset` was written for; `None`
    /// past the end of the code.
    pub fn line_at(&self, offset: usize) -> (line: Option<usize>)
        requires
            self.wf(),
        ensures
            line == if offset < self@.code.len() {
                Some(self@.lines[offset as int])
            } else {
                None
            },
    {
        if offset < self.code.len() {
            match self.lines.get(&offset) {
                Some(line) => Some(*line),
                None => None,
            }
        } else {
            None
        }
    }
}

impl Default for Chunk {
    /// An empty chunk.
    fn default() -> (chunk: Chunk)
        ensures
            chunk.wf(),
            chunk@ == ChunkView::empty(),
    {
        Chunk::new()
    }
}

// Disassembly.
impl Chunk {
    /// The entries of a listing of the whole chunk: one for each instruction
    /// that a walk from offset zero meets.
    pub fn instructions(&self) -> (entries: Vec<Instruction>)
        requires
            self.wf(),
        ensures
            entries@ == self@.listing(0),
    {
        let mut entries: Vec<Instruction> = Vec::new();
        let mut offset: usize = 0;
        while offset < self.code.len()
            invariant
                self.wf(),
                offset <= self.code@.len(),
                self@.listing(0) == entries@ + self@.listing(offset as int),
            decreases self.code@.len() - offset,
        {
            let (instruction, next) = self.disassemble_instruction(offset);
            entries.push(instruction);
            proof {
                assert(entries@ + self@.listing(next as int) =~= self@.listing(0));
            }
            offset = next;
        }
        proof {
            assert(entries@ =~= self@.listing(0));
        }
        entries
    }

    /// Renders the whole chunk as text: a heading with `name`, one line for
    /// each instruction from offset zero on, and a closing line.
    pub fn disassemble(&self, name: &str) -> (out: String)
        requires
            self.wf(),
        ensures
            out@ == self@.disassembly(name@),
    {
        let mut out = String::new();
        out.append("== ");
        out.append(name);
        out.append(" ==\n");
        let ghost heading = out@;
        let mut offset: usize = 0;
        while offset < self.code.len()
            invariant
                self.wf(),
                offset <= self.code@.len(),
                heading + lines_text(self@.listing(0)) == out@ + lines_text(
                    self@.listing(offset as int),
                ),
            decreases self.code@.len() - offset,
        {
            let (instruction, next) = self.disassemble_instruction(offset);
            let line = instruction.render();
            out.append(line.as_str());
            out.append("\n");
            proof {
                let rest = self@.listing(next as int);
                assert((seq![instruction] + rest).drop_first() =~= rest);
                assert(out@ + lines_text(rest) =~= heading + lines_text(self@.listing(0)));
            }
            offset = next;
        }
        out.append("====\n");
        proof {
            assert(heading =~= "== "@ + name@ + " ==\n"@);
            assert(out@ =~= self@.disassembly(name@));
        }
        out
    }

    /// Decodes the instruction at `offset` and returns its entry for a
    /// listing together with the offset of the instruction behind it.
    ///
    /// The offset returned lies behind `offset` and not behind the end of
    /// the code, whatever the bytes are, so a walk from offset zero ends. A
    /// byte that is no opcode is stepped over alone.
    pub fn disassemble_instruction(&self, offset: usize) -> (result: (Instruction, usize))
        requires
            self.wf(),
            offset < self@.code.len(),
        ensures
            result.0 == self@.instruction(offset as int),
            result.1 == self@.next_offset(offset as int),
            offset < result.1 <= self@.code.len(),
            Opcode::decode(self@.code[offset as int]) is None ==> result.1 == offset + 1,
    {
        let len = self.code.len();
        let line = match self.lines.get(&offset) {
            Some(line) => *line,
            None => 0,
        };
        let (decoded, next) = match Opcode::from_byte(self.code[offset]) {
            None => (Decoded::InvalidOpcode(self.code[offset]), offset + 1),
            Some(Opcode::Constant) => self.constant_instruction(offset),
            Some(instruction) => Self::simple_instruction(instruction, offset),
        };
        (Instruction { offset, line, decoded }, next)
    }

    /// An instruction of one byte.
    fn simple_instruction(instruction: Opcode, offset: usize) -> (result: (Decoded, usize))
        requires
            offset < usize::MAX,
        ensures
            result == (Decoded::Simple(instruction), (offset + 1) as usize),
    {
        (Decoded::Simple(instruction), offset + 1)
    }

    /// The instruction that loads a constant: its operand is checked
    /// against the pool before the constant is looked up.
    fn constant_instruction(&self, offset: usize) -> (result: (Decoded, usize))
        requires
            offset < self.code@.len(),
            self.code@[offset as int] == Opcode::Constant.byte(),
        ensures
            result.0 == self@.decode(offset as int),
            result.1 == self@.next_offset(offset as int),
            offset < result.1 <= self.code@.len(),
    {
        let len = self.code.len();
        if offset + 1 >= len {
            return (Decoded::MissingOperand, offset + 1);
        }
        let index = self.code[offset + 1];
        if (index as usize) < self.constants.len() {
            (Decoded::Constant { index, value: self.constants[index as usize] }, offset + 2)
        } else {
            (Decoded::BadConstant { index }, offset + 2)
        }
    }
}

/// A walk over the code always moves on and never leaves the code: the
/// instruction behind the one at `offset` starts after `offset` and at or
/// before the end, whatever the bytes are. Behind a byte that is no opcode
/// it starts at the next byte.
pub proof fn lemma_next_offset(chunk: ChunkView, offset: int)
    requires
        0 <= offset < chunk.code.len(),
    ensures
        offset < chunk.next_offset(offset) <= chunk.code.len(),
        Opcode::decode(chunk.code[offset]) is None ==> chunk.next_offset(offset) == offset + 1,
{
}

/// A walk over the code reaches the end of the code, and ends there: from
/// any offset inside the code, whatever the bytes are, going from
/// instruction to instruction leads to the offset just behind the last
/// byte.
pub proof fn lemma_walk_reaches_end(chunk: ChunkView, offset: int)
    requires
        0 <= offset <= chunk.code.len(),
    ensures
        chunk.walk_end(offset) == chunk.code.len(),
    decreases chunk.code.len() - offset,
{
    if offset < chunk.code.len() {
        lemma_next_offset(chunk, offset);
        lemma_walk_reaches_end(chunk, chunk.next_offset(offset));
    }
}

/// The chunk that has been given each of `values` in turn, every one added
/// to the pool and then loaded by an instruction written for the line that
/// `lines` holds at the same place.
pub open spec fn constants_chunk(values: Seq<Value>, lines: Seq<usize>) -> ChunkView
    decreases values.len(),
{
    if values.len() == 0 {
        ChunkView::empty()
    } else {
        constants_chunk(values.drop_last(), lines.drop_last()).with_constant(
            values.last(),
        ).write_constant((values.len() - 1) as u8, lines.last())
    }
}

/// The entry of a listing that shows the `i`-th of `values` being loaded.
pub open spec fn constant_entry(values: Seq<Value>, lines: Seq<usize>, i: int) -> Instruction {
    Instruction {
        offset: (2 * i) as usize,
        line: lines[i],
        decoded: Decoded::Constant { index: i as u8, value: values[i] },
    }
}

/// What `constants_chunk` holds: the values as its pool, and for the `i`-th
/// of them the `Constant` opcode at offset `2 * i` with `i` as its operand,
/// both on the line given for it.
proof fn lemma_constants_chunk(values: Seq<Value>, lines: Seq<usize>)
    requires
        values.len() <= MAX_CONSTANTS,
        lines.len() == values.len(),
    ensures
        ({
            let chunk = constants_chunk(values, lines);
            &&& chunk.constants == values
            &&& chunk.code.len() == 2 * values.len()
            &&& chunk.lines.len() == 2 * values.len()
            &&& forall|i: int|
                0 <= i < values.len() ==> {
                    &&& #[trigger] chunk.code[2 * i] == Opcode::Constant.byte()
                    &&& chunk.code[2 * i + 1] == i
                    &&& chunk.lines[2 * i] == lines[i]
                }
        }),
    decreases values.len(),
{
    if values.len() > 0 {
        lemma_constants_chunk(values.drop_last(), lines.drop_last());
        let before = constants_chunk(values.drop_last(), lines.drop_last());
        let chunk = constants_chunk(values, lines);
        assert(chunk.constants =~= values);
        assert forall|i: int| 0 <= i < values.len() implies {
            &&& #[trigger] chunk.code[2 * i] == Opcode::Constant.byte()
            &&& chunk.code[2 * i + 1] == i
            &&& chunk.lines[2 * i] == lines[i]
        } by {
            if i < values.len() - 1 {
                assert(before.code[2 * i] == Opcode::Constant.byte());
            }
        }
    } else {
        assert(constants_chunk(values, lines).constants =~= values);
    }
}

/// The listing of `constants_chunk` from the `k`-th instruction on.
proof fn lemma_constants_listing(values: Seq<Value>, lines: Seq<usize>, k: int)
    requires
        values.len() <= MAX_CONSTANTS,
        lines.len() == values.len(),
        0 <= k <= values.len(),
    ensures
        constants_chunk(values, lines).listing(2 * k) == Seq::new(
            (values.len() - k) as nat,
            |j: int| constant_entry(values, lines, k + j),
        ),
    decreases values.len() - k,
{
    let chunk = constants_chunk(values, lines);
    lemma_constants_chunk(values, lines);
    if k < values.len() {
        lemma_constants_listing(values, lines, k + 1);
        assert(chunk.code[2 * k] == Opcode::Constant.byte());
        assert(chunk.instruction(2 * k) == constant_entry(values, lines, k));
        assert(chunk.next_offset(2 * k) == 2 * (k + 1));
        assert(chunk.listing(2 * k) =~= Seq::new(
            (values.len() - k) as nat,
            |j: int| constant_entry(values, lines, k + j),
        ));
    } else {
        assert(chunk.listing(2 * k) =~= Seq::new(
            (values.len() - k) as nat,
            |j: int| constant_entry(values, lines, k + j),
        ));
    }
}

/// Constants come back as they went in: when a chunk is given any values,
/// no more than the pool can hold, each added to the pool and loaded by one
/// instruction, its listing has one entry for each value, in the order in
/// which they went in, and each entry shows its value unchanged.
pub proof fn lemma_constants_round_trip(values: Seq<Value>, lines: Seq<usize>)
    requires
        values.len() <= MAX_CONSTANTS,
        lines.len() == values.len(),
    ensures
        constants_chunk(values, lines).wf(),
        constants_chunk(values, lines).constants == values,
        constants_chunk(values, lines).listing(0) == Seq::new(
            values.len(),
            |i: int| constant_entry(values, lines, i),
        ),
{
    lemma_constants_chunk(values, lines);
    lemma_constants_listing(values, lines, 0);
    assert(Seq::new((values.len() - 0) as nat, |j: int| constant_entry(values, lines, 0 + j))
        =~= Seq::new(values.len(), |i: int| constant_entry(values, lines, i)));
}

} // verus!
