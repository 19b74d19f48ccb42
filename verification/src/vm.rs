//! The virtual machine: a fetch, decode and execute loop over a chunk, with
//! an operand stack.

use crate::chunk::{Chunk, ChunkView, Instruction};
use crate::common::{BinaryOp, Opcode};
use crate::value::Value;
use vstd::prelude::*;
use vstd::string::*;

verus! {

/// What stopped a run.
#[derive(Clone, Copy, Debug, PartialEq, Eq, Structural)]
pub enum RuntimeErrorKind {
    /// An instruction needed more operands than the stack held.
    StackUnderflow,
    /// The byte at the instruction pointer is no opcode.
    UnknownOpcode(u8),
    /// The operand of a `Constant` instruction names no constant of the
    /// pool.
    ConstantOutOfRange(u8),
    /// The code ended where an opcode or an operand was to be read.
    EndOfCode,
}

/// A fatal error of a run: what went wrong, the offset of the instruction
/// at which it did, and the source line of that instruction, if the code
/// reaches that far.
#[derive(Clone, Copy, Debug, PartialEq, Eq, Structural)]
pub struct RuntimeError {
    pub kind: RuntimeErrorKind,
    pub offset: usize,
    pub line: Option<usize>,
}

/// The machine as contracts see it: the chunk it runs, whether it traces,
/// the instruction pointer, the operand stack with its top last, and the
/// text traced so far.
pub struct VmView {
    pub chunk: ChunkView,
    pub tracing: bool,
    pub ip: int,
    pub stack: Seq<Value>,
    pub trace: Seq<char>,
}

/// The text of the values of a stack, bottom first.
pub open spec fn slots_text(stack: Seq<Value>) -> Seq<char>
    decreases stack.len(),
{
    if stack.len() == 0 {
        Seq::empty()
    } else {
        slots_text(stack.drop_last()) + "[ Value "@ + stack.last().text() + "  ]"@
    }
}

/// The line that shows a stack in a trace; nothing for an empty stack.
pub open spec fn stack_text(stack: Seq<Value>) -> Seq<char> {
    if stack.len() == 0 {
        Seq::empty()
    } else {
        "Values: "@ + slots_text(stack) + "\n"@
    }
}

impl VmView {
    /// The machine at the start of a run of `chunk`.
    pub open spec fn start(chunk: ChunkView, tracing: bool) -> VmView {
        VmView { chunk, tracing, ip: 0, stack: Seq::empty(), trace: Seq::empty() }
    }

    /// The error of kind `kind` at the instruction at `offset`.
    pub open spec fn error(self, kind: RuntimeErrorKind, offset: int) -> RuntimeError {
        RuntimeError {
            kind,
            offset: offset as usize,
            line: if 0 <= offset < self.chunk.lines.len() {
                Some(self.chunk.lines[offset])
            } else {
                None
            },
        }
    }

    /// The trace with what tracing adds before the instruction at the
    /// instruction pointer runs: the line of the instruction in a listing,
    /// and the stack as it is then.
    pub open spec fn traced(self) -> Seq<char> {
        if self.tracing {
            self.trace + self.chunk.instruction(self.ip).text() + "\n"@ + stack_text(self.stack)
        } else {
            self.trace
        }
    }

    /// The arithmetic that the next instruction asks for: its operation and
    /// its two operands, the one pushed earlier first. `None` if the next
    /// instruction is no arithmetic on two operands, or if the stack holds
    /// fewer than two values.
    pub open spec fn operands(self) -> Option<(BinaryOp, Value, Value)> {
        if 0 <= self.ip < self.chunk.code.len() && self.stack.len() >= 2 {
            match Opcode::decode(self.chunk.code[self.ip]) {
                Some(opcode) => match opcode.binary() {
                    Some(op) => Some(
                        (op, self.stack[self.stack.len() - 2], self.stack[self.stack.len() - 1]),
                    ),
                    None => None,
                },
                None => None,
            }
        } else {
            None
        }
    }

    /// One instruction: the machine after it, and how the run ended if it
    /// ended here. `answer` is what the arithmetic returned that the
    /// instruction asked for, if it asked for any.
    ///
    /// At the end of the code the run fails and the machine stays as it is.
    /// Otherwise the opcode is read, and traced if the machine traces. A
    /// byte that is no opcode fails the run. `Return` pops the result of the
    /// run. `Constant` reads its operand and pushes the constant that it
    /// names; it fails the run if the operand is missing or names no
    /// constant. `Negate` replaces the top of the stack by its negation. An
    /// arithmetic instruction pops its right operand, then its left one, and
    /// pushes the answer. An instruction that finds the stack empty when it
    /// pops fails the run and pushes nothing.
    pub open spec fn step(self, answer: Value) -> (VmView, Option<Result<Value, RuntimeError>>) {
        let offset = self.ip;
        let stack = self.stack;
        let underflow = Some(Err::<Value, RuntimeError>(self.error(RuntimeErrorKind::StackUnderflow, offset)));
        if !(0 <= offset < self.chunk.code.len()) {
            (self, Some(Err(self.error(RuntimeErrorKind::EndOfCode, offset))))
        } else {
            let fetched = VmView { ip: offset + 1, trace: self.traced(), ..self };
            match Opcode::decode(self.chunk.code[offset]) {
                None => (
                    fetched,
                    Some(
                        Err(
                            self.error(
                                RuntimeErrorKind::UnknownOpcode(self.chunk.code[offset]),
                                offset,
                            ),
                        ),
                    ),
                ),
                Some(Opcode::Return) => if stack.len() == 0 {
                    (fetched, underflow)
                } else {
                    (VmView { stack: stack.drop_last(), ..fetched }, Some(Ok(stack.last())))
                },
                Some(Opcode::Constant) => if offset + 1 >= self.chunk.code.len() {
                    (fetched, Some(Err(self.error(RuntimeErrorKind::EndOfCode, offset))))
                } else if self.chunk.code[offset + 1] >= self.chunk.constants.len() {
                    (
                        VmView { ip: offset + 2, ..fetched },
                        Some(
                            Err(
                                self.error(
                                    RuntimeErrorKind::ConstantOutOfRange(
                                        self.chunk.code[offset + 1],
                                    ),
                                    offset,
                                ),
                            ),
                        ),
                    )
                } else {
                    (
                        VmView {
                            ip: offset + 2,
                            stack: stack.push(
                                self.chunk.constants[self.chunk.code[offset + 1] as int],
                            ),
                            ..fetched
                        },
                        None,
                    )
                },
                Some(Opcode::Negate) => if stack.len() == 0 {
                    (fetched, underflow)
                } else {
                    (
                        VmView {
                            stack: stack.drop_last().push(stack.last().negated()),
                            ..fetched
                        },
                        None,
                    )
                },
                Some(_) => if stack.len() == 0 {
                    (fetched, underflow)
                } else if stack.len() == 1 {
                    (VmView { stack: stack.drop_last(), ..fetched }, underflow)
                } else {
                    (
                        VmView { stack: stack.drop_last().drop_last().push(answer), ..fetched },
                        None,
                    )
                },
            }
        }
    }
}

/// Whether a run of the machine from `pre` may end with the machine as
/// `post` and with `result`, when arithmetic answers as `answers` allows:
/// `answers(op, left, right, answer)` says that `answer` may come back for
/// the operation `op` on `left` and `right`.
///
/// The run goes one instruction after the other until one of them ends it.
/// Each arithmetic instruction gets an answer that is allowed for its
/// operation and operands; nothing else is left open.
pub open spec fn runs(
    answers: spec_fn(BinaryOp, Value, Value, Value) -> bool,
    pre: VmView,
    post: VmView,
    result: Result<Value, RuntimeError>,
) -> bool
    decreases pre.chunk.code.len() - pre.ip,
{
    exists|answer: Value|
        {
            &&& pre.operands() matches Some(asked) ==> answers(asked.0, asked.1, asked.2, answer)
            &&& match (#[trigger] pre.step(answer)).1 {
                Some(ended) => post == pre.step(answer).0 && result == ended,
                None => runs(answers, pre.step(answer).0, post, result),
            }
        }
}

/// Whether a run of `chunk` from its start, on a machine that does not
/// trace, may give `result`, when arithmetic answers as `answers` allows.
pub open spec fn yields(
    answers: spec_fn(BinaryOp, Value, Value, Value) -> bool,
    chunk: ChunkView,
    result: Result<Value, RuntimeError>,
) -> bool {
    exists|post: VmView| runs(answers, VmView::start(chunk, false), post, result)
}

/// A run that goes on behind an instruction ends as the run from that
/// instruction on may end.
proof fn lemma_run_goes_on(
    answers: spec_fn(BinaryOp, Value, Value, Value) -> bool,
    start: VmView,
    pre: VmView,
    mid: VmView,
    answer: Value,
)
    requires
        forall|post: VmView, result: Result<Value, RuntimeError>| #[trigger]
            runs(answers, pre, post, result) ==> runs(answers, start, post, result),
        pre.operands() matches Some(asked) ==> answers(asked.0, asked.1, asked.2, answer),
        pre.step(answer) == (mid, None::<Result<Value, RuntimeError>>),
    ensures
        forall|post: VmView, result: Result<Value, RuntimeError>| #[trigger]
            runs(answers, mid, post, result) ==> runs(answers, start, post, result),
{
    assert forall|post: VmView, result: Result<Value, RuntimeError>| #[trigger]
        runs(answers, mid, post, result) implies runs(answers, start, post, result) by {
        assert(runs(answers, pre, post, result));
    }
}

/// A run ends where an instruction ends it.
proof fn lemma_run_ends(
    answers: spec_fn(BinaryOp, Value, Value, Value) -> bool,
    start: VmView,
    pre: VmView,
    post: VmView,
    answer: Value,
    result: Result<Value, RuntimeError>,
)
    requires
        forall|post: VmView, result: Result<Value, RuntimeError>| #[trigger]
            runs(answers, pre, post, result) ==> runs(answers, start, post, result),
        pre.operands() is None,
        pre.step(answer) == (post, Some(result)),
    ensures
        runs(answers, start, post, result),
{
    assert(runs(answers, pre, post, result));
}

/// Tracing changes nothing but the trace: a run ends with the same result,
/// the same stack and the same instruction pointer whether the machine
/// traces or not, and whatever it had traced before.
pub proof fn lemma_tracing_is_silent(
    answers: spec_fn(BinaryOp, Value, Value, Value) -> bool,
    pre: VmView,
    post: VmView,
    result: Result<Value, RuntimeError>,
    tracing: bool,
    trace: Seq<char>,
)
    requires
        runs(answers, pre, post, result),
    ensures
        exists|traced: Seq<char>|
            runs(
                answers,
                VmView { tracing, trace, ..pre },
                VmView { tracing, trace: traced, ..post },
                result,
            ),
    decreases pre.chunk.code.len() - pre.ip,
{
    let answer = choose|answer: Value|
        {
            &&& pre.operands() matches Some(asked) ==> answers(asked.0, asked.1, asked.2, answer)
            &&& match (#[trigger] pre.step(answer)).1 {
                Some(ended) => post == pre.step(answer).0 && result == ended,
                None => runs(answers, pre.step(answer).0, post, result),
            }
        };
    let other = VmView { tracing, trace, ..pre };
    let mid = pre.step(answer).0;
    let other_mid = other.step(answer).0;
    assert(other.operands() == pre.operands());
    assert(other_mid == (VmView { tracing, trace: other_mid.trace, ..mid }));
    match pre.step(answer).1 {
        Some(ended) => {
            assert(runs(answers, other, VmView { tracing, trace: other_mid.trace, ..post }, result));
        },
        None => {
            lemma_tracing_is_silent(answers, mid, post, result, tracing, other_mid.trace);
            let traced = choose|traced: Seq<char>|
                runs(answers, other_mid, VmView { tracing, trace: traced, ..post }, result);
            assert(runs(answers, other, VmView { tracing, trace: traced, ..post }, result));
        },
    }
}

/// A run is as determined as its arithmetic: where each operation has no
/// more than one answer for given operands, two runs from the same state
/// end alike, with the same result and the machine in the same state.
pub proof fn lemma_run_is_determined(
    answers: spec_fn(BinaryOp, Value, Value, Value) -> bool,
    pre: VmView,
    post: VmView,
    result: Result<Value, RuntimeError>,
    other_post: VmView,
    other_result: Result<Value, RuntimeError>,
)
    requires
        forall|op: BinaryOp, left: Value, right: Value, one: Value, other: Value|
            #[trigger] answers(op, left, right, one) && #[trigger] answers(op, left, right, other)
                ==> one == other,
        runs(answers, pre, post, result),
        runs(answers, pre, other_post, other_result),
    ensures
        post == other_post,
        result == other_result,
    decreases pre.chunk.code.len() - pre.ip,
{
    let answer = choose|answer: Value|
        {
            &&& pre.operands() matches Some(asked) ==> answers(asked.0, asked.1, asked.2, answer)
            &&& match (#[trigger] pre.step(answer)).1 {
                Some(ended) => post == pre.step(answer).0 && result == ended,
                None => runs(answers, pre.step(answer).0, post, result),
            }
        };
    let other = choose|other: Value|
        {
            &&& pre.operands() matches Some(asked) ==> answers(asked.0, asked.1, asked.2, other)
            &&& match (#[trigger] pre.step(other)).1 {
                Some(ended) => other_post == pre.step(other).0 && other_result == ended,
                None => runs(answers, pre.step(other).0, other_post, other_result),
            }
        };
    assert(pre.step(answer) == pre.step(other)) by {
        if pre.operands() is Some {
            assert(answer == other);
        }
    }
    if pre.step(answer).1 is None {
        lemma_run_is_determined(
            answers,
            pre.step(answer).0,
            post,
            result,
            other_post,
            other_result,
        );
    }
}

/// A virtual machine that runs one chunk.
#[derive(Debug)]
pub struct Vm<'a> {
    chunk: &'a Chunk,
    ip: usize,
    stack: Vec<Value>,
    tracing: bool,
    trace: String,
}

impl<'a> View for Vm<'a> {
    type V = VmView;

    closed spec fn view(&self) -> VmView {
        VmView {
            chunk: self.chunk@,
            tracing: self.tracing,
            ip: self.ip as int,
            stack: self.stack@,
            trace: self.trace@,
        }
    }
}

impl<'a> Vm<'a> {
    /// The invariant of a machine: its chunk meets its own invariant, and
    /// the instruction pointer lies inside the code or at its end.
    pub closed spec fn wf(&self) -> bool {
        &&& self.chunk.wf()
        &&& self.ip <= self.chunk@.code.len()
    }

    /// A machine at the start of `chunk` that does not trace.
    pub fn new(chunk: &'a Chunk) -> (vm: Vm<'a>)
        requires
            chunk.wf(),
        ensures
            vm.wf(),
            vm@ == VmView::start(chunk@, false),
    {
        Vm::with_tracing(chunk, false)
    }

    /// A machine at the start of `chunk` that traces each instruction if
    /// `tracing` is set.
    pub fn with_tracing(chunk: &'a Chunk, tracing: bool) -> (vm: Vm<'a>)
        requires
            chunk.wf(),
        ensures
            vm.wf(),
            vm@ == VmView::start(chunk@, tracing),
    {
        Vm { chunk, ip: 0, stack: Vec::new(), tracing, trace: String::new() }
    }

    /// The offset of the next instruction.
    pub fn ip(&self) -> (ip: usize)
        ensures
            ip == self@.ip,
    {
        self.ip
    }

    /// The operand stack, its top last.
    pub fn stack(&self) -> (stack: &Vec<Value>)
        ensures
            stack@ == self@.stack,
    {
        &self.stack
    }

    /// The text traced so far.
    pub fn trace(&self) -> (trace: &str)
        ensures
            trace@ == self@.trace,
    {
        self.trace.as_str()
    }

    /// Reads the byte at the instruction pointer and moves on.
    fn read_byte(&mut self) -> (byte: u8)
        requires
            old(self).wf(),
            old(self).ip < old(self).chunk@.code.len(),
        ensures
            final(self).wf(),
            byte == old(self).chunk@.code[old(self).ip as int],
            *final(self) == (Vm { ip: (old(self).ip + 1) as usize, ..*old(self) }),
    {
        let code = self.chunk.code();
        let len = code.len();
        let byte = code[self.ip];
        self.ip += 1;
        byte
    }

    /// Reads the operand of a `Constant` instruction and looks the constant
    /// up: `None` if the operand names no constant of the pool.
    fn read_constant(&mut self) -> (constant: Option<Value>)
        requires
            old(self).wf(),
            old(self).ip < old(self).chunk@.code.len(),
        ensures
            final(self).wf(),
            *final(self) == (Vm { ip: (old(self).ip + 1) as usize, ..*old(self) }),
            constant == if old(self).chunk@.code[old(self).ip as int] < old(
                self,
            ).chunk@.constants.len() {
                Some(old(self).chunk@.constants[old(self).chunk@.code[old(self).ip as int] as int])
            } else {
                None
            },
    {
        let index: usize = self.read_byte() as usize;
        let constants = self.chunk.constants();
        if index < constants.len() {
            Some(constants[index])
        } else {
            None
        }
    }

    /// The line that shows the stack in a trace: each value between
    /// brackets, bottom first; nothing for an empty stack.
    pub fn stack_trace(&self) -> (out: String)
        ensures
            out@ == stack_text(self@.stack),
    {
        let mut out = String::new();
        if self.stack.len() > 0 {
            out.append("Values: ");
        }
        let mut i: usize = 0;
        while i < self.stack.len()
            invariant
                i <= self.stack@.len(),
                out@ == if self.stack@.len() == 0 {
                    Seq::<char>::empty()
                } else {
                    "Values: "@ + slots_text(self.stack@.take(i as int))
                },
            decreases self.stack@.len() - i,
        {
            out.append("[ Value ");
            self.stack[i].push_text(&mut out);
            out.append("  ]");
            proof {
                let shown = self.stack@.take(i + 1);
                assert(shown.drop_last() =~= self.stack@.take(i as int));
                assert(out@ =~= "Values: "@ + slots_text(shown));
            }
            i += 1;
        }
        if self.stack.len() > 0 {
            out.append("\n");
        }
        proof {
            assert(self.stack@.take(self.stack@.len() as int) =~= self.stack@);
        }
        out
    }

    /// Adds to the trace the instruction at the instruction pointer and the
    /// stack.
    fn trace_instruction(&mut self)
        requires
            old(self).wf(),
            old(self).tracing,
            old(self).ip < old(self).chunk@.code.len(),
        ensures
            final(self).wf(),
            final(self)@ == (VmView { trace: old(self)@.traced(), ..old(self)@ }),
    {
        let (instruction, _) = self.chunk.disassemble_instruction(self.ip);
        let line = instruction.render();
        let stack = self.stack_trace();
        self.trace.append(line.as_str());
        self.trace.append("\n");
        self.trace.append(stack.as_str());
        proof {
            assert(self.trace@ =~= old(self)@.traced());
        }
    }

    /// The error of kind `kind` at the instruction at `offset`.
    fn error(&self, kind: RuntimeErrorKind, offset: usize) -> (error: RuntimeError)
        requires
            self.wf(),
        ensures
            error == self@.error(kind, offset as int),
    {
        proof {
            self.chunk.lemma_wf();
        }
        RuntimeError { kind, offset, line: self.chunk.line_at(offset) }
    }

    /// Runs the chunk from the instruction pointer on, until `Return` ends
    /// the run with its result or an error ends it.
    ///
    /// `arithmetic` is called for each arithmetic instruction, with the
    /// operation and the two operands, the one pushed earlier first, and
    /// its answer is pushed. The machine is left as the last instruction
    /// left it. How the run goes is said by `runs`.
    pub fn run<F: Fn(BinaryOp, Value, Value) -> Value>(&mut self, arithmetic: F) -> (result:
        Result<Value, RuntimeError>)
        requires
            old(self).wf(),
            forall|op: BinaryOp, left: Value, right: Value|
                call_requires(arithmetic, (op, left, right)),
        ensures
            final(self).wf(),
            runs(
                |op: BinaryOp, left: Value, right: Value, answer: Value|
                    call_ensures(arithmetic, (op, left, right), answer),
                old(self)@,
                final(self)@,
                result,
            ),
    {
        let ghost nothing = Value::Number(0);
        let ghost answers = |op: BinaryOp, left: Value, right: Value, answer: Value|
            call_ensures(arithmetic, (op, left, right), answer);
        loop
            invariant
                self.wf(),
                forall|op: BinaryOp, left: Value, right: Value|
                    call_requires(arithmetic, (op, left, right)),
                answers == |op: BinaryOp, left: Value, right: Value, answer: Value|
                    call_ensures(arithmetic, (op, left, right), answer),
                forall|post: VmView, result: Result<Value, RuntimeError>| #[trigger]
                    runs(answers, self@, post, result) ==> runs(
                        answers,
                        old(self)@,
                        post,
                        result,
                    ),
            decreases self.chunk@.code.len() - self.ip,
        {
            let ghost pre = self@;
            let offset = self.ip;
            if offset >= self.chunk.code().len() {
                let error = self.error(RuntimeErrorKind::EndOfCode, offset);
                proof {
                    lemma_run_ends(answers, old(self)@, pre, self@, nothing, Err(error));
                }
                return Err(error);
            }
            if self.tracing {
                self.trace_instruction();
            }
            let byte = self.read_byte();
            let opcode = match Opcode::from_byte(byte) {
                Some(opcode) => opcode,
                None => {
                    let error = self.error(RuntimeErrorKind::UnknownOpcode(byte), offset);
                    proof {
                        lemma_run_ends(answers, old(self)@, pre, self@, nothing, Err(error));
                    }
                    return Err(error);
                },
            };
            if let Some(op) = opcode.binary_op() {
                let right = match self.stack.pop() {
                    Some(value) => value,
                    None => {
                        let error = self.error(RuntimeErrorKind::StackUnderflow, offset);
                        proof {
                            lemma_run_ends(answers, old(self)@, pre, self@, nothing, Err(error));
                        }
                        return Err(error);
                    },
                };
                let left = match self.stack.pop() {
                    Some(value) => value,
                    None => {
                        let error = self.error(RuntimeErrorKind::StackUnderflow, offset);
                        proof {
                            assert(self@.stack =~= pre.stack.drop_last());
                            lemma_run_ends(answers, old(self)@, pre, self@, nothing, Err(error));
                        }
                        return Err(error);
                    },
                };
                let answer = arithmetic(op, left, right);
                self.stack.push(answer);
                proof {
                    assert(self@.stack =~= pre.stack.drop_last().drop_last().push(answer));
                    lemma_run_goes_on(answers, old(self)@, pre, self@, answer);
                }
            } else if opcode == Opcode::Return {
                match self.stack.pop() {
                    Some(value) => {
                        proof {
                            assert(self@.stack =~= pre.stack.drop_last());
                            lemma_run_ends(answers, old(self)@, pre, self@, nothing, Ok(value));
                        }
                        return Ok(value);
                    },
                    None => {
                        let error = self.error(RuntimeErrorKind::StackUnderflow, offset);
                        proof {
                            lemma_run_ends(answers, old(self)@, pre, self@, nothing, Err(error));
                        }
                        return Err(error);
                    },
                }
            } else if opcode == Opcode::Constant {
                if self.ip >= self.chunk.code().len() {
                    let error = self.error(RuntimeErrorKind::EndOfCode, offset);
                    proof {
                        lemma_run_ends(answers, old(self)@, pre, self@, nothing, Err(error));
                    }
                    return Err(error);
                }
                match self.read_constant() {
                    Some(constant) => {
                        self.stack.push(constant);
                        proof {
                            lemma_run_goes_on(answers, old(self)@, pre, self@, nothing);
                        }
                    },
                    None => {
                        let error = self.error(
                            RuntimeErrorKind::ConstantOutOfRange(self.chunk.code()[offset + 1]),
                            offset,
                        );
                        proof {
                            lemma_run_ends(answers, old(self)@, pre, self@, nothing, Err(error));
                        }
                        return Err(error);
                    },
                }
            } else {
                match self.stack.pop() {
                    Some(value) => {
                        self.stack.push(value.negate());
                        proof {
                            assert(self@.stack =~= pre.stack.drop_last().push(
                                pre.stack.last().negated(),
                            ));
                            lemma_run_goes_on(answers, old(self)@, pre, self@, nothing);
                        }
                    },
                    None => {
                        let error = self.error(RuntimeErrorKind::StackUnderflow, offset);
                        proof {
                            lemma_run_ends(answers, old(self)@, pre, self@, nothing, Err(error));
                        }
                        return Err(error);
                    },
                }
            }
        }
    }

    /// Runs `chunk` from its start on a new machine that does not trace.
    pub fn interpret<F: Fn(BinaryOp, Value, Value) -> Value>(chunk: &Chunk, arithmetic: F) -> (result:
        Result<Value, RuntimeError>)
        requires
            chunk.wf(),
            forall|op: BinaryOp, left: Value, right: Value|
                call_requires(arithmetic, (op, left, right)),
        ensures
            yields(
                |op: BinaryOp, left: Value, right: Value, answer: Value|
                    call_ensures(arithmetic, (op, left, right), answer),
                chunk@,
                result,
            ),
    {
        let mut vm = Vm::new(chunk);
        vm.run(arithmetic)
    }
}

} // verus!
