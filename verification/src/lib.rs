//! A bytecode execution engine for a small expression language: a scanner,
//! a chunk of bytecode with its constant pool and line map, a disassembler
//! and a stack-based virtual machine.
//!
//! Numbers are 64-bit IEEE 754 numbers, which the engine holds as bit
//! patterns. It moves them, negates them and shows them, but it does not
//! compute with them: whoever runs a chunk hands the machine the function
//! that adds, subtracts, multiplies and divides, and the contracts say what
//! a run gives for whatever that function answers.

use crate::common::BinaryOp;
use crate::compiler::{compiled, texts, CompileError, Compiler};
use crate::value::Value;
use crate::vm::{yields, RuntimeError, Vm};
use vstd::prelude::*;

pub mod chunk;
pub mod common;
pub mod compiler;
pub mod scanner;
pub mod text;
pub mod value;
pub mod vm;

verus! {

/// Why a source text gave no value.
#[derive(Debug, PartialEq, Eq)]
pub enum InterpretError {
    /// The source did not compile: lexical and syntactic errors both end
    /// here, as diagnostics.
    Compile(CompileError),
    /// The compiled chunk failed when it ran.
    Runtime(RuntimeError),
}

/// Whether `result` is what interpreting `source` may give, when arithmetic
/// answers as `answers` allows.
///
/// A source that does not compile gives its diagnostics. One that compiles
/// gives what a run of its chunk from the start gives: the value that
/// `Return` popped, or the error that ended the run.
pub open spec fn interprets(
    answers: spec_fn(BinaryOp, Value, Value, Value) -> bool,
    source: Seq<char>,
    result: Result<Value, InterpretError>,
) -> bool {
    match compiled(source) {
        Err(reports) => result matches Err(InterpretError::Compile(error)) && texts(
            error.diagnostics@,
        ) == reports,
        Ok(chunk) => match result {
            Ok(value) => yields(answers, chunk, Ok(value)),
            Err(InterpretError::Runtime(error)) => yields(answers, chunk, Err(error)),
            Err(InterpretError::Compile(_)) => false,
        },
    }
}

/// Scans and compiles `source` and runs the chunk.
///
/// `arithmetic` is called for each arithmetic instruction of the run, with
/// the operation and the two operands, the one pushed earlier first.
pub fn interpret<F: Fn(BinaryOp, Value, Value) -> Value>(source: &str, arithmetic: F) -> (result:
    Result<Value, InterpretError>)
    requires
        source@.len() < usize::MAX,
        forall|op: BinaryOp, left: Value, right: Value|
            call_requires(arithmetic, (op, left, right)),
    ensures
        interprets(
            |op: BinaryOp, left: Value, right: Value, answer: Value|
                call_ensures(arithmetic, (op, left, right), answer),
            source@,
            result,
        ),
{
    let chunk = match Compiler::compile(source) {
        Ok(chunk) => chunk,
        Err(error) => {
            return Err(InterpretError::Compile(error));
        },
    };
    match Vm::interpret(&chunk, arithmetic) {
        Ok(value) => Ok(value),
        Err(error) => Err(InterpretError::Runtime(error)),
    }
}

} // verus!
