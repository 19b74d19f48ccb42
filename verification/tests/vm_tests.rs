use bytecode::chunk::Chunk;
use bytecode::common::{BinaryOp, Opcode};
use bytecode::value::Value;
use bytecode::vm::{RuntimeError, RuntimeErrorKind, Vm};

fn number(x: f64) -> Value {
    Value::Number(x.to_bits())
}

fn float(value: Value) -> f64 {
    let Value::Number(bits) = value;
    f64::from_bits(bits)
}

fn arithmetic(op: BinaryOp, left: Value, right: Value) -> Value {
    let (a, b) = (float(left), float(right));
    number(match op {
        BinaryOp::Add => a + b,
        BinaryOp::Subtract => a - b,
        BinaryOp::Multiply => a * b,
        BinaryOp::Divide => a / b,
    })
}

fn emit_constant(chunk: &mut Chunk, x: f64, line: usize) {
    let index = chunk.add_constant(number(x)).unwrap();
    chunk.write_constant(index, line).unwrap();
}

fn binary_chunk(left: f64, right: f64, opcode: Opcode) -> Chunk {
    let mut chunk = Chunk::new();
    emit_constant(&mut chunk, left, 1);
    emit_constant(&mut chunk, right, 1);
    chunk.write_opcode(opcode, 1);
    chunk.write_opcode(Opcode::Return, 1);
    chunk
}

#[test]
fn five_divided_by_two_is_two_and_a_half() {
    let chunk = binary_chunk(5.0, 2.0, Opcode::Divide);
    assert_eq!(Vm::interpret(&chunk, arithmetic), Ok(number(2.5)));
}

#[test]
fn a_constant_is_returned_and_the_stack_left_empty() {
    let mut chunk = Chunk::new();
    emit_constant(&mut chunk, 1.2, 1);
    chunk.write_opcode(Opcode::Return, 1);
    let mut vm = Vm::new(&chunk);
    let result = vm.run(arithmetic);
    assert_eq!(result.map(float), Ok(1.2));
    assert!(vm.stack().is_empty());
    assert_eq!(vm.ip(), 3);
    assert_eq!(vm.trace(), "");
}

#[test]
fn add_on_an_empty_stack_is_a_stack_underflow() {
    let mut chunk = Chunk::new();
    chunk.write_opcode(Opcode::Add, 4);
    chunk.write_opcode(Opcode::Return, 4);
    let mut vm = Vm::new(&chunk);
    assert_eq!(
        vm.run(arithmetic),
        Err(RuntimeError { kind: RuntimeErrorKind::StackUnderflow, offset: 0, line: Some(4) })
    );
    assert!(vm.stack().is_empty());
}

#[test]
fn a_binary_instruction_with_one_operand_underflows_and_pushes_nothing() {
    for opcode in [Opcode::Add, Opcode::Subtract, Opcode::Multiply, Opcode::Divide] {
        let mut chunk = Chunk::new();
        emit_constant(&mut chunk, 3.0, 1);
        chunk.write_opcode(opcode, 2);
        chunk.write_opcode(Opcode::Return, 3);
        let mut vm = Vm::new(&chunk);
        assert_eq!(
            vm.run(arithmetic),
            Err(RuntimeError { kind: RuntimeErrorKind::StackUnderflow, offset: 2, line: Some(2) })
        );
        assert!(vm.stack().is_empty());
    }
}

#[test]
fn the_value_pushed_earlier_is_the_left_operand() {
    assert_eq!(Vm::interpret(&binary_chunk(5.0, 2.0, Opcode::Subtract), arithmetic), Ok(number(3.0)));
    assert_eq!(Vm::interpret(&binary_chunk(2.0, 5.0, Opcode::Subtract), arithmetic), Ok(number(-3.0)));
    assert_eq!(Vm::interpret(&binary_chunk(1.0, 4.0, Opcode::Divide), arithmetic), Ok(number(0.25)));
    assert_eq!(Vm::interpret(&binary_chunk(1.5, 2.25, Opcode::Add), arithmetic), Ok(number(3.75)));
    assert_eq!(Vm::interpret(&binary_chunk(1.5, -4.0, Opcode::Multiply), arithmetic), Ok(number(-6.0)));
}

#[test]
fn arithmetic_gets_the_operation_and_both_operands() {
    let chunk = binary_chunk(7.0, 9.0, Opcode::Multiply);
    let seen = std::cell::RefCell::new(Vec::new());
    let result = Vm::interpret(&chunk, |op, left, right| {
        seen.borrow_mut().push((op, left, right));
        number(-1.0)
    });
    assert_eq!(result, Ok(number(-1.0)));
    assert_eq!(seen.into_inner(), vec![(BinaryOp::Multiply, number(7.0), number(9.0))]);
}

#[test]
fn division_by_zero_follows_floating_point() {
    assert_eq!(
        Vm::interpret(&binary_chunk(1.0, 0.0, Opcode::Divide), arithmetic),
        Ok(number(f64::INFINITY))
    );
    assert_eq!(
        Vm::interpret(&binary_chunk(-1.0, 0.0, Opcode::Divide), arithmetic),
        Ok(number(f64::NEG_INFINITY))
    );
    let nan = Vm::interpret(&binary_chunk(0.0, 0.0, Opcode::Divide), arithmetic).unwrap();
    assert!(float(nan).is_nan());
}

#[test]
fn negate_flips_the_sign_of_the_top() {
    let mut chunk = Chunk::new();
    emit_constant(&mut chunk, 1.2, 1);
    chunk.write_opcode(Opcode::Negate, 1);
    chunk.write_opcode(Opcode::Return, 1);
    assert_eq!(Vm::interpret(&chunk, arithmetic), Ok(number(-1.2)));
}

#[test]
fn negate_on_an_empty_stack_is_a_stack_underflow() {
    let mut chunk = Chunk::new();
    chunk.write_opcode(Opcode::Negate, 9);
    assert_eq!(
        Vm::interpret(&chunk, arithmetic),
        Err(RuntimeError { kind: RuntimeErrorKind::StackUnderflow, offset: 0, line: Some(9) })
    );
}

#[test]
fn return_on_an_empty_stack_is_a_stack_underflow() {
    let mut chunk = Chunk::new();
    chunk.write_opcode(Opcode::Return, 2);
    assert_eq!(
        Vm::interpret(&chunk, arithmetic),
        Err(RuntimeError { kind: RuntimeErrorKind::StackUnderflow, offset: 0, line: Some(2) })
    );
}

#[test]
fn return_pops_only_the_top() {
    let mut chunk = Chunk::new();
    emit_constant(&mut chunk, 1.0, 1);
    emit_constant(&mut chunk, 2.0, 1);
    chunk.write_opcode(Opcode::Return, 1);
    chunk.write_opcode(Opcode::Negate, 1);
    let mut vm = Vm::new(&chunk);
    assert_eq!(vm.run(arithmetic), Ok(number(2.0)));
    assert_eq!(vm.stack(), &vec![number(1.0)]);
    assert_eq!(vm.ip(), 5);
}

#[test]
fn an_unknown_opcode_is_fatal() {
    let mut chunk = Chunk::new();
    emit_constant(&mut chunk, 1.0, 1);
    chunk.write_byte(0xee, 6);
    chunk.write_opcode(Opcode::Return, 7);
    let mut vm = Vm::new(&chunk);
    assert_eq!(
        vm.run(arithmetic),
        Err(RuntimeError { kind: RuntimeErrorKind::UnknownOpcode(0xee), offset: 2, line: Some(6) })
    );
    assert_eq!(vm.stack(), &vec![number(1.0)]);
}

#[test]
fn a_constant_index_out_of_range_is_fatal() {
    let mut chunk = Chunk::new();
    chunk.add_constant(number(1.0)).unwrap();
    chunk.write_constant(1, 3).unwrap();
    chunk.write_opcode(Opcode::Return, 3);
    let mut vm = Vm::new(&chunk);
    assert_eq!(
        vm.run(arithmetic),
        Err(RuntimeError {
            kind: RuntimeErrorKind::ConstantOutOfRange(1),
            offset: 0,
            line: Some(3),
        })
    );
    assert!(vm.stack().is_empty());
}

#[test]
fn running_off_the_end_of_the_code_is_fatal() {
    let chunk = Chunk::new();
    assert_eq!(
        Vm::interpret(&chunk, arithmetic),
        Err(RuntimeError { kind: RuntimeErrorKind::EndOfCode, offset: 0, line: None })
    );
    let mut chunk = Chunk::new();
    emit_constant(&mut chunk, 1.0, 1);
    let mut vm = Vm::new(&chunk);
    assert_eq!(
        vm.run(arithmetic),
        Err(RuntimeError { kind: RuntimeErrorKind::EndOfCode, offset: 2, line: None })
    );
    assert_eq!(vm.stack(), &vec![number(1.0)]);
}

#[test]
fn a_constant_without_its_operand_is_fatal() {
    let mut chunk = Chunk::new();
    chunk.write_opcode(Opcode::Constant, 5);
    assert_eq!(
        Vm::interpret(&chunk, arithmetic),
        Err(RuntimeError { kind: RuntimeErrorKind::EndOfCode, offset: 0, line: Some(5) })
    );
}

#[test]
fn a_longer_expression() {
    // -((1.2 + 3.4) / 5.6)
    let mut chunk = Chunk::new();
    emit_constant(&mut chunk, 1.2, 1);
    emit_constant(&mut chunk, 3.4, 1);
    chunk.write_opcode(Opcode::Add, 1);
    emit_constant(&mut chunk, 5.6, 1);
    chunk.write_opcode(Opcode::Divide, 1);
    chunk.write_opcode(Opcode::Negate, 1);
    chunk.write_opcode(Opcode::Return, 1);
    assert_eq!(Vm::interpret(&chunk, arithmetic).map(float), Ok(-((1.2 + 3.4) / 5.6)));
}

#[test]
fn tracing_records_each_instruction_and_the_stack() {
    let chunk = binary_chunk(5.0, 2.0, Opcode::Divide);
    let mut vm = Vm::with_tracing(&chunk, true);
    assert_eq!(vm.run(arithmetic), Ok(number(2.5)));
    assert_eq!(
        vm.trace(),
        "0000    1 Constant Idx 0 Value 0x4014000000000000\n\
         0002    1 Constant Idx 1 Value 0x4000000000000000\n\
         Values: [ Value 0x4014000000000000  ]\n\
         0004    1 Divide\n\
         Values: [ Value 0x4014000000000000  ][ Value 0x4000000000000000  ]\n\
         0005    1 Return\n\
         Values: [ Value 0x4004000000000000  ]\n"
    );
}

#[test]
fn tracing_does_not_change_the_run() {
    for opcode in [Opcode::Add, Opcode::Subtract, Opcode::Multiply, Opcode::Divide] {
        let chunk = binary_chunk(7.5, 2.5, opcode);
        let mut quiet = Vm::with_tracing(&chunk, false);
        let mut traced = Vm::with_tracing(&chunk, true);
        assert_eq!(quiet.run(arithmetic), traced.run(arithmetic));
        assert_eq!(quiet.stack(), traced.stack());
        assert_eq!(quiet.ip(), traced.ip());
        assert_eq!(quiet.trace(), "");
    }
}

#[test]
fn stack_trace_shows_the_stack_bottom_first() {
    let mut chunk = Chunk::new();
    emit_constant(&mut chunk, 1.0, 1);
    emit_constant(&mut chunk, 2.0, 1);
    let mut vm = Vm::new(&chunk);
    assert_eq!(vm.stack_trace(), "");
    let _ = vm.run(arithmetic);
    assert_eq!(
        vm.stack_trace(),
        "Values: [ Value 0x3ff0000000000000  ][ Value 0x4000000000000000  ]\n"
    );
}
