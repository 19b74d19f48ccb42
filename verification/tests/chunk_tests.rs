use bytecode::chunk::{Chunk, ChunkError, Decoded, Instruction, MAX_CONSTANTS};
use bytecode::common::{BinaryOp, Opcode, OPCODE_COUNT};
use bytecode::value::Value;

fn number(x: f64) -> Value {
    Value::Number(x.to_bits())
}

fn walk(chunk: &Chunk) -> Vec<Instruction> {
    let mut entries = Vec::new();
    let mut offset = 0;
    while offset < chunk.code().len() {
        let (instruction, next) = chunk.disassemble_instruction(offset);
        assert!(next > offset);
        assert!(next <= chunk.code().len());
        entries.push(instruction);
        offset = next;
    }
    assert_eq!(offset, chunk.code().len());
    entries
}

#[test]
fn new_chunk_is_empty() {
    let chunk = Chunk::new();
    assert!(chunk.code().is_empty());
    assert!(chunk.constants().is_empty());
    assert_eq!(chunk.line_at(0), None);
}

#[test]
fn write_byte_appends_and_records_the_line() {
    let mut chunk = Chunk::new();
    chunk.write_byte(0x2a, 7);
    chunk.write_byte(0x01, 9);
    assert_eq!(chunk.code(), &vec![0x2a, 0x01]);
    assert_eq!(chunk.line_at(0), Some(7));
    assert_eq!(chunk.line_at(1), Some(9));
    assert_eq!(chunk.line_at(2), None);
}

#[test]
fn write_opcode_appends_the_encoding() {
    let mut chunk = Chunk::new();
    chunk.write_opcode(Opcode::Return, 1);
    chunk.write_opcode(Opcode::Constant, 1);
    chunk.write_opcode(Opcode::Negate, 2);
    chunk.write_opcode(Opcode::Add, 2);
    chunk.write_opcode(Opcode::Subtract, 3);
    chunk.write_opcode(Opcode::Multiply, 3);
    chunk.write_opcode(Opcode::Divide, 4);
    assert_eq!(chunk.code(), &vec![0, 1, 2, 3, 4, 5, 6]);
    assert_eq!(chunk.line_at(6), Some(4));
}

#[test]
fn opcodes_round_trip_through_their_bytes() {
    let all = [
        Opcode::Return,
        Opcode::Constant,
        Opcode::Negate,
        Opcode::Add,
        Opcode::Subtract,
        Opcode::Multiply,
        Opcode::Divide,
    ];
    for opcode in all {
        assert_eq!(Opcode::from_byte(opcode.to_byte()), Some(opcode));
    }
    for byte in 0..=255u8 {
        match Opcode::from_byte(byte) {
            Some(opcode) => {
                assert!(byte < OPCODE_COUNT);
                assert_eq!(opcode.to_byte(), byte);
            }
            None => assert!(byte >= OPCODE_COUNT),
        }
    }
}

#[test]
fn opcode_names() {
    assert_eq!(Opcode::Return.as_str(), "Return");
    assert_eq!(Opcode::Constant.as_str(), "Constant");
    assert_eq!(Opcode::Negate.as_str(), "Negate");
    assert_eq!(Opcode::Add.as_str(), "Add");
    assert_eq!(Opcode::Subtract.as_str(), "Subtract");
    assert_eq!(Opcode::Multiply.as_str(), "Multiply");
    assert_eq!(Opcode::Divide.as_str(), "Divide");
}

#[test]
fn only_arithmetic_opcodes_have_a_binary_operation() {
    assert_eq!(Opcode::Add.binary_op(), Some(BinaryOp::Add));
    assert_eq!(Opcode::Subtract.binary_op(), Some(BinaryOp::Subtract));
    assert_eq!(Opcode::Multiply.binary_op(), Some(BinaryOp::Multiply));
    assert_eq!(Opcode::Divide.binary_op(), Some(BinaryOp::Divide));
    assert_eq!(Opcode::Return.binary_op(), None);
    assert_eq!(Opcode::Constant.binary_op(), None);
    assert_eq!(Opcode::Negate.binary_op(), None);
}

#[test]
fn add_constant_returns_indices_in_order() {
    let mut chunk = Chunk::new();
    assert_eq!(chunk.add_constant(number(1.5)), Ok(0));
    assert_eq!(chunk.add_constant(number(-2.0)), Ok(1));
    assert_eq!(chunk.add_constant(number(1.5)), Ok(2));
    assert_eq!(chunk.constants(), &vec![number(1.5), number(-2.0), number(1.5)]);
    assert!(chunk.code().is_empty());
}

#[test]
fn adding_a_257th_constant_fails() {
    let mut chunk = Chunk::new();
    for i in 0..MAX_CONSTANTS {
        assert_eq!(chunk.add_constant(number(i as f64)), Ok(i));
    }
    assert_eq!(chunk.constants().len(), 256);
    assert_eq!(chunk.add_constant(number(256.0)), Err(ChunkError::TooManyConstants));
    assert_eq!(chunk.constants().len(), 256);
    assert_eq!(chunk.constants()[255], number(255.0));
    assert_eq!(chunk.constants()[0], number(0.0));
}

#[test]
fn write_constant_emits_the_opcode_and_the_index() {
    let mut chunk = Chunk::new();
    assert_eq!(chunk.write_constant(3, 12), Ok(()));
    assert_eq!(chunk.write_constant(255, 13), Ok(()));
    assert_eq!(chunk.code(), &vec![1, 3, 1, 255]);
    assert_eq!(chunk.line_at(0), Some(12));
    assert_eq!(chunk.line_at(1), Some(12));
    assert_eq!(chunk.line_at(2), Some(13));
    assert_eq!(chunk.line_at(3), Some(13));
}

#[test]
fn write_constant_rejects_an_index_over_one_byte() {
    let mut chunk = Chunk::new();
    chunk.write_opcode(Opcode::Return, 1);
    assert_eq!(chunk.write_constant(256, 1), Err(ChunkError::ConstantIndexTooLarge(256)));
    assert_eq!(
        chunk.write_constant(usize::MAX, 1),
        Err(ChunkError::ConstantIndexTooLarge(usize::MAX))
    );
    assert_eq!(chunk.code(), &vec![0]);
}

#[test]
fn constants_come_back_in_order_and_unchanged() {
    let values = [1.5, -2.0, 0.0, f64::INFINITY, 1.0e-300, 1.5];
    let mut chunk = Chunk::new();
    for (i, x) in values.iter().enumerate() {
        let index = chunk.add_constant(number(*x)).unwrap();
        assert_eq!(index, i);
        chunk.write_constant(index, 10 + i).unwrap();
    }
    let entries = walk(&chunk);
    assert_eq!(entries.len(), values.len());
    for (i, x) in values.iter().enumerate() {
        assert_eq!(
            entries[i],
            Instruction {
                offset: 2 * i,
                line: 10 + i,
                decoded: Decoded::Constant { index: i as u8, value: number(*x) },
            }
        );
    }
}

#[test]
fn a_full_pool_comes_back_whole() {
    let mut chunk = Chunk::new();
    for i in 0..256usize {
        let index = chunk.add_constant(number(i as f64 / 4.0)).unwrap();
        chunk.write_constant(index, 1).unwrap();
    }
    let entries = walk(&chunk);
    assert_eq!(entries.len(), 256);
    for (i, entry) in entries.iter().enumerate() {
        assert_eq!(
            entry.decoded,
            Decoded::Constant { index: i as u8, value: number(i as f64 / 4.0) }
        );
    }
}

#[test]
fn disassembly_walks_over_garbage() {
    let mut chunk = Chunk::new();
    chunk.add_constant(number(4.0)).unwrap();
    let bytes = [0xff, 7, 1, 0, 1, 9, 0x80, 2, 6, 1];
    for (i, byte) in bytes.iter().enumerate() {
        chunk.write_byte(*byte, i + 1);
    }
    let entries = walk(&chunk);
    let decoded: Vec<Decoded> = entries.iter().map(|entry| entry.decoded).collect();
    assert_eq!(
        decoded,
        vec![
            Decoded::InvalidOpcode(0xff),
            Decoded::InvalidOpcode(7),
            Decoded::Constant { index: 0, value: number(4.0) },
            Decoded::BadConstant { index: 9 },
            Decoded::InvalidOpcode(0x80),
            Decoded::Simple(Opcode::Negate),
            Decoded::Simple(Opcode::Divide),
            Decoded::MissingOperand,
        ]
    );
    let offsets: Vec<usize> = entries.iter().map(|entry| entry.offset).collect();
    assert_eq!(offsets, vec![0, 1, 2, 4, 6, 7, 8, 9]);
    let lines: Vec<usize> = entries.iter().map(|entry| entry.line).collect();
    assert_eq!(lines, vec![1, 2, 3, 5, 7, 8, 9, 10]);
}

#[test]
fn an_unknown_opcode_is_stepped_over_alone() {
    for byte in 7..=255u8 {
        let mut chunk = Chunk::new();
        chunk.write_byte(byte, 1);
        chunk.write_byte(byte, 1);
        let (instruction, next) = chunk.disassemble_instruction(0);
        assert_eq!(instruction.decoded, Decoded::InvalidOpcode(byte));
        assert_eq!(next, 1);
    }
}

#[test]
fn every_byte_sequence_of_length_two_is_walked_to_its_end() {
    for first in 0..=255u8 {
        for second in [0u8, 1, 2, 6, 7, 255] {
            let mut chunk = Chunk::new();
            chunk.write_byte(first, 1);
            chunk.write_byte(second, 1);
            let entries = walk(&chunk);
            assert!(!entries.is_empty());
            assert!(entries.len() <= 2);
        }
    }
}

#[test]
fn instructions_render_as_listing_lines() {
    let mut chunk = Chunk::new();
    let index = chunk.add_constant(number(5.0)).unwrap();
    chunk.write_constant(index, 1).unwrap();
    chunk.write_opcode(Opcode::Negate, 2);
    chunk.write_byte(255, 123);
    chunk.write_constant(7, 12345).unwrap();
    chunk.write_opcode(Opcode::Constant, 3);
    let rendered: Vec<String> = walk(&chunk).iter().map(|entry| entry.render()).collect();
    assert_eq!(
        rendered,
        vec![
            "0000    1 Constant Idx 0 Value 0x4014000000000000".to_string(),
            "0002    2 Negate".to_string(),
            "0003  123 Invalid opcode 0255".to_string(),
            "0004 12345 Failed to convert data 7 at offset 5 into constant index".to_string(),
            "0006    3 Missing operand at offset 7".to_string(),
        ]
    );
}

#[test]
fn wide_offsets_are_not_cut() {
    let instruction =
        Instruction { offset: 123456, line: 0, decoded: Decoded::Simple(Opcode::Return) };
    assert_eq!(instruction.render(), "123456    0 Return");
}

#[test]
fn disassemble_renders_the_whole_chunk() {
    let mut chunk = Chunk::new();
    let five = chunk.add_constant(number(5.0)).unwrap();
    let two = chunk.add_constant(number(2.0)).unwrap();
    chunk.write_constant(five, 1).unwrap();
    chunk.write_constant(two, 1).unwrap();
    chunk.write_opcode(Opcode::Divide, 1);
    chunk.write_opcode(Opcode::Return, 2);
    assert_eq!(
        chunk.disassemble("test chunk"),
        "== test chunk ==\n\
         0000    1 Constant Idx 0 Value 0x4014000000000000\n\
         0002    1 Constant Idx 1 Value 0x4000000000000000\n\
         0004    1 Divide\n\
         0005    2 Return\n\
         ====\n"
    );
}

#[test]
fn disassemble_of_an_empty_chunk_is_heading_and_footer() {
    assert_eq!(Chunk::new().disassemble(""), "==  ==\n====\n");
}

#[test]
fn values_negate_by_their_sign_bit() {
    assert_eq!(number(1.2).negate(), number(-1.2));
    assert_eq!(number(-1.2).negate(), number(1.2));
    assert_eq!(number(0.0).negate(), number(-0.0));
    assert_eq!(number(f64::INFINITY).negate(), number(f64::NEG_INFINITY));
    let nan = number(f64::NAN);
    assert_eq!(nan.negate(), number(-f64::NAN));
    assert_eq!(nan.negate().negate(), nan);
    assert_eq!(Value::Number(0).negate(), Value::Number(0x8000_0000_0000_0000));
    assert_eq!(Value::Number(u64::MAX).negate(), Value::Number(0x7fff_ffff_ffff_ffff));
}

#[test]
fn values_render_as_their_bits() {
    assert_eq!(number(5.0).render(), "0x4014000000000000");
    assert_eq!(Value::Number(0).render(), "0x0000000000000000");
    assert_eq!(Value::Number(u64::MAX).render(), "0xffffffffffffffff");
    assert_eq!(Value::Number(0x0123_4567_89ab_cdef).render(), "0x0123456789abcdef");
    assert_eq!(number(2.5).to_bits(), 2.5f64.to_bits());
}

#[test]
fn instructions_lists_what_a_walk_meets() {
    let mut chunk = Chunk::new();
    assert_eq!(chunk.instructions(), vec![]);
    let index = chunk.add_constant(number(0.5)).unwrap();
    chunk.write_constant(index, 3).unwrap();
    chunk.write_byte(9, 4);
    chunk.write_opcode(Opcode::Return, 5);
    assert_eq!(chunk.instructions(), walk(&chunk));
    assert_eq!(
        chunk.instructions(),
        vec![
            Instruction {
                offset: 0,
                line: 3,
                decoded: Decoded::Constant { index: 0, value: number(0.5) },
            },
            Instruction { offset: 2, line: 4, decoded: Decoded::InvalidOpcode(9) },
            Instruction { offset: 3, line: 5, decoded: Decoded::Simple(Opcode::Return) },
        ]
    );
}

#[test]
fn the_default_chunk_is_empty() {
    let chunk = Chunk::default();
    assert_eq!(chunk, Chunk::new());
    assert!(chunk.code().is_empty());
    assert!(chunk.instructions().is_empty());
}

#[test]
fn a_constant_added_later_makes_an_earlier_reference_good() {
    let mut chunk = Chunk::new();
    chunk.write_constant(0, 1).unwrap();
    assert_eq!(chunk.instructions()[0].decoded, Decoded::BadConstant { index: 0 });
    chunk.add_constant(number(8.0)).unwrap();
    assert_eq!(
        chunk.instructions()[0].decoded,
        Decoded::Constant { index: 0, value: number(8.0) }
    );
}
