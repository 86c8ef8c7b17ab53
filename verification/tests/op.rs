use rust_8086::i8086::cpu::CPUIterator;
use rust_8086::i8086::encode::{encode_op, encode_then_parse};
use rust_8086::i8086::op::{
    parse_op, Op, OpBinaryOp, OpCallType, OpCondJmpOp, OpNullaryOp, OpShiftOp, OpShiftType,
    OpSize, OpUnaryOp,
};
use rust_8086::i8086::operand::{AddressType, Operand};
use rust_8086::i8086::register::{RegisterByteType, RegisterWordType};

#[test]
fn test_parse_add() {
    {
        let input: Vec<u8> = vec![0x00, 0xC0];
        assert_eq!(
            parse_op(&mut CPUIterator::new(input)),
            Some(Op::BinaryByte {
                op: OpBinaryOp::Add,
                src: Operand::Register(RegisterByteType::Al),
                dest: Operand::Register(RegisterByteType::Al),
            }),
        );
    }
    {
        let input: Vec<u8> = vec![0x8b, 0xE2];
        assert_eq!(
            parse_op(&mut CPUIterator::new(input)),
            Some(Op::BinaryWord {
                op: OpBinaryOp::Mov,
                src: Operand::Register(RegisterWordType::Dx),
                dest: Operand::Register(RegisterWordType::Sp),
            }),
        );
    }
    {
        let input: Vec<u8> = vec![0x89, 0xE2];
        assert_eq!(
            parse_op(&mut CPUIterator::new(input)),
            Some(Op::BinaryWord {
                op: OpBinaryOp::Mov,
                src: Operand::Register(RegisterWordType::Sp),
                dest: Operand::Register(RegisterWordType::Dx),
            }),
        );
    }
    {
        let input: Vec<u8> = vec![0x89, 0xc3];
        assert_eq!(
            parse_op(&mut CPUIterator::new(input)),
            Some(Op::BinaryWord {
                op: OpBinaryOp::Mov,
                src: Operand::Register(RegisterWordType::Ax),
                dest: Operand::Register(RegisterWordType::Bx),
            }),
        );
    }
    {
        let input: Vec<u8> = vec![0x88, 0xc3];
        assert_eq!(
            parse_op(&mut CPUIterator::new(input)),
            Some(Op::BinaryByte {
                op: OpBinaryOp::Mov,
                src: Operand::Register(RegisterByteType::Al),
                dest: Operand::Register(RegisterByteType::Bl),
            }),
        );
    }
    {
        let input: Vec<u8> = vec![0x06];
        assert_eq!(
            parse_op(&mut CPUIterator::new(input)),
            Some(Op::UnaryWord {
                op: OpUnaryOp::Push,
                dest: Operand::Register(RegisterWordType::Es),
            }),
        );
    }
    {
        let input: Vec<u8> = vec![0x01, 0xd4];
        assert_eq!(
            parse_op(&mut CPUIterator::new(input)),
            Some(Op::BinaryWord {
                op: OpBinaryOp::Add,
                src: Operand::Register(RegisterWordType::Dx),
                dest: Operand::Register(RegisterWordType::Sp),
            }),
        );
    }
    {
        let input: Vec<u8> = vec![0x31, 0x80, 0xab, 0xcd];
        assert_eq!(
            parse_op(&mut CPUIterator::new(input)),
            Some(Op::BinaryWord {
                op: OpBinaryOp::Xor,
                src: Operand::Register(RegisterWordType::Ax),
                dest: Operand::Address(AddressType::BxSi, 0xcdab_u16 as i16),
            }),
        );
    }
    {
        let input: Vec<u8> = vec![0x80, 0x80, 0xab, 0xcd, 0x25];
        assert_eq!(
            parse_op(&mut CPUIterator::new(input)),
            Some(Op::BinaryByte {
                op: OpBinaryOp::Add,
                src: Operand::ImmByte(0x25),
                dest: Operand::Address(AddressType::BxSi, 0xcdab_u16 as i16),
            }),
        );
    }
    {
        let input: Vec<u8> = vec![0x81, 0xc3, 0x00, 0xf0];
        assert_eq!(
            parse_op(&mut CPUIterator::new(input)),
            Some(Op::BinaryWord {
                op: OpBinaryOp::Add,
                src: Operand::ImmWord(0xf000),
                dest: Operand::Register(RegisterWordType::Bx),
            }),
        );
    }
}

#[test]
fn test_parse_consumes_exact_len() {
    // the cursor stops exactly after each instruction's mandated bytes
    let cases: Vec<(Vec<u8>, usize)> = vec![
        (vec![0x90], 1),
        (vec![0xb0, 0x12], 2),
        (vec![0xb8, 0x34, 0x12], 3),
        (vec![0xc7, 0x06, 0x53, 0x53, 0xcd, 0xab], 6),
        (vec![0xea, 0x00, 0x00, 0x00, 0xf0], 5),
        (vec![0x74, 0x02], 2),
        (vec![0xf4], 1),
    ];
    for (bytes, len) in cases {
        let mut it = CPUIterator::new(bytes);
        assert!(parse_op(&mut it).is_some());
        assert_eq!(it.pos, len);
    }
}

#[test]
fn test_parse_rejects_unassigned() {
    for b in [0x60u8, 0x66, 0xc0, 0xc1, 0xd6, 0xf1] {
        let mut it = CPUIterator::new(vec![b, 0x00, 0x00, 0x00, 0x00, 0x00]);
        assert_eq!(parse_op(&mut it), None);
    }
}

#[test]
fn test_parse_rejects_shift_slot_six() {
    // the sub-opcode slot between the right shifts is unassigned
    for b in [0xd0u8, 0xd1, 0xd2, 0xd3] {
        let mut it = CPUIterator::new(vec![b, 0x30]);
        assert_eq!(parse_op(&mut it), None);
        let mut it = CPUIterator::new(vec![b, 0xf0]);
        assert_eq!(parse_op(&mut it), None);
    }
}

#[test]
fn test_parse_rejects_register_far_target() {
    // lea / lds / les / far call / far jmp refuse a register operand
    for head in [
        vec![0x8d, 0xc0],
        vec![0xc4, 0xc0],
        vec![0xc5, 0xc0],
        vec![0xff, 0xd8],
        vec![0xff, 0xe8],
    ] {
        let mut it = CPUIterator::new(head);
        assert_eq!(parse_op(&mut it), None);
    }
}

#[test]
fn test_parse_prefixes() {
    let mut it = CPUIterator::new(vec![0xf3]);
    assert_eq!(parse_op(&mut it), Some(Op::Nullary(OpNullaryOp::Rep)));
    let mut it = CPUIterator::new(vec![0xf2]);
    assert_eq!(parse_op(&mut it), Some(Op::Nullary(OpNullaryOp::Repnz)));
    let mut it = CPUIterator::new(vec![0x26]);
    assert_eq!(parse_op(&mut it), Some(Op::Segment(RegisterWordType::Es)));
}

#[test]
fn test_encode_round_trip() {
    let cases = vec![
        Op::Nullary(OpNullaryOp::Hlt),
        Op::Nullary(OpNullaryOp::Aam),
        Op::CondJmp { op: OpCondJmpOp::Je, offset: -2 },
        Op::CondJmp { op: OpCondJmpOp::Loop, offset: 5 },
        Op::Int(0x21),
        Op::Movs(OpSize::Byte),
        Op::RetWithinImm(0x10),
        Op::Segment(RegisterWordType::Es),
        Op::BinaryWord {
            op: OpBinaryOp::Mov,
            src: Operand::ImmWord(0x8086),
            dest: Operand::Register(RegisterWordType::Ax),
        },
        Op::Jmp(OpCallType::InterDirect(0x0000, 0xf000)),
        Op::Nullary(OpNullaryOp::Rep),
        Op::ShiftByte {
            op: OpShiftOp::Rol,
            shift_type: OpShiftType::One,
            dest: Operand::Register(RegisterByteType::Al),
        },
        Op::ShiftWord {
            op: OpShiftOp::Sar,
            shift_type: OpShiftType::Cl,
            dest: Operand::Address(AddressType::BxSi, -300),
        },
        Op::UnaryByte { op: OpUnaryOp::Neg, dest: Operand::Register(RegisterByteType::Ch) },
        Op::UnaryWord { op: OpUnaryOp::Push, dest: Operand::Register(RegisterWordType::Cs) },
        Op::UnaryWord { op: OpUnaryOp::Pop, dest: Operand::Direct(0x1234) },
        Op::UnaryWord { op: OpUnaryOp::Div, dest: Operand::Address(AddressType::Bp, 0) },
        Op::BinaryByte {
            op: OpBinaryOp::Adc,
            src: Operand::Register(RegisterByteType::Dl),
            dest: Operand::Address(AddressType::Si, 5),
        },
        Op::BinaryWord {
            op: OpBinaryOp::Cmp,
            src: Operand::ImmByte(0xfe),
            dest: Operand::Register(RegisterWordType::Di),
        },
        Op::BinaryWord {
            op: OpBinaryOp::Mov,
            src: Operand::Register(RegisterWordType::Ds),
            dest: Operand::Register(RegisterWordType::Ax),
        },
        Op::BinaryWord {
            op: OpBinaryOp::Mov,
            src: Operand::Register(RegisterWordType::Ax),
            dest: Operand::Register(RegisterWordType::Es),
        },
        Op::BinaryWord {
            op: OpBinaryOp::Test,
            src: Operand::ImmWord(0x8001),
            dest: Operand::Direct(0x4000),
        },
        Op::Lea(RegisterWordType::Bx, Operand::Address(AddressType::BpDi, 2)),
        Op::Lds(RegisterWordType::Si, Operand::Direct(0x10)),
        Op::Call(OpCallType::WithinIndirect(Operand::Register(RegisterWordType::Bx))),
        Op::Jmp(OpCallType::InterIndirect(Operand::Address(AddressType::Bx, 0))),
        Op::Esc(0x2a, Operand::Register(RegisterWordType::Dx)),
    ];
    for op in cases {
        let bytes = encode_op(&op).unwrap();
        let mut it = CPUIterator::new(bytes);
        assert_eq!(parse_op(&mut it), Some(op.clone()));
        assert_eq!(encode_then_parse(&op), Some(op));
    }
}

#[test]
fn test_encode_rejects_undecodable_shapes() {
    // the unassigned left-shift alias, a byte-wide pop, a register operand
    // where the decoder demands memory, and a two-memory binary
    assert!(encode_op(&Op::ShiftByte {
        op: OpShiftOp::Sal,
        shift_type: OpShiftType::One,
        dest: Operand::Register(RegisterByteType::Al),
    })
    .is_none());
    assert!(encode_op(&Op::UnaryByte {
        op: OpUnaryOp::Pop,
        dest: Operand::Register(RegisterByteType::Al),
    })
    .is_none());
    assert!(encode_op(&Op::Lea(RegisterWordType::Ax, Operand::Register(RegisterWordType::Bx)))
        .is_none());
    assert!(encode_op(&Op::BinaryWord {
        op: OpBinaryOp::Add,
        src: Operand::Direct(1),
        dest: Operand::Direct(2),
    })
    .is_none());
}
