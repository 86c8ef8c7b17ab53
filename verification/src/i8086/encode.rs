//! Canonical byte encodings: one encoding for every operation the decoder
//! can produce, ModR/M forms included. Decoding a canonical encoding yields
//! the operation it was built from and consumes every byte, so encodings
//! round-trip through the decoder.

use super::cpu::CPUIterator;
use super::op::cond_jmp_of;
use super::op::immed_op_of;
use super::op::parse_binary_group_spec;
use super::op::byte_reg_of;
use super::op::parse_mod_rm_byte_spec;
use super::op::parse_mod_rm_word_spec;
use super::op::parse_op;
use super::op::seg_reg_of;
use super::op::shift_op_of;
use super::op::OpShiftOp;
use super::op::OpShiftType;
use super::op::OpUnaryOp;
use super::op::parse_op_spec;
use super::op::word_reg_of;
use super::op::Op;
use super::op::OpBinaryOp;
use super::op::OpCallType;
use super::op::OpCondJmpOp;
use super::op::OpNullaryOp;
use super::op::OpSize;
use super::operand::Operand;
use super::operand::OperandByte;
use super::operand::OperandWord;
use super::register::RegisterByteType;
use super::register::RegisterWordType;
use crate::mem::word_bytes;
use vstd::prelude::*;

verus! {

/// The operations this encoder writes down: every shape the decoder can
/// produce. What it refuses has no encoding: immediate destinations,
/// two-memory-operand forms, the unassigned left-shift alias, a byte-wide
/// pop, register operands where the decoder demands memory, and segment
/// registers in slots the tables reserve for general registers.
pub open spec fn encodable(op: Op) -> bool {
    match op {
        Op::Nullary(_) => true,
        Op::CondJmp { op: _, offset: _ } => true,
        Op::Int(_) => true,
        Op::Movs(_) => true,
        Op::Cmps(_) => true,
        Op::Scas(_) => true,
        Op::Lods(_) => true,
        Op::Stos(_) => true,
        Op::InFixed(_) => true,
        Op::OutFixed(_) => true,
        Op::InVariable(_, _) => true,
        Op::OutVariable(_, _) => true,
        Op::RetWithin => true,
        Op::RetWithinImm(_) => true,
        Op::RetInter => true,
        Op::RetInterImm(_) => true,
        Op::Segment(seg) => !general_word_reg(seg),
        Op::ShiftByte { op, shift_type: _, dest } => !(op is Sal) && rm_operand_byte(dest),
        Op::ShiftWord { op, shift_type: _, dest } => !(op is Sal) && rm_operand_word(dest),
        Op::UnaryByte { op, dest } => !(op is Pop) && rm_operand_byte(dest),
        Op::UnaryWord { op, dest } => match dest {
            Operand::Register(reg) => general_word_reg(reg) || op is Push || op is Pop,
            Operand::Address(_, _) => true,
            Operand::Direct(_) => true,
            _ => false,
        },
        Op::BinaryByte { op, src, dest } => match op {
            OpBinaryOp::Xchg => src is Register && rm_operand_byte(dest),
            OpBinaryOp::Test => (src is ImmByte || src is Register) && rm_operand_byte(dest),
            _ => ((src is ImmByte || src is Register) && rm_operand_byte(dest)) || ((src
                is Address || src is Direct) && dest is Register),
        },
        Op::BinaryWord { op, src, dest } => match op {
            OpBinaryOp::Xchg => (src matches Operand::Register(rs) && general_word_reg(rs))
                && rm_operand_word(dest),
            OpBinaryOp::Test => (src is ImmWord || (src matches Operand::Register(rs)
                && general_word_reg(rs))) && rm_operand_word(dest),
            OpBinaryOp::Mov => ((src is ImmWord || (src matches Operand::Register(rs)
                && general_word_reg(rs))) && rm_operand_word(dest)) || ((src is Address || src
                is Direct) && (dest matches Operand::Register(rd) && general_word_reg(rd))) || ((
            src matches Operand::Register(rs) && !general_word_reg(rs)) && rm_operand_word(dest))
                || ((dest matches Operand::Register(rd) && !general_word_reg(rd))
                && rm_operand_word(src)),
            _ => ((src is ImmWord || src is ImmByte || (src matches Operand::Register(rs)
                && general_word_reg(rs))) && rm_operand_word(dest)) || ((src is Address || src
                is Direct) && (dest matches Operand::Register(rd) && general_word_reg(rd))),
        },
        Op::Lea(reg, operand) => general_word_reg(reg) && mem_operand(operand),
        Op::Lds(reg, operand) => general_word_reg(reg) && mem_operand(operand),
        Op::Les(reg, operand) => general_word_reg(reg) && mem_operand(operand),
        Op::Call(ct) => match ct {
            OpCallType::WithinDirect(_) => true,
            OpCallType::InterDirect(_, _) => true,
            OpCallType::WithinIndirect(operand) => rm_operand_word(operand),
            OpCallType::InterIndirect(operand) => mem_operand(operand),
        },
        Op::Jmp(ct) => match ct {
            OpCallType::WithinDirect(_) => true,
            OpCallType::InterDirect(_, _) => true,
            OpCallType::WithinIndirect(operand) => rm_operand_word(operand),
            OpCallType::InterIndirect(operand) => mem_operand(operand),
        },
        Op::Esc(code, operand) => code < 64 && rm_operand_word(operand),
    }
}

/// Splitting an opcode byte built from a block base and a three-bit index
/// recovers both parts.
proof fn lemma_opcode_split()
    by (bit_vector)
    ensures
        forall|b: u8, i: u8|
            b & 0x07 == 0 && i < 8 ==> #[trigger] ((b | i) & 0xf8) == b && ((b | i) & 0x07) == i,
        forall|x: u8| #[trigger] (x & 0xf8) == (x / 8) * 8,
        forall|x: u8| #[trigger] (x & 0x07) == x % 8,
        forall|x: u8| #[trigger] (x & 0x0f) == x % 16,
        forall|x: u8| #[trigger] (x & 0x01) == x % 2,
        forall|x: u8| #[trigger] (x & 0x03) == x % 4,
        forall|x: u8| #[trigger] (x & 0x02) == ((x / 2) % 2) * 2,
        forall|x: u8| #[trigger] (x >> 1) == x / 2,
        forall|x: u8| #[trigger] (x >> 3) == x / 8,
        forall|x: u8| #[trigger] (x >> 6) == x / 64,
        forall|i: u8| i < 8 ==> #[trigger] (i << 3) == i * 8,
        forall|b: u8, i: u8| b & 0x07 == 0 && b < 0x40 && i < 8 ==> #[trigger] (b | i) < 0x40,
{
}

/// The low-nibble encoding of a short conditional branch.
fn cond_jmp_index(op: &OpCondJmpOp) -> (r: Option<u8>)
    ensures
        match r {
            Some(i) => i < 16 && cond_jmp_of(i) == *op,
            None => op is Jcxz || op is Loop || op is Loope || op is Loopne,
        },
{
    match op {
        OpCondJmpOp::Jo => Some(0),
        OpCondJmpOp::Jno => Some(1),
        OpCondJmpOp::Jb => Some(2),
        OpCondJmpOp::Jnb => Some(3),
        OpCondJmpOp::Je => Some(4),
        OpCondJmpOp::Jne => Some(5),
        OpCondJmpOp::Jbe => Some(6),
        OpCondJmpOp::Ja => Some(7),
        OpCondJmpOp::Js => Some(8),
        OpCondJmpOp::Jns => Some(9),
        OpCondJmpOp::Jp => Some(10),
        OpCondJmpOp::Jnp => Some(11),
        OpCondJmpOp::Jl => Some(12),
        OpCondJmpOp::Jge => Some(13),
        OpCondJmpOp::Jle => Some(14),
        OpCondJmpOp::Jg => Some(15),
        _ => None,
    }
}

/// The three-bit encoding of a general word register, the inverse of the
/// decode table.
fn word_reg_index(reg: &RegisterWordType) -> (r: Option<u8>)
    ensures
        match r {
            Some(i) => i < 8 && word_reg_of(i) == *reg,
            None => reg is Es || reg is Cs || reg is Ss || reg is Ds,
        },
{
    match reg {
        RegisterWordType::Ax => Some(0),
        RegisterWordType::Cx => Some(1),
        RegisterWordType::Dx => Some(2),
        RegisterWordType::Bx => Some(3),
        RegisterWordType::Sp => Some(4),
        RegisterWordType::Bp => Some(5),
        RegisterWordType::Si => Some(6),
        RegisterWordType::Di => Some(7),
        _ => None,
    }
}

/// One byte as a vector.
fn enc1(b0: u8) -> (r: Vec<u8>)
    ensures
        r@ =~= seq![b0],
{
    let mut v: Vec<u8> = Vec::new();
    v.push(b0);
    v
}

/// Two bytes as a vector.
fn enc2(b0: u8, b1: u8) -> (r: Vec<u8>)
    ensures
        r@ =~= seq![b0, b1],
{
    let mut v: Vec<u8> = Vec::new();
    v.push(b0);
    v.push(b1);
    v
}

/// An opcode byte followed by a little-endian word.
fn enc3(b0: u8, w: u16) -> (r: Vec<u8>)
    ensures
        r@ =~= seq![b0].add(word_bytes(w)),
{
    let mut v: Vec<u8> = Vec::new();
    v.push(b0);
    v.push((w & 0xff) as u8);
    v.push(((w >> 8) & 0xff) as u8);
    proof {
        crate::mem::lemma_word_bytes_values(w);
    }
    v
}

/// An opcode byte followed by two little-endian words.
fn enc5(b0: u8, w0: u16, w1: u16) -> (r: Vec<u8>)
    ensures
        r@ =~= seq![b0].add(word_bytes(w0)).add(word_bytes(w1)),
{
    let mut v: Vec<u8> = Vec::new();
    v.push(b0);
    v.push((w0 & 0xff) as u8);
    v.push(((w0 >> 8) & 0xff) as u8);
    v.push((w1 & 0xff) as u8);
    v.push(((w1 >> 8) & 0xff) as u8);
    proof {
        crate::mem::lemma_word_bytes_values(w0);
        crate::mem::lemma_word_bytes_values(w1);
    }
    v
}


/// The canonical encoding of an operation without operands.
fn encode_nullary(n: &OpNullaryOp) -> (r: Option<Vec<u8>>)
    ensures
        r is Some,
        match r {
            Some(bytes) => parse_op_spec(bytes@, 0) == (
                Some(Op::Nullary(*n)),
                bytes@.len() as int,
            ),
            None => true,
        },
{
    proof {
        lemma_opcode_split();
    }
    match n {
        OpNullaryOp::Xlat => Some(enc1(0xd7)),
        OpNullaryOp::Lahf => Some(enc1(0x9f)),
        OpNullaryOp::Sahf => Some(enc1(0x9e)),
        OpNullaryOp::Pushf => Some(enc1(0x9c)),
        OpNullaryOp::Popf => Some(enc1(0x9d)),
        OpNullaryOp::Aaa => Some(enc1(0x37)),
        OpNullaryOp::Daa => Some(enc1(0x27)),
        OpNullaryOp::Aas => Some(enc1(0x3f)),
        OpNullaryOp::Das => Some(enc1(0x2f)),
        OpNullaryOp::Aam => Some(enc2(0xd4, 0x0a)),
        OpNullaryOp::Aad => Some(enc2(0xd5, 0x0a)),
        OpNullaryOp::Cbw => Some(enc1(0x98)),
        OpNullaryOp::Cwd => Some(enc1(0x99)),
        OpNullaryOp::Rep => Some(enc1(0xf3)),
        OpNullaryOp::Repnz => Some(enc1(0xf2)),
        OpNullaryOp::Into => Some(enc1(0xce)),
        OpNullaryOp::Iret => Some(enc1(0xcf)),
        OpNullaryOp::Clc => Some(enc1(0xf8)),
        OpNullaryOp::Cmc => Some(enc1(0xf5)),
        OpNullaryOp::Stc => Some(enc1(0xf9)),
        OpNullaryOp::Cld => Some(enc1(0xfc)),
        OpNullaryOp::Std => Some(enc1(0xfd)),
        OpNullaryOp::Cli => Some(enc1(0xfa)),
        OpNullaryOp::Sti => Some(enc1(0xfb)),
        OpNullaryOp::Hlt => Some(enc1(0xf4)),
        OpNullaryOp::Wait => Some(enc1(0x9b)),
        OpNullaryOp::Lock => Some(enc1(0xf0)),
    }
}

/// The canonical encoding of a conditional short branch.
fn encode_cond_jmp(op: &OpCondJmpOp, offset: i8) -> (r: Option<Vec<u8>>)
    ensures
        r is Some,
        match r {
            Some(bytes) => parse_op_spec(bytes@, 0) == (
                Some(Op::CondJmp { op: *op, offset }),
                bytes@.len() as int,
            ),
            None => true,
        },
{
    proof {
        lemma_opcode_split();
    }
    let off: i8 = offset;
    proof {
        assert(((off as u8) as i8) == off) by (bit_vector);
    }
    match cond_jmp_index(op) {
        Some(i) => {
            let first: u8 = 0x70 | i;
            proof {
                assert(first & 0x0f == i && (first & 0xf8 == 0x70 || first & 0xf8 == 0x78))
                    by (bit_vector)
                    requires
                        first == 0x70 | i && i < 16,
                ;
                assert(cond_jmp_of(first & 0x0f) == *op);
            }
            Some(enc2(first, off as u8))
        },
        None => {
            let base: u8 = match op {
                OpCondJmpOp::Loopne => 0xe0,
                OpCondJmpOp::Loope => 0xe1,
                OpCondJmpOp::Loop => 0xe2,
                _ => 0xe3,
            };
            Some(enc2(base, off as u8))
        },
    }
}


/// The canonical encoding of the interrupt, string, port, return and
/// segment-prefix operations.
fn encode_plain(op: &Op) -> (r: Option<Vec<u8>>)
    requires
        *op is Int || *op is Movs || *op is Cmps || *op is Scas || *op is Lods || *op is Stos
            || *op is InFixed || *op is OutFixed || *op is InVariable || *op is OutVariable || *op
            is RetWithin || *op is RetWithinImm || *op is RetInter || *op is RetInterImm || *op
            is Segment,
    ensures
        r is Some <==> encodable(*op),
        match r {
            Some(bytes) => parse_op_spec(bytes@, 0) == (Some(*op), bytes@.len() as int),
            None => true,
        },
{
    proof {
        lemma_opcode_split();
        crate::mem::lemma_low_bits_u16();
    }
    match op {
        Op::Int(n) => Some(enc2(0xcd, *n)),
        Op::Movs(size) => match size {
            OpSize::Byte => Some(enc1(0xa4)),
            OpSize::Word => Some(enc1(0xa5)),
        },
        Op::Cmps(size) => match size {
            OpSize::Byte => Some(enc1(0xa6)),
            OpSize::Word => Some(enc1(0xa7)),
        },
        Op::Scas(size) => match size {
            OpSize::Byte => Some(enc1(0xae)),
            OpSize::Word => Some(enc1(0xaf)),
        },
        Op::Lods(size) => match size {
            OpSize::Byte => Some(enc1(0xac)),
            OpSize::Word => Some(enc1(0xad)),
        },
        Op::Stos(size) => match size {
            OpSize::Byte => Some(enc1(0xaa)),
            OpSize::Word => Some(enc1(0xab)),
        },
        Op::InFixed(size) => match size {
            OpSize::Byte => Some(enc1(0xec)),
            OpSize::Word => Some(enc1(0xed)),
        },
        Op::OutFixed(size) => match size {
            OpSize::Byte => Some(enc1(0xee)),
            OpSize::Word => Some(enc1(0xef)),
        },
        Op::InVariable(size, port) => match size {
            OpSize::Byte => Some(enc2(0xe4, *port)),
            OpSize::Word => Some(enc2(0xe5, *port)),
        },
        Op::OutVariable(size, port) => match size {
            OpSize::Byte => Some(enc2(0xe6, *port)),
            OpSize::Word => Some(enc2(0xe7, *port)),
        },
        Op::RetWithin => Some(enc1(0xc3)),
        Op::RetWithinImm(w) => {
            proof {
                crate::mem::lemma_word_bytes_values(*w);
            }
            Some(enc3(0xc2, *w))
        },
        Op::RetInter => Some(enc1(0xcb)),
        Op::RetInterImm(w) => {
            proof {
                crate::mem::lemma_word_bytes_values(*w);
            }
            Some(enc3(0xca, *w))
        },
        Op::Segment(seg) => match seg {
            RegisterWordType::Es => Some(enc1(0x26)),
            RegisterWordType::Cs => Some(enc1(0x2e)),
            RegisterWordType::Ss => Some(enc1(0x36)),
            RegisterWordType::Ds => Some(enc1(0x3e)),
            _ => None,
        },
        _ => None,
    }
}

/// The canonical byte encoding of an operation. Decoding the returned
/// bytes yields the operation back and consumes them all; only shapes the
/// decoder itself can never produce have no encoding.
#[verifier::rlimit(100)]
#[verifier::spinoff_prover]
pub fn encode_op(op: &Op) -> (r: Option<Vec<u8>>)
    ensures
        r is Some <==> encodable(*op),
        match r {
            Some(bytes) => parse_op_spec(bytes@, 0) == (Some(*op), bytes@.len() as int),
            None => true,
        },
{
    proof {
        lemma_opcode_split();
        crate::mem::lemma_low_bits_u16();
    }
    match op {
        Op::Nullary(n) => encode_nullary(n),
        Op::CondJmp { op, offset } => encode_cond_jmp(op, *offset),
        Op::Int(_) => encode_plain(op),
        Op::Movs(_) => encode_plain(op),
        Op::Cmps(_) => encode_plain(op),
        Op::Scas(_) => encode_plain(op),
        Op::Lods(_) => encode_plain(op),
        Op::Stos(_) => encode_plain(op),
        Op::InFixed(_) => encode_plain(op),
        Op::OutFixed(_) => encode_plain(op),
        Op::InVariable(_, _) => encode_plain(op),
        Op::OutVariable(_, _) => encode_plain(op),
        Op::RetWithin => encode_plain(op),
        Op::RetWithinImm(_) => encode_plain(op),
        Op::RetInter => encode_plain(op),
        Op::RetInterImm(_) => encode_plain(op),
        Op::Segment(_) => encode_plain(op),
        Op::BinaryByte { op, src, dest } => encode_binary_byte(op, src, dest),
        Op::BinaryWord { op, src, dest } => encode_binary_word(op, src, dest),
        Op::Call(ct) => match ct {
            OpCallType::WithinDirect(w) => {
                proof {
                    crate::mem::lemma_word_bytes_values(*w);
                }
                Some(enc3(0xe8, *w))
            },
            OpCallType::InterDirect(off, seg) => {
                proof {
                    crate::mem::lemma_word_bytes_values(*off);
                    crate::mem::lemma_word_bytes_values(*seg);
                }
                Some(enc5(0x9a, *off, *seg))
            },
            OpCallType::WithinIndirect(operand) => encode_indirect(true, false, operand),
            OpCallType::InterIndirect(operand) => encode_indirect(true, true, operand),
        },
        Op::Jmp(ct) => match ct {
            OpCallType::WithinDirect(w) => {
                proof {
                    crate::mem::lemma_word_bytes_values(*w);
                }
                Some(enc3(0xe9, *w))
            },
            OpCallType::InterDirect(off, seg) => {
                proof {
                    crate::mem::lemma_word_bytes_values(*off);
                    crate::mem::lemma_word_bytes_values(*seg);
                }
                Some(enc5(0xea, *off, *seg))
            },
            OpCallType::WithinIndirect(operand) => encode_indirect(false, false, operand),
            OpCallType::InterIndirect(operand) => encode_indirect(false, true, operand),
        },
        Op::UnaryByte { op, dest } => encode_unary_byte(op, dest),
        Op::UnaryWord { op, dest } => encode_unary_word(op, dest),
        Op::ShiftByte { op, shift_type, dest } => encode_shift_byte(op, shift_type, dest),
        Op::ShiftWord { op, shift_type, dest } => encode_shift_word(op, shift_type, dest),
        Op::Lea(reg, operand) => encode_load(0x8d, reg, operand),
        Op::Les(reg, operand) => encode_load(0xc4, reg, operand),
        Op::Lds(reg, operand) => encode_load(0xc5, reg, operand),
        Op::Esc(code, operand) => encode_esc(*code, operand),
    }
}

/// Round trip on the executable decoder: decoding a canonical encoding
/// yields the operation it was built from and consumes every byte.
pub fn encode_then_parse(op: &Op) -> (r: Option<Op>)
    ensures
        encodable(*op) ==> r == Some(*op),
        !encodable(*op) ==> r is None,
{
    match encode_op(op) {
        Some(bytes) => {
            let mut it = CPUIterator::new(bytes);
            parse_op(&mut it)
        },
        None => None,
    }
}

/// Splitting a ModR/M byte built from its three fields recovers each field.
proof fn lemma_modrm_split()
    by (bit_vector)
    ensures
        forall|m2: u8, f: u8, rm: u8|
            m2 < 4 && f < 8 && rm < 8 ==> ((#[trigger] (((m2 << 6) | (f << 3)) | rm)) >> 6) & 0x03
                == m2 && ((((m2 << 6) | (f << 3)) | rm) >> 3) & 0x07 == f && ((((m2 << 6) | (f
                << 3)) | rm)) & 0x07 == rm,
        forall|d: i16| #[trigger] ((d as u16) as i16) == d,
        forall|d: i16|
            -128 <= d <= 127 ==> ((((#[trigger] (d as i8)) as u8) as i8) as i16) == d,
{
}

/// The three-bit encoding of a byte register, the inverse of the decode
/// table.
fn byte_reg_index(reg: &RegisterByteType) -> (r: u8)
    ensures
        r < 8,
        byte_reg_of(r) == *reg,
{
    match reg {
        RegisterByteType::Al => 0,
        RegisterByteType::Cl => 1,
        RegisterByteType::Dl => 2,
        RegisterByteType::Bl => 3,
        RegisterByteType::Ah => 4,
        RegisterByteType::Ch => 5,
        RegisterByteType::Dh => 6,
        RegisterByteType::Bh => 7,
    }
}

/// The two-bit encoding of a segment register.
fn seg_reg_index(reg: &RegisterWordType) -> (r: Option<u8>)
    ensures
        match r {
            Some(i) => i < 4 && seg_reg_of(i) == Some(*reg),
            None => !(reg is Es || reg is Cs || reg is Ss || reg is Ds),
        },
{
    match reg {
        RegisterWordType::Es => Some(0),
        RegisterWordType::Cs => Some(1),
        RegisterWordType::Ss => Some(2),
        RegisterWordType::Ds => Some(3),
        _ => None,
    }
}

/// Whether an operand can stand in the r/m slot of a ModR/M byte: a
/// general register or a memory reference.
pub open spec fn rm_operand_word(o: OperandWord) -> bool {
    match o {
        Operand::Register(r) => !(r is Es || r is Cs || r is Ss || r is Ds),
        Operand::Address(_, _) => true,
        Operand::Direct(_) => true,
        _ => false,
    }
}

/// The byte-width counterpart of `rm_operand_word`: every byte register
/// fits.
pub open spec fn rm_operand_byte(o: OperandByte) -> bool {
    !(o is ImmByte || o is ImmWord)
}

/// Whether an operand is a memory reference, as the far-pointer and
/// far-indirect forms require.
pub open spec fn mem_operand(o: OperandWord) -> bool {
    o is Address || o is Direct
}

/// The canonical ModR/M byte and displacement bytes of a word-width r/m
/// operand, carrying the given reg field: parsing them back at any stream
/// position yields the operand.
fn encode_mod_rm_word(field: u8, operand: &OperandWord) -> (r: Option<(u8, Vec<u8>)>)
    requires
        field < 8,
    ensures
        r is Some <==> rm_operand_word(*operand),
        match r {
            Some(p) => (p.0 >> 3) & 0x07 == field && p.1@.len() <= 2 && forall|s: Seq<u8>, i: int|
                0 <= i && i + p.1@.len() <= s.len() && s.subrange(i, i + p.1@.len() as int)
                    == p.1@ ==> #[trigger] parse_mod_rm_word_spec(p.0, s, i) == (
                Some(*operand),
                i + p.1@.len(),
            ),
            None => true,
        },
{
    proof {
        lemma_modrm_split();
        crate::mem::lemma_low_bits_u16();
    }
    match operand {
        Operand::Register(reg) => match word_reg_index(reg) {
            Some(rm) => {
                let second = ((3u8 << 6) | (field << 3)) | rm;
                Some((second, Vec::new()))
            },
            None => None,
        },
        Operand::Direct(off) => {
            let second = (field << 3) | 6;
            proof {
                assert((((0u8 << 6) | (field << 3)) | 6) == ((field << 3) | 6)) by (bit_vector);
                crate::mem::lemma_word_bytes_values(*off);
            }
            let w = *off;
            let mut extra: Vec<u8> = Vec::new();
            extra.push((w & 0xff) as u8);
            extra.push(((w >> 8) & 0xff) as u8);
            proof {
                assert(extra@ =~= word_bytes(w));
            }
            Some((second, extra))
        },
        Operand::Address(at, disp) => {
            let rm = at.to_value();
            let d = *disp;
            if d == 0 && rm != 6 {
                let second = (field << 3) | rm;
                proof {
                    assert((((0u8 << 6) | (field << 3)) | rm) == ((field << 3) | rm))
                        by (bit_vector);
                }
                Some((second, Vec::new()))
            } else if -128 <= d && d <= 127 {
                let second = ((1u8 << 6) | (field << 3)) | rm;
                let b = (d as i8) as u8;
                let mut extra: Vec<u8> = Vec::new();
                extra.push(b);
                proof {
                    assert forall|s: Seq<u8>, i: int|
                        0 <= i && i + 1 <= s.len() && s.subrange(i, i + 1)
                            == extra@ implies #[trigger] parse_mod_rm_word_spec(second, s, i) == (
                        Some(*operand),
                        i + 1,
                    ) by {
                        assert(s.subrange(i, i + 1)[0] == s[i]);
                        assert(s[i] == b);
                    }
                }
                Some((second, extra))
            } else {
                let second = ((2u8 << 6) | (field << 3)) | rm;
                let w = d as u16;
                proof {
                    crate::mem::lemma_word_bytes_values(w);
                }
                let mut extra: Vec<u8> = Vec::new();
                extra.push((w & 0xff) as u8);
                extra.push(((w >> 8) & 0xff) as u8);
                proof {
                    assert(extra@ =~= word_bytes(w));
                    assert forall|s: Seq<u8>, i: int|
                        0 <= i && i + 2 <= s.len() && s.subrange(i, i + 2)
                            == extra@ implies #[trigger] parse_mod_rm_word_spec(second, s, i) == (
                        Some(*operand),
                        i + 2,
                    ) by {
                        assert(s.subrange(i, i + 2)[0] == s[i] && s.subrange(i, i + 2)[1] == s[i
                            + 1]);
                        assert(s[i] == (w & 0xff) as u8 && s[i + 1] == ((w >> 8) & 0xff) as u8);
                    }
                }
                Some((second, extra))
            }
        },
        Operand::ImmWord(_) => None,
        Operand::ImmByte(_) => None,
    }
}

/// The byte-width counterpart of `encode_mod_rm_word`.
fn encode_mod_rm_byte(field: u8, operand: &OperandByte) -> (r: Option<(u8, Vec<u8>)>)
    requires
        field < 8,
    ensures
        r is Some <==> rm_operand_byte(*operand),
        match r {
            Some(p) => (p.0 >> 3) & 0x07 == field && p.1@.len() <= 2 && forall|s: Seq<u8>, i: int|
                0 <= i && i + p.1@.len() <= s.len() && s.subrange(i, i + p.1@.len() as int)
                    == p.1@ ==> #[trigger] parse_mod_rm_byte_spec(p.0, s, i) == (
                Some(*operand),
                i + p.1@.len(),
            ),
            None => true,
        },
{
    proof {
        lemma_modrm_split();
        crate::mem::lemma_low_bits_u16();
    }
    match operand {
        Operand::Register(reg) => {
            let rm = byte_reg_index(reg);
            let second = ((3u8 << 6) | (field << 3)) | rm;
            Some((second, Vec::new()))
        },
        Operand::Direct(off) => {
            let second = (field << 3) | 6;
            proof {
                assert((((0u8 << 6) | (field << 3)) | 6) == ((field << 3) | 6)) by (bit_vector);
                crate::mem::lemma_word_bytes_values(*off);
            }
            let w = *off;
            let mut extra: Vec<u8> = Vec::new();
            extra.push((w & 0xff) as u8);
            extra.push(((w >> 8) & 0xff) as u8);
            proof {
                assert(extra@ =~= word_bytes(w));
            }
            Some((second, extra))
        },
        Operand::Address(at, disp) => {
            let rm = at.to_value();
            let d = *disp;
            if d == 0 && rm != 6 {
                let second = (field << 3) | rm;
                proof {
                    assert((((0u8 << 6) | (field << 3)) | rm) == ((field << 3) | rm))
                        by (bit_vector);
                }
                Some((second, Vec::new()))
            } else if -128 <= d && d <= 127 {
                let second = ((1u8 << 6) | (field << 3)) | rm;
                let b = (d as i8) as u8;
                let mut extra: Vec<u8> = Vec::new();
                extra.push(b);
                proof {
                    assert forall|s: Seq<u8>, i: int|
                        0 <= i && i + 1 <= s.len() && s.subrange(i, i + 1)
                            == extra@ implies #[trigger] parse_mod_rm_byte_spec(second, s, i) == (
                        Some(*operand),
                        i + 1,
                    ) by {
                        assert(s.subrange(i, i + 1)[0] == s[i]);
                        assert(s[i] == b);
                    }
                }
                Some((second, extra))
            } else {
                let second = ((2u8 << 6) | (field << 3)) | rm;
                let w = d as u16;
                proof {
                    crate::mem::lemma_word_bytes_values(w);
                }
                let mut extra: Vec<u8> = Vec::new();
                extra.push((w & 0xff) as u8);
                extra.push(((w >> 8) & 0xff) as u8);
                proof {
                    assert(extra@ =~= word_bytes(w));
                    assert forall|s: Seq<u8>, i: int|
                        0 <= i && i + 2 <= s.len() && s.subrange(i, i + 2)
                            == extra@ implies #[trigger] parse_mod_rm_byte_spec(second, s, i) == (
                        Some(*operand),
                        i + 2,
                    ) by {
                        assert(s.subrange(i, i + 2)[0] == s[i] && s.subrange(i, i + 2)[1] == s[i
                            + 1]);
                        assert(s[i] == (w & 0xff) as u8 && s[i + 1] == ((w >> 8) & 0xff) as u8);
                    }
                }
                Some((second, extra))
            }
        },
        Operand::ImmWord(_) => None,
        Operand::ImmByte(_) => None,
    }
}

/// An opcode byte, a ModR/M byte and its displacement bytes.
fn enc_modrm(opcode: u8, second: u8, extra: Vec<u8>) -> (r: Vec<u8>)
    ensures
        r@ =~= seq![opcode, second].add(extra@),
        r@.len() == 2 + extra@.len(),
        r@.subrange(2, r@.len() as int) =~= extra@,
        r@[0] == opcode && r@[1] == second,
{
    let mut v: Vec<u8> = Vec::new();
    v.push(opcode);
    v.push(second);
    let mut tail = extra;
    v.append(&mut tail);
    v
}

/// As `enc_modrm`, with one trailing immediate byte.
fn enc_modrm_imm8(opcode: u8, second: u8, extra: Vec<u8>, imm: u8) -> (r: Vec<u8>)
    ensures
        r@.len() == 3 + extra@.len(),
        r@.subrange(2, 2 + extra@.len() as int) =~= extra@,
        r@[0] == opcode && r@[1] == second && r@[2 + extra@.len() as int] == imm,
{
    let mut v: Vec<u8> = Vec::new();
    v.push(opcode);
    v.push(second);
    let mut tail = extra;
    v.append(&mut tail);
    v.push(imm);
    v
}

/// As `enc_modrm`, with a trailing little-endian immediate word.
fn enc_modrm_imm16(opcode: u8, second: u8, extra: Vec<u8>, imm: u16) -> (r: Vec<u8>)
    ensures
        r@.len() == 4 + extra@.len(),
        r@.subrange(2, 2 + extra@.len() as int) =~= extra@,
        r@[0] == opcode && r@[1] == second,
        r@[2 + extra@.len() as int] == (imm & 0xff) as u8,
        r@[3 + extra@.len() as int] == ((imm >> 8) & 0xff) as u8,
{
    let mut v: Vec<u8> = Vec::new();
    v.push(opcode);
    v.push(second);
    let mut tail = extra;
    v.append(&mut tail);
    v.push((imm & 0xff) as u8);
    v.push(((imm >> 8) & 0xff) as u8);
    v
}

/// The sub-opcode of a shift or rotate, the inverse of the decode table;
/// the left-shift alias has no encoding of its own, its slot being
/// unassigned.
fn shift_op_index(op: &OpShiftOp) -> (r: Option<u8>)
    ensures
        match r {
            Some(i) => i < 8 && i != 6 && shift_op_of(i) == *op,
            None => op is Sal,
        },
{
    match op {
        OpShiftOp::Rol => Some(0),
        OpShiftOp::Ror => Some(1),
        OpShiftOp::Rcl => Some(2),
        OpShiftOp::Rcr => Some(3),
        OpShiftOp::Shl => Some(4),
        OpShiftOp::Shr => Some(5),
        OpShiftOp::Sar => Some(7),
        OpShiftOp::Sal => None,
    }
}

/// The canonical encoding of a byte-width shift or rotate.
fn encode_shift_byte(op: &OpShiftOp, shift_type: &OpShiftType, dest: &OperandByte) -> (r: Option<
    Vec<u8>,
>)
    ensures
        r is Some <==> (!(*op is Sal) && rm_operand_byte(*dest)),
        match r {
            Some(bytes) => parse_op_spec(bytes@, 0) == (
                Some(Op::ShiftByte { op: *op, shift_type: *shift_type, dest: *dest }),
                bytes@.len() as int,
            ),
            None => true,
        },
{
    proof {
        lemma_opcode_split();
    }
    let field = match shift_op_index(op) {
        Some(i) => i,
        None => {
            return None;
        },
    };
    let (second, extra) = match encode_mod_rm_byte(field, dest) {
        Some(p) => p,
        None => {
            return None;
        },
    };
    let ghost ex = extra@;
    let opcode: u8 = match shift_type {
        OpShiftType::One => 0xd0,
        OpShiftType::Cl => 0xd2,
    };
    let bytes = enc_modrm(opcode, second, extra);
    proof {
        let s = bytes@;
        let expect: (Option<OperandByte>, int) = (Some(*dest), 2 + ex.len() as int);
        assert(parse_mod_rm_byte_spec(second, s, 2) == expect);
    }
    Some(bytes)
}

/// The canonical encoding of a word-width shift or rotate.
fn encode_shift_word(op: &OpShiftOp, shift_type: &OpShiftType, dest: &OperandWord) -> (r: Option<
    Vec<u8>,
>)
    ensures
        r is Some <==> (!(*op is Sal) && rm_operand_word(*dest)),
        match r {
            Some(bytes) => parse_op_spec(bytes@, 0) == (
                Some(Op::ShiftWord { op: *op, shift_type: *shift_type, dest: *dest }),
                bytes@.len() as int,
            ),
            None => true,
        },
{
    proof {
        lemma_opcode_split();
    }
    let field = match shift_op_index(op) {
        Some(i) => i,
        None => {
            return None;
        },
    };
    let (second, extra) = match encode_mod_rm_word(field, dest) {
        Some(p) => p,
        None => {
            return None;
        },
    };
    let ghost ex = extra@;
    let opcode: u8 = match shift_type {
        OpShiftType::One => 0xd1,
        OpShiftType::Cl => 0xd3,
    };
    let bytes = enc_modrm(opcode, second, extra);
    proof {
        let s = bytes@;
        let expect: (Option<OperandWord>, int) = (Some(*dest), 2 + ex.len() as int);
        assert(parse_mod_rm_word_spec(second, s, 2) == expect);
    }
    Some(bytes)
}

/// Whether a word register is one of the eight general registers.
pub open spec fn general_word_reg(r: RegisterWordType) -> bool {
    !(r is Es || r is Cs || r is Ss || r is Ds)
}

/// The canonical encoding of a one-operand byte instruction: the
/// increment/push group or the multiply/negate group; a byte-wide pop has
/// no encoding.
fn encode_unary_byte(op: &OpUnaryOp, dest: &OperandByte) -> (r: Option<Vec<u8>>)
    ensures
        r is Some <==> (!(*op is Pop) && rm_operand_byte(*dest)),
        match r {
            Some(bytes) => parse_op_spec(bytes@, 0) == (
                Some(Op::UnaryByte { op: *op, dest: *dest }),
                bytes@.len() as int,
            ),
            None => true,
        },
{
    proof {
        lemma_opcode_split();
    }
    let (opcode, field): (u8, u8) = match op {
        OpUnaryOp::Inc => (0xfe, 0),
        OpUnaryOp::Dec => (0xfe, 1),
        OpUnaryOp::Push => (0xfe, 6),
        OpUnaryOp::Not => (0xf6, 2),
        OpUnaryOp::Neg => (0xf6, 3),
        OpUnaryOp::Mul => (0xf6, 4),
        OpUnaryOp::Imul => (0xf6, 5),
        OpUnaryOp::Div => (0xf6, 6),
        OpUnaryOp::Idiv => (0xf6, 7),
        OpUnaryOp::Pop => {
            return None;
        },
    };
    let (second, extra) = match encode_mod_rm_byte(field, dest) {
        Some(p) => p,
        None => {
            return None;
        },
    };
    let ghost ex = extra@;
    let bytes = enc_modrm(opcode, second, extra);
    proof {
        let s = bytes@;
        let expect: (Option<OperandByte>, int) = (Some(*dest), 2 + ex.len() as int);
        assert(parse_mod_rm_byte_spec(second, s, 2) == expect);
    }
    Some(bytes)
}

/// The canonical encoding of a one-operand word instruction: the short
/// register forms where they exist, the segment push/pop bytes, and the
/// ModR/M groups for memory operands and the multiply/negate family.
fn encode_unary_word(op: &OpUnaryOp, dest: &OperandWord) -> (r: Option<Vec<u8>>)
    ensures
        r is Some <==> (match *dest {
            Operand::Register(reg) => general_word_reg(reg) || *op is Push || *op is Pop,
            Operand::Address(_, _) => true,
            Operand::Direct(_) => true,
            _ => false,
        }),
        match r {
            Some(bytes) => parse_op_spec(bytes@, 0) == (
                Some(Op::UnaryWord { op: *op, dest: *dest }),
                bytes@.len() as int,
            ),
            None => true,
        },
{
    proof {
        lemma_opcode_split();
    }
    match dest {
        Operand::Register(reg) => match word_reg_index(reg) {
            Some(i) => match op {
                OpUnaryOp::Push => Some(enc1(0x50 | i)),
                OpUnaryOp::Pop => Some(enc1(0x58 | i)),
                OpUnaryOp::Inc => Some(enc1(0x40 | i)),
                OpUnaryOp::Dec => Some(enc1(0x48 | i)),
                _ => encode_unary_word_modrm(op, dest),
            },
            None => match op {
                OpUnaryOp::Push => match reg {
                    RegisterWordType::Es => Some(enc1(0x06)),
                    RegisterWordType::Cs => Some(enc1(0x0e)),
                    RegisterWordType::Ss => Some(enc1(0x16)),
                    _ => Some(enc1(0x1e)),
                },
                OpUnaryOp::Pop => match reg {
                    RegisterWordType::Es => Some(enc1(0x07)),
                    RegisterWordType::Cs => Some(enc1(0x0f)),
                    RegisterWordType::Ss => Some(enc1(0x17)),
                    _ => Some(enc1(0x1f)),
                },
                _ => None,
            },
        },
        Operand::ImmWord(_) => None,
        Operand::ImmByte(_) => None,
        _ => encode_unary_word_modrm(op, dest),
    }
}

/// The ModR/M encodings of the one-operand word instructions.
fn encode_unary_word_modrm(op: &OpUnaryOp, dest: &OperandWord) -> (r: Option<Vec<u8>>)
    requires
        rm_operand_word(*dest),
    ensures
        r is Some,
        match r {
            Some(bytes) => parse_op_spec(bytes@, 0) == (
                Some(Op::UnaryWord { op: *op, dest: *dest }),
                bytes@.len() as int,
            ),
            None => true,
        },
{
    proof {
        lemma_opcode_split();
    }
    let (opcode, field): (u8, u8) = match op {
        OpUnaryOp::Inc => (0xff, 0),
        OpUnaryOp::Dec => (0xff, 1),
        OpUnaryOp::Push => (0xff, 6),
        OpUnaryOp::Pop => (0x8f, 0),
        OpUnaryOp::Not => (0xf7, 2),
        OpUnaryOp::Neg => (0xf7, 3),
        OpUnaryOp::Mul => (0xf7, 4),
        OpUnaryOp::Imul => (0xf7, 5),
        OpUnaryOp::Div => (0xf7, 6),
        OpUnaryOp::Idiv => (0xf7, 7),
    };
    let (second, extra) = match encode_mod_rm_word(field, dest) {
        Some(p) => p,
        None => {
            return None;
        },
    };
    let ghost ex = extra@;
    let bytes = enc_modrm(opcode, second, extra);
    proof {
        let s = bytes@;
        let expect: (Option<OperandWord>, int) = (Some(*dest), 2 + ex.len() as int);
        assert(parse_mod_rm_word_spec(second, s, 2) == expect);
    }
    Some(bytes)
}

/// The canonical encoding of a load-effective-address or far-pointer load:
/// the register field names the target, and the operand must be a memory
/// reference, as the decoder demands.
fn encode_load(opcode: u8, reg: &RegisterWordType, operand: &OperandWord) -> (r: Option<Vec<u8>>)
    requires
        opcode == 0x8d || opcode == 0xc4 || opcode == 0xc5,
    ensures
        r is Some <==> (general_word_reg(*reg) && mem_operand(*operand)),
        match r {
            Some(bytes) => ({
                let decoded = if opcode == 0x8d {
                    Op::Lea(*reg, *operand)
                } else if opcode == 0xc4 {
                    Op::Les(*reg, *operand)
                } else {
                    Op::Lds(*reg, *operand)
                };
                parse_op_spec(bytes@, 0) == (Some(decoded), bytes@.len() as int)
            }),
            None => true,
        },
{
    proof {
        lemma_opcode_split();
    }
    let field = match word_reg_index(reg) {
        Some(i) => i,
        None => {
            return None;
        },
    };
    match operand {
        Operand::Register(_) => None,
        Operand::ImmWord(_) => None,
        Operand::ImmByte(_) => None,
        _ => {
            let (second, extra) = match encode_mod_rm_word(field, operand) {
                Some(p) => p,
                None => {
                    return None;
                },
            };
            let ghost ex = extra@;
            let bytes = enc_modrm(opcode, second, extra);
            proof {
                let s = bytes@;
                let expect: (Option<OperandWord>, int) = (Some(*operand), 2 + ex.len() as int);
                assert(parse_mod_rm_word_spec(second, s, 2) == expect);
            }
            Some(bytes)
        },
    }
}

/// The canonical encoding of an indirect call or jump: near forms take any
/// r/m operand, far forms a memory operand only.
fn encode_indirect(is_call: bool, far: bool, operand: &OperandWord) -> (r: Option<Vec<u8>>)
    ensures
        r is Some <==> (if far {
            mem_operand(*operand)
        } else {
            rm_operand_word(*operand)
        }),
        match r {
            Some(bytes) => ({
                let ct = if far {
                    OpCallType::InterIndirect(*operand)
                } else {
                    OpCallType::WithinIndirect(*operand)
                };
                let decoded = if is_call {
                    Op::Call(ct)
                } else {
                    Op::Jmp(ct)
                };
                parse_op_spec(bytes@, 0) == (Some(decoded), bytes@.len() as int)
            }),
            None => true,
        },
{
    proof {
        lemma_opcode_split();
    }
    if far {
        match operand {
            Operand::Address(_, _) => (),
            Operand::Direct(_) => (),
            _ => {
                return None;
            },
        }
    }
    let field: u8 = match (is_call, far) {
        (true, false) => 2,
        (true, true) => 3,
        (false, false) => 4,
        (false, true) => 5,
    };
    let (second, extra) = match encode_mod_rm_word(field, operand) {
        Some(p) => p,
        None => {
            return None;
        },
    };
    let ghost ex = extra@;
    let bytes = enc_modrm(0xff, second, extra);
    proof {
        let s = bytes@;
        let expect: (Option<OperandWord>, int) = (Some(*operand), 2 + ex.len() as int);
        assert(parse_mod_rm_word_spec(second, s, 2) == expect);
    }
    Some(bytes)
}

/// The canonical encoding of a coprocessor escape: the six-bit identifier
/// spans the low opcode bits and the reg field.
fn encode_esc(code: u8, operand: &OperandWord) -> (r: Option<Vec<u8>>)
    ensures
        r is Some <==> (code < 64 && rm_operand_word(*operand)),
        match r {
            Some(bytes) => parse_op_spec(bytes@, 0) == (
                Some(Op::Esc(code, *operand)),
                bytes@.len() as int,
            ),
            None => true,
        },
{
    proof {
        lemma_opcode_split();
    }
    if code >= 64 {
        return None;
    }
    let high = code >> 3;
    let field = code & 0x07;
    proof {
        assert(high < 8 && field < 8 && ((0xd8u8 | high) & 0x07) == high && ((high << 3) + field)
            == code) by (bit_vector)
            requires
                high == code >> 3 && field == code & 0x07 && code < 64,
        ;
    }
    let (second, extra) = match encode_mod_rm_word(field, operand) {
        Some(p) => p,
        None => {
            return None;
        },
    };
    let ghost ex = extra@;
    let bytes = enc_modrm(0xd8 | high, second, extra);
    proof {
        let s = bytes@;
        let expect: (Option<OperandWord>, int) = (Some(*operand), 2 + ex.len() as int);
        assert(parse_mod_rm_word_spec(second, s, 2) == expect);
    }
    Some(bytes)
}

/// The sub-opcode of the eight arithmetic-logic operations, the inverse of
/// the immediate-group decode table.
fn alu_index(op: &OpBinaryOp) -> (r: Option<u8>)
    ensures
        match r {
            Some(i) => i < 8 && immed_op_of(i) == *op,
            None => *op is Test || *op is Xchg || *op is Mov,
        },
{
    match op {
        OpBinaryOp::Add => Some(0),
        OpBinaryOp::Or => Some(1),
        OpBinaryOp::Adc => Some(2),
        OpBinaryOp::Sbb => Some(3),
        OpBinaryOp::And => Some(4),
        OpBinaryOp::Sub => Some(5),
        OpBinaryOp::Xor => Some(6),
        OpBinaryOp::Cmp => Some(7),
        _ => None,
    }
}

/// In the low quarter of the opcode map, a first byte with an octet below
/// six decodes through the shared arithmetic-logic group, whose operation
/// is the block index.
proof fn lemma_alu_dispatch(s: Seq<u8>)
    requires
        s.len() >= 1,
        s[0] < 0x40,
        (s[0] & 0x07) <= 5,
    ensures
        parse_op_spec(s, 0) == parse_binary_group_spec(
            immed_op_of((s[0] >> 3) & 0x07),
            s[0],
            s,
            1,
        ),
{
    lemma_opcode_split();
    let first = s[0];
    let k = (first >> 3) & 0x07;
    assert(first & 0xf8 == (first / 8) * 8);
    assert(k == (first / 8) % 8);
    assert(first / 8 < 8);
    assert(k == first / 8);
    assert(first & 0xf8 == k * 8);
}

/// The canonical encoding of a two-operand byte instruction.
#[verifier::rlimit(100)]
#[verifier::spinoff_prover]
fn encode_binary_byte(op: &OpBinaryOp, src: &OperandByte, dest: &OperandByte) -> (r: Option<
    Vec<u8>,
>)
    ensures
        r is Some <==> (match *op {
            OpBinaryOp::Xchg => *src is Register && rm_operand_byte(*dest),
            OpBinaryOp::Test => (*src is ImmByte || *src is Register) && rm_operand_byte(*dest),
            _ => ((*src is ImmByte || *src is Register) && rm_operand_byte(*dest)) || ((*src
                is Address || *src is Direct) && *dest is Register),
        }),
        match r {
            Some(bytes) => parse_op_spec(bytes@, 0) == (
                Some(Op::BinaryByte { op: *op, src: *src, dest: *dest }),
                bytes@.len() as int,
            ),
            None => true,
        },
{
    proof {
        lemma_opcode_split();
    }
    match alu_index(op) {
        Some(idx) => match src {
            Operand::ImmByte(v) => {
                let (second, extra) = match encode_mod_rm_byte(idx, dest) {
                    Some(p) => p,
                    None => {
                        return None;
                    },
                };
                let ghost ex = extra@;
                let bytes = enc_modrm_imm8(0x80, second, extra, *v);
                proof {
                    let s = bytes@;
                    let expect: (Option<OperandByte>, int) = (
                        Some(*dest),
                        2 + ex.len() as int,
                    );
                    assert(parse_mod_rm_byte_spec(second, s, 2) == expect);
                }
                Some(bytes)
            },
            Operand::Register(rb) => {
                let field = byte_reg_index(rb);
                let (second, extra) = match encode_mod_rm_byte(field, dest) {
                    Some(p) => p,
                    None => {
                        return None;
                    },
                };
                let ghost ex = extra@;
                let opcode = idx << 3;
                let bytes = enc_modrm(opcode, second, extra);
                proof {
                    let s = bytes@;
                    let expect: (Option<OperandByte>, int) = (
                        Some(*dest),
                        2 + ex.len() as int,
                    );
                    assert(parse_mod_rm_byte_spec(second, s, 2) == expect);
                    assert(opcode & 0x07 == 0 && opcode < 0x40);
                    lemma_alu_dispatch(s);
                }
                Some(bytes)
            },
            Operand::ImmWord(_) => None,
            _ => match dest {
                Operand::Register(rd) => {
                    let field = byte_reg_index(rd);
                    let (second, extra) = match encode_mod_rm_byte(field, src) {
                        Some(p) => p,
                        None => {
                            return None;
                        },
                    };
                    let ghost ex = extra@;
                    let opcode = (idx << 3) | 2;
                    let bytes = enc_modrm(opcode, second, extra);
                    proof {
                        let s = bytes@;
                        let expect: (Option<OperandByte>, int) = (
                            Some(*src),
                            2 + ex.len() as int,
                        );
                        assert(parse_mod_rm_byte_spec(second, s, 2) == expect);
                        assert(opcode & 0x07 == 2 && opcode < 0x40 && opcode & 0x02 == 2)
                            by (bit_vector)
                            requires
                                opcode == (idx << 3) | 2 && idx < 8,
                        ;
                        lemma_alu_dispatch(s);
                    }
                    Some(bytes)
                },
                _ => None,
            },
        },
        None => match op {
            OpBinaryOp::Test => match src {
                Operand::ImmByte(v) => {
                    let (second, extra) = match encode_mod_rm_byte(0, dest) {
                        Some(p) => p,
                        None => {
                            return None;
                        },
                    };
                    let ghost ex = extra@;
                    let bytes = enc_modrm_imm8(0xf6, second, extra, *v);
                    proof {
                        let s = bytes@;
                        let expect: (Option<OperandByte>, int) = (
                            Some(*dest),
                            2 + ex.len() as int,
                        );
                        assert(parse_mod_rm_byte_spec(second, s, 2) == expect);
                    }
                    Some(bytes)
                },
                Operand::Register(rb) => {
                    let field = byte_reg_index(rb);
                    let (second, extra) = match encode_mod_rm_byte(field, dest) {
                        Some(p) => p,
                        None => {
                            return None;
                        },
                    };
                    let ghost ex = extra@;
                    let bytes = enc_modrm(0x84, second, extra);
                    proof {
                        let s = bytes@;
                        let expect: (Option<OperandByte>, int) = (
                            Some(*dest),
                            2 + ex.len() as int,
                        );
                        assert(parse_mod_rm_byte_spec(second, s, 2) == expect);
                    }
                    Some(bytes)
                },
                _ => None,
            },
            OpBinaryOp::Xchg => match src {
                Operand::Register(rb) => {
                    let field = byte_reg_index(rb);
                    let (second, extra) = match encode_mod_rm_byte(field, dest) {
                        Some(p) => p,
                        None => {
                            return None;
                        },
                    };
                    let ghost ex = extra@;
                    let bytes = enc_modrm(0x86, second, extra);
                    proof {
                        let s = bytes@;
                        let expect: (Option<OperandByte>, int) = (
                            Some(*dest),
                            2 + ex.len() as int,
                        );
                        assert(parse_mod_rm_byte_spec(second, s, 2) == expect);
                    }
                    Some(bytes)
                },
                _ => None,
            },
            _ => match src {
                Operand::ImmByte(v) => match dest {
                    Operand::Register(rd) => {
                        let i = byte_reg_index(rd);
                        Some(enc2(0xb0 | i, *v))
                    },
                    Operand::ImmWord(_) => None,
                    Operand::ImmByte(_) => None,
                    _ => {
                        let (second, extra) = match encode_mod_rm_byte(0, dest) {
                            Some(p) => p,
                            None => {
                                return None;
                            },
                        };
                        let ghost ex = extra@;
                        let bytes = enc_modrm_imm8(0xc6, second, extra, *v);
                        proof {
                            let s = bytes@;
                            let expect: (Option<OperandByte>, int) = (
                                Some(*dest),
                                2 + ex.len() as int,
                            );
                            assert(parse_mod_rm_byte_spec(second, s, 2) == expect);
                        }
                        Some(bytes)
                    },
                },
                Operand::Register(rb) => {
                    let field = byte_reg_index(rb);
                    let (second, extra) = match encode_mod_rm_byte(field, dest) {
                        Some(p) => p,
                        None => {
                            return None;
                        },
                    };
                    let ghost ex = extra@;
                    let bytes = enc_modrm(0x88, second, extra);
                    proof {
                        let s = bytes@;
                        let expect: (Option<OperandByte>, int) = (
                            Some(*dest),
                            2 + ex.len() as int,
                        );
                        assert(parse_mod_rm_byte_spec(second, s, 2) == expect);
                    }
                    Some(bytes)
                },
                Operand::ImmWord(_) => None,
                _ => match dest {
                    Operand::Register(rd) => {
                        let field = byte_reg_index(rd);
                        let (second, extra) = match encode_mod_rm_byte(field, src) {
                            Some(p) => p,
                            None => {
                                return None;
                            },
                        };
                        let ghost ex = extra@;
                        let bytes = enc_modrm(0x8a, second, extra);
                        proof {
                            let s = bytes@;
                            let expect: (Option<OperandByte>, int) = (
                                Some(*src),
                                2 + ex.len() as int,
                            );
                            assert(parse_mod_rm_byte_spec(second, s, 2) == expect);
                        }
                        Some(bytes)
                    },
                    _ => None,
                },
            },
        },
    }
}

/// The canonical encoding of a two-operand word instruction, the segment
/// register moves included.
#[verifier::rlimit(100)]
#[verifier::spinoff_prover]
fn encode_binary_word(op: &OpBinaryOp, src: &OperandWord, dest: &OperandWord) -> (r: Option<
    Vec<u8>,
>)
    ensures
        r is Some <==> (match *op {
            OpBinaryOp::Xchg => (*src matches Operand::Register(rs) && general_word_reg(rs))
                && rm_operand_word(*dest),
            OpBinaryOp::Test => (*src is ImmWord || (*src matches Operand::Register(rs)
                && general_word_reg(rs))) && rm_operand_word(*dest),
            OpBinaryOp::Mov => ((*src is ImmWord || (*src matches Operand::Register(rs)
                && general_word_reg(rs))) && rm_operand_word(*dest)) || ((*src is Address || *src
                is Direct) && (*dest matches Operand::Register(rd) && general_word_reg(rd))) || ((
            *src matches Operand::Register(rs) && !general_word_reg(rs)) && rm_operand_word(
                *dest,
            )) || ((*dest matches Operand::Register(rd) && !general_word_reg(rd))
                && rm_operand_word(*src)),
            _ => ((*src is ImmWord || *src is ImmByte || (*src matches Operand::Register(rs)
                && general_word_reg(rs))) && rm_operand_word(*dest)) || ((*src is Address || *src
                is Direct) && (*dest matches Operand::Register(rd) && general_word_reg(rd))),
        }),
        match r {
            Some(bytes) => parse_op_spec(bytes@, 0) == (
                Some(Op::BinaryWord { op: *op, src: *src, dest: *dest }),
                bytes@.len() as int,
            ),
            None => true,
        },
{
    proof {
        lemma_opcode_split();
    }
    match alu_index(op) {
        Some(idx) => match src {
            Operand::ImmWord(v) => {
                let (second, extra) = match encode_mod_rm_word(idx, dest) {
                    Some(p) => p,
                    None => {
                        return None;
                    },
                };
                let ghost ex = extra@;
                proof {
                    crate::mem::lemma_word_bytes_values(*v);
                }
                let bytes = enc_modrm_imm16(0x81, second, extra, *v);
                proof {
                    let s = bytes@;
                    let expect: (Option<OperandWord>, int) = (
                        Some(*dest),
                        2 + ex.len() as int,
                    );
                    assert(parse_mod_rm_word_spec(second, s, 2) == expect);
                }
                Some(bytes)
            },
            Operand::ImmByte(v) => {
                let (second, extra) = match encode_mod_rm_word(idx, dest) {
                    Some(p) => p,
                    None => {
                        return None;
                    },
                };
                let ghost ex = extra@;
                let bytes = enc_modrm_imm8(0x83, second, extra, *v);
                proof {
                    let s = bytes@;
                    let expect: (Option<OperandWord>, int) = (
                        Some(*dest),
                        2 + ex.len() as int,
                    );
                    assert(parse_mod_rm_word_spec(second, s, 2) == expect);
                }
                Some(bytes)
            },
            Operand::Register(rs) => {
                let field = match word_reg_index(rs) {
                    Some(i) => i,
                    None => {
                        return None;
                    },
                };
                let (second, extra) = match encode_mod_rm_word(field, dest) {
                    Some(p) => p,
                    None => {
                        return None;
                    },
                };
                let ghost ex = extra@;
                let opcode = (idx << 3) | 1;
                let bytes = enc_modrm(opcode, second, extra);
                proof {
                    let s = bytes@;
                    let expect: (Option<OperandWord>, int) = (
                        Some(*dest),
                        2 + ex.len() as int,
                    );
                    assert(parse_mod_rm_word_spec(second, s, 2) == expect);
                    assert(opcode & 0x07 == 1 && opcode < 0x40 && opcode & 0x02 == 0)
                        by (bit_vector)
                        requires
                            opcode == (idx << 3) | 1 && idx < 8,
                    ;
                    lemma_alu_dispatch(s);
                }
                Some(bytes)
            },
            _ => match dest {
                Operand::Register(rd) => {
                    let field = match word_reg_index(rd) {
                        Some(i) => i,
                        None => {
                            return None;
                        },
                    };
                    let (second, extra) = match encode_mod_rm_word(field, src) {
                        Some(p) => p,
                        None => {
                            return None;
                        },
                    };
                    let ghost ex = extra@;
                    let opcode = (idx << 3) | 3;
                    let bytes = enc_modrm(opcode, second, extra);
                    proof {
                        let s = bytes@;
                        let expect: (Option<OperandWord>, int) = (
                            Some(*src),
                            2 + ex.len() as int,
                        );
                        assert(parse_mod_rm_word_spec(second, s, 2) == expect);
                        assert(opcode & 0x07 == 3 && opcode < 0x40 && opcode & 0x02 == 2)
                            by (bit_vector)
                            requires
                                opcode == (idx << 3) | 3 && idx < 8,
                        ;
                        lemma_alu_dispatch(s);
                    }
                    Some(bytes)
                },
                _ => None,
            },
        },
        None => encode_binary_word_other(op, src, dest),
    }
}

/// The canonical encoding of a word-width test, exchange or move.
#[verifier::rlimit(100)]
#[verifier::spinoff_prover]
fn encode_binary_word_other(op: &OpBinaryOp, src: &OperandWord, dest: &OperandWord) -> (r: Option<
    Vec<u8>,
>)
    requires
        *op is Test || *op is Xchg || *op is Mov,
    ensures
        r is Some <==> (match *op {
            OpBinaryOp::Xchg => (*src matches Operand::Register(rs) && general_word_reg(rs))
                && rm_operand_word(*dest),
            OpBinaryOp::Test => (*src is ImmWord || (*src matches Operand::Register(rs)
                && general_word_reg(rs))) && rm_operand_word(*dest),
            _ => ((*src is ImmWord || (*src matches Operand::Register(rs) && general_word_reg(
                rs,
            ))) && rm_operand_word(*dest)) || ((*src is Address || *src is Direct) && (*dest
                matches Operand::Register(rd) && general_word_reg(rd))) || ((*src
                matches Operand::Register(rs) && !general_word_reg(rs)) && rm_operand_word(*dest))
                || ((*dest matches Operand::Register(rd) && !general_word_reg(rd))
                && rm_operand_word(*src)),
        }),
        match r {
            Some(bytes) => parse_op_spec(bytes@, 0) == (
                Some(Op::BinaryWord { op: *op, src: *src, dest: *dest }),
                bytes@.len() as int,
            ),
            None => true,
        },
{
    proof {
        lemma_opcode_split();
    }
    match op {
        OpBinaryOp::Test => match src {
            Operand::ImmWord(v) => {
                let (second, extra) = match encode_mod_rm_word(0, dest) {
                    Some(p) => p,
                    None => {
                        return None;
                    },
                };
                let ghost ex = extra@;
                proof {
                    crate::mem::lemma_word_bytes_values(*v);
                }
                let bytes = enc_modrm_imm16(0xf7, second, extra, *v);
                proof {
                    let s = bytes@;
                    let expect: (Option<OperandWord>, int) = (
                        Some(*dest),
                        2 + ex.len() as int,
                    );
                    assert(parse_mod_rm_word_spec(second, s, 2) == expect);
                }
                Some(bytes)
            },
            Operand::Register(rs) => {
                let field = match word_reg_index(rs) {
                    Some(i) => i,
                    None => {
                        return None;
                    },
                };
                encode_rm_form(0x85, field, dest)
            },
            _ => None,
        },
        OpBinaryOp::Xchg => match src {
            Operand::Register(rs) => {
                let field = match word_reg_index(rs) {
                    Some(i) => i,
                    None => {
                        return None;
                    },
                };
                encode_rm_form(0x87, field, dest)
            },
            _ => None,
        },
        _ => encode_mov_word(src, dest),
    }
}

/// An opcode byte with a reg field and a word r/m operand: the shape of the
/// plain register-and-ModR/M instructions.
fn encode_rm_form(opcode: u8, field: u8, rm: &OperandWord) -> (r: Option<Vec<u8>>)
    requires
        field < 8,
    ensures
        r is Some <==> rm_operand_word(*rm),
        match r {
            Some(bytes) => ({
                &&& bytes@.len() >= 2
                &&& bytes@[0] == opcode
                &&& (bytes@[1] >> 3) & 0x07 == field
                &&& parse_mod_rm_word_spec(bytes@[1], bytes@, 2) == (
                    Some(*rm),
                    bytes@.len() as int,
                )
            }),
            None => true,
        },
{
    let (second, extra) = match encode_mod_rm_word(field, rm) {
        Some(p) => p,
        None => {
            return None;
        },
    };
    let ghost ex = extra@;
    let bytes = enc_modrm(opcode, second, extra);
    proof {
        let s = bytes@;
        let expect: (Option<OperandWord>, int) = (Some(*rm), 2 + ex.len() as int);
        assert(parse_mod_rm_word_spec(second, s, 2) == expect);
    }
    Some(bytes)
}

/// The canonical encoding of a word-width move: the immediate forms, the
/// general-register forms, and the segment-register forms.
#[verifier::rlimit(100)]
#[verifier::spinoff_prover]
fn encode_mov_word(src: &OperandWord, dest: &OperandWord) -> (r: Option<Vec<u8>>)
    ensures
        r is Some <==> (((*src is ImmWord || (*src matches Operand::Register(rs)
            && general_word_reg(rs))) && rm_operand_word(*dest)) || ((*src is Address || *src
            is Direct) && (*dest matches Operand::Register(rd) && general_word_reg(rd))) || ((*src
            matches Operand::Register(rs) && !general_word_reg(rs)) && rm_operand_word(*dest)) || (
        (*dest matches Operand::Register(rd) && !general_word_reg(rd)) && rm_operand_word(*src))),
        match r {
            Some(bytes) => parse_op_spec(bytes@, 0) == (
                Some(Op::BinaryWord { op: OpBinaryOp::Mov, src: *src, dest: *dest }),
                bytes@.len() as int,
            ),
            None => true,
        },
{
    proof {
        lemma_opcode_split();
    }
    match dest {
        Operand::Register(rd) => match word_reg_index(rd) {
            Some(_) => (),
            None => {
                let field = match seg_reg_index(rd) {
                    Some(i) => i,
                    None => {
                        return None;
                    },
                };
                return encode_rm_form(0x8e, field, src);
            },
        },
        _ => (),
    }
    match src {
        Operand::ImmWord(v) => match dest {
            Operand::Register(rd) => match word_reg_index(rd) {
                Some(i) => {
                    proof {
                        crate::mem::lemma_word_bytes_values(*v);
                    }
                    Some(enc3(0xb8 | i, *v))
                },
                None => None,
            },
            Operand::ImmWord(_) => None,
            Operand::ImmByte(_) => None,
            _ => {
                let (second, extra) = match encode_mod_rm_word(0, dest) {
                    Some(p) => p,
                    None => {
                        return None;
                    },
                };
                let ghost ex = extra@;
                proof {
                    crate::mem::lemma_word_bytes_values(*v);
                }
                let bytes = enc_modrm_imm16(0xc7, second, extra, *v);
                proof {
                    let s = bytes@;
                    let expect: (Option<OperandWord>, int) = (
                        Some(*dest),
                        2 + ex.len() as int,
                    );
                    assert(parse_mod_rm_word_spec(second, s, 2) == expect);
                }
                Some(bytes)
            },
        },
        Operand::Register(rs) => match word_reg_index(rs) {
            Some(field) => encode_rm_form(0x89, field, dest),
            None => {
                let field = match seg_reg_index(rs) {
                    Some(i) => i,
                    None => {
                        return None;
                    },
                };
                encode_rm_form(0x8c, field, dest)
            },
        },
        Operand::ImmByte(_) => None,
        _ => match dest {
            Operand::Register(rd) => match word_reg_index(rd) {
                Some(field) => encode_rm_form(0x8b, field, src),
                None => {
                    let field = match seg_reg_index(rd) {
                        Some(i) => i,
                        None => {
                            return None;
                        },
                    };
                    encode_rm_form(0x8e, field, src)
                },
            },
            _ => None,
        },
    }
}

} // verus!
