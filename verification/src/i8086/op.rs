//! The structured instruction set: every operation the decoder can produce,
//! and the decoder itself, which turns a code byte window into one `Op` and
//! says how many bytes the instruction occupies.

use super::cpu::CPUIterator;
use super::operand::AddressType;
use super::operand::Operand;
use super::operand::OperandByte;
use super::operand::OperandWord;
use super::register::RegisterByteType;
use super::register::RegisterWordType;
use vstd::prelude::*;

verus! {

/// Whether a shift count comes as the constant one or from `CL`.
#[derive(PartialEq, Eq, Structural, Copy, Clone, Debug)]
pub enum OpShiftType {
    One,
    Cl,
}

/// The element width of a string or I/O operation.
#[derive(PartialEq, Eq, Structural, Copy, Clone, Debug)]
pub enum OpSize {
    Byte,
    Word,
}

/// How a call or jump names its target: a relative word, an operand holding
/// the new offset, a far segment:offset pair (offset first, as encoded), or
/// a memory operand holding offset and segment.
#[derive(PartialEq, Eq, Copy, Clone, Debug)]
pub enum OpCallType {
    WithinDirect(u16),
    WithinIndirect(OperandWord),
    InterDirect(u16, u16),
    InterIndirect(OperandWord),
}

/// The two-operand operations.
#[derive(PartialEq, Eq, Structural, Copy, Clone, Debug)]
pub enum OpBinaryOp {
    Add,
    Or,
    Adc,
    Sbb,
    And,
    Sub,
    Xor,
    Cmp,
    Xchg,
    Test,
    Mov,
}

/// The one-operand operations.
#[derive(PartialEq, Eq, Structural, Copy, Clone, Debug)]
pub enum OpUnaryOp {
    Push,
    Pop,
    Inc,
    Dec,
    Not,
    Neg,
    Mul,
    Imul,
    Div,
    Idiv,
}

/// The shift and rotate operations.
#[derive(PartialEq, Eq, Structural, Copy, Clone, Debug)]
pub enum OpShiftOp {
    Rol,
    Ror,
    Rcl,
    Rcr,
    Shl,
    Shr,
    Sal,
    Sar,
}

/// The conditional short branches, including the loop family.
#[derive(PartialEq, Eq, Structural, Copy, Clone, Debug)]
pub enum OpCondJmpOp {
    Jo,
    Jno,
    Js,
    Jns,
    Je,
    Jne,
    Jb,
    Jnb,
    Jbe,
    Ja,
    Jl,
    Jge,
    Jle,
    Jg,
    Jp,
    Jnp,
    Jcxz,
    Loopne,
    Loope,
    Loop,
}

/// The operations that name no operand. `Rep` repeats the following string
/// operation while `CX` counts down (and, for compares and scans, while the
/// zero flag stays set); `Repnz` repeats while the zero flag stays clear.
/// Like every instruction other than a segment prefix, the repeat prefixes
/// consume a pending segment override.
#[derive(PartialEq, Eq, Structural, Copy, Clone, Debug)]
pub enum OpNullaryOp {
    Xlat,
    Lahf,
    Sahf,
    Pushf,
    Popf,
    Aaa,
    Daa,
    Aas,
    Das,
    Aam,
    Aad,
    Cbw,
    Cwd,
    Rep,
    Repnz,
    Into,
    Iret,
    Clc,
    Cmc,
    Stc,
    Cld,
    Std,
    Cli,
    Sti,
    Hlt,
    Wait,
    Lock,
}

/// The word register a three-bit ModR/M register field names.
pub open spec fn word_reg_of(value: u8) -> RegisterWordType
    recommends
        value < 8,
{
    if value == 0 {
        RegisterWordType::Ax
    } else if value == 1 {
        RegisterWordType::Cx
    } else if value == 2 {
        RegisterWordType::Dx
    } else if value == 3 {
        RegisterWordType::Bx
    } else if value == 4 {
        RegisterWordType::Sp
    } else if value == 5 {
        RegisterWordType::Bp
    } else if value == 6 {
        RegisterWordType::Si
    } else {
        RegisterWordType::Di
    }
}

/// The segment register a two-bit field names.
pub open spec fn seg_reg_of(value: u8) -> Option<RegisterWordType> {
    if value == 0 {
        Some(RegisterWordType::Es)
    } else if value == 1 {
        Some(RegisterWordType::Cs)
    } else if value == 2 {
        Some(RegisterWordType::Ss)
    } else if value == 3 {
        Some(RegisterWordType::Ds)
    } else {
        None
    }
}

/// The byte register a three-bit ModR/M register field names.
pub open spec fn byte_reg_of(value: u8) -> RegisterByteType
    recommends
        value < 8,
{
    if value == 0 {
        RegisterByteType::Al
    } else if value == 1 {
        RegisterByteType::Cl
    } else if value == 2 {
        RegisterByteType::Dl
    } else if value == 3 {
        RegisterByteType::Bl
    } else if value == 4 {
        RegisterByteType::Ah
    } else if value == 5 {
        RegisterByteType::Ch
    } else if value == 6 {
        RegisterByteType::Dh
    } else {
        RegisterByteType::Bh
    }
}

/// The addressing form a three-bit ModR/M r/m field names.
pub open spec fn addr_type_of(value: u8) -> AddressType
    recommends
        value < 8,
{
    if value == 0 {
        AddressType::BxSi
    } else if value == 1 {
        AddressType::BxDi
    } else if value == 2 {
        AddressType::BpSi
    } else if value == 3 {
        AddressType::BpDi
    } else if value == 4 {
        AddressType::Si
    } else if value == 5 {
        AddressType::Di
    } else if value == 6 {
        AddressType::Bp
    } else {
        AddressType::Bx
    }
}

/// The binary operation an immediate-group sub-opcode names.
pub open spec fn immed_op_of(value: u8) -> OpBinaryOp
    recommends
        value < 8,
{
    if value == 0 {
        OpBinaryOp::Add
    } else if value == 1 {
        OpBinaryOp::Or
    } else if value == 2 {
        OpBinaryOp::Adc
    } else if value == 3 {
        OpBinaryOp::Sbb
    } else if value == 4 {
        OpBinaryOp::And
    } else if value == 5 {
        OpBinaryOp::Sub
    } else if value == 6 {
        OpBinaryOp::Xor
    } else {
        OpBinaryOp::Cmp
    }
}

/// The unary operation a sub-opcode of the multiply/negate group names.
pub open spec fn grp1_op_of(value: u8) -> Option<OpUnaryOp> {
    if value == 2 {
        Some(OpUnaryOp::Not)
    } else if value == 3 {
        Some(OpUnaryOp::Neg)
    } else if value == 4 {
        Some(OpUnaryOp::Mul)
    } else if value == 5 {
        Some(OpUnaryOp::Imul)
    } else if value == 6 {
        Some(OpUnaryOp::Div)
    } else if value == 7 {
        Some(OpUnaryOp::Idiv)
    } else {
        None
    }
}

/// The unary operation a sub-opcode of the increment/push group names.
pub open spec fn grp2_op_of(value: u8) -> Option<OpUnaryOp> {
    if value == 0 {
        Some(OpUnaryOp::Inc)
    } else if value == 1 {
        Some(OpUnaryOp::Dec)
    } else if value == 6 {
        Some(OpUnaryOp::Push)
    } else {
        None
    }
}

/// The shift or rotate operation a sub-opcode names. The slot between the
/// logical and arithmetic right shifts historically aliased the left
/// shift, but it is unassigned and the decoder refuses it.
pub open spec fn shift_op_of(value: u8) -> OpShiftOp
    recommends
        value < 8 && value != 6,
{
    if value == 0 {
        OpShiftOp::Rol
    } else if value == 1 {
        OpShiftOp::Ror
    } else if value == 2 {
        OpShiftOp::Rcl
    } else if value == 3 {
        OpShiftOp::Rcr
    } else if value == 4 {
        OpShiftOp::Shl
    } else if value == 5 {
        OpShiftOp::Shr
    } else if value == 6 {
        OpShiftOp::Sal
    } else {
        OpShiftOp::Sar
    }
}

impl RegisterWordType {
    /// The word register a three-bit field names.
    pub fn from_value(value: u8) -> (r: Option<RegisterWordType>)
        ensures
            value < 8 ==> r == Some(word_reg_of(value)),
            value >= 8 ==> r is None,
    {
        match value {
            0 => Some(RegisterWordType::Ax),
            1 => Some(RegisterWordType::Cx),
            2 => Some(RegisterWordType::Dx),
            3 => Some(RegisterWordType::Bx),
            4 => Some(RegisterWordType::Sp),
            5 => Some(RegisterWordType::Bp),
            6 => Some(RegisterWordType::Si),
            7 => Some(RegisterWordType::Di),
            _ => None,
        }
    }

    /// The segment register a two-bit field names.
    pub fn from_seg(value: u8) -> (r: Option<RegisterWordType>)
        ensures
            r == seg_reg_of(value),
    {
        match value {
            0 => Some(RegisterWordType::Es),
            1 => Some(RegisterWordType::Cs),
            2 => Some(RegisterWordType::Ss),
            3 => Some(RegisterWordType::Ds),
            _ => None,
        }
    }
}

impl RegisterByteType {
    /// The byte register a three-bit field names.
    pub fn from_value(value: u8) -> (r: Option<RegisterByteType>)
        ensures
            value < 8 ==> r == Some(byte_reg_of(value)),
            value >= 8 ==> r is None,
    {
        match value {
            0 => Some(RegisterByteType::Al),
            1 => Some(RegisterByteType::Cl),
            2 => Some(RegisterByteType::Dl),
            3 => Some(RegisterByteType::Bl),
            4 => Some(RegisterByteType::Ah),
            5 => Some(RegisterByteType::Ch),
            6 => Some(RegisterByteType::Dh),
            7 => Some(RegisterByteType::Bh),
            _ => None,
        }
    }
}

impl AddressType {
    /// The addressing form a three-bit r/m field names.
    pub fn from_value(value: u8) -> (r: Option<AddressType>)
        ensures
            value < 8 ==> r == Some(addr_type_of(value)),
            value >= 8 ==> r is None,
    {
        match value {
            0 => Some(AddressType::BxSi),
            1 => Some(AddressType::BxDi),
            2 => Some(AddressType::BpSi),
            3 => Some(AddressType::BpDi),
            4 => Some(AddressType::Si),
            5 => Some(AddressType::Di),
            6 => Some(AddressType::Bp),
            7 => Some(AddressType::Bx),
            _ => None,
        }
    }

    /// The three-bit r/m encoding of an addressing form.
    pub fn to_value(&self) -> (r: u8)
        ensures
            r < 8,
            addr_type_of(r) == *self,
    {
        match self {
            AddressType::BxSi => 0,
            AddressType::BxDi => 1,
            AddressType::BpSi => 2,
            AddressType::BpDi => 3,
            AddressType::Si => 4,
            AddressType::Di => 5,
            AddressType::Bp => 6,
            AddressType::Bx => 7,
        }
    }
}

impl OpBinaryOp {
    /// The binary operation an immediate-group sub-opcode names.
    pub fn from_immed(value: u8) -> (r: Option<OpBinaryOp>)
        ensures
            value < 8 ==> r == Some(immed_op_of(value)),
            value >= 8 ==> r is None,
    {
        match value {
            0 => Some(OpBinaryOp::Add),
            1 => Some(OpBinaryOp::Or),
            2 => Some(OpBinaryOp::Adc),
            3 => Some(OpBinaryOp::Sbb),
            4 => Some(OpBinaryOp::And),
            5 => Some(OpBinaryOp::Sub),
            6 => Some(OpBinaryOp::Xor),
            7 => Some(OpBinaryOp::Cmp),
            _ => None,
        }
    }
}

impl OpUnaryOp {
    /// The unary operation a sub-opcode of the multiply/negate group names.
    pub fn from_grp1(value: u8) -> (r: Option<OpUnaryOp>)
        ensures
            r == grp1_op_of(value),
    {
        match value {
            2 => Some(OpUnaryOp::Not),
            3 => Some(OpUnaryOp::Neg),
            4 => Some(OpUnaryOp::Mul),
            5 => Some(OpUnaryOp::Imul),
            6 => Some(OpUnaryOp::Div),
            7 => Some(OpUnaryOp::Idiv),
            _ => None,
        }
    }

    /// The unary operation a sub-opcode of the increment/push group names.
    pub fn from_grp2(value: u8) -> (r: Option<OpUnaryOp>)
        ensures
            r == grp2_op_of(value),
    {
        match value {
            0 => Some(OpUnaryOp::Inc),
            1 => Some(OpUnaryOp::Dec),
            6 => Some(OpUnaryOp::Push),
            _ => None,
        }
    }
}

impl OpShiftOp {
    /// The shift or rotate operation a sub-opcode names; the unassigned
    /// slot between the right shifts yields nothing.
    pub fn from_value(value: u8) -> (r: Option<OpShiftOp>)
        ensures
            value < 8 && value != 6 ==> r == Some(shift_op_of(value)),
            value == 6 || value >= 8 ==> r is None,
    {
        match value {
            0 => Some(OpShiftOp::Rol),
            1 => Some(OpShiftOp::Ror),
            2 => Some(OpShiftOp::Rcl),
            3 => Some(OpShiftOp::Rcr),
            4 => Some(OpShiftOp::Shl),
            5 => Some(OpShiftOp::Shr),
            7 => Some(OpShiftOp::Sar),
            _ => None,
        }
    }
}

/// One decoded instruction.
#[derive(PartialEq, Eq, Clone, Debug)]
pub enum Op {
    BinaryByte { op: OpBinaryOp, src: OperandByte, dest: OperandByte },
    BinaryWord { op: OpBinaryOp, src: OperandWord, dest: OperandWord },
    UnaryByte { op: OpUnaryOp, dest: OperandByte },
    UnaryWord { op: OpUnaryOp, dest: OperandWord },
    ShiftByte { op: OpShiftOp, shift_type: OpShiftType, dest: OperandByte },
    ShiftWord { op: OpShiftOp, shift_type: OpShiftType, dest: OperandWord },
    Nullary(OpNullaryOp),
    CondJmp { op: OpCondJmpOp, offset: i8 },
    InFixed(OpSize),
    InVariable(OpSize, u8),
    OutFixed(OpSize),
    OutVariable(OpSize, u8),
    Lea(RegisterWordType, OperandWord),
    Lds(RegisterWordType, OperandWord),
    Les(RegisterWordType, OperandWord),
    Movs(OpSize),
    Cmps(OpSize),
    Scas(OpSize),
    Lods(OpSize),
    Stos(OpSize),
    Call(OpCallType),
    Jmp(OpCallType),
    RetWithin,
    RetWithinImm(u16),
    RetInter,
    RetInterImm(u16),
    Int(u8),
    Esc(u8, OperandWord),
    Segment(RegisterWordType),
}


/// One byte taken from the stream, with the cursor after it; a cursor at
/// or past the end stays put.
pub open spec fn take1(s: Seq<u8>, i: int) -> (Option<u8>, int) {
    if 0 <= i < s.len() {
        (Some(s[i]), i + 1)
    } else {
        (None, i)
    }
}

/// One little-endian word taken from the stream; on exhaustion the cursor
/// stops where the bytes ran out.
pub open spec fn take2(s: Seq<u8>, i: int) -> (Option<u16>, int) {
    if 0 <= i && i + 1 < s.len() {
        (Some((s[i] + s[i + 1] * 0x100) as u16), i + 2)
    } else if 0 <= i < s.len() {
        (None, i + 1)
    } else {
        (None, i)
    }
}

/// A ModR/M byte decoded to a byte-width operand, consuming any
/// displacement that follows.
pub open spec fn parse_mod_rm_byte_spec(second: u8, s: Seq<u8>, i: int) -> (
    Option<OperandByte>,
    int,
) {
    let md = (second >> 6) & 0x03;
    let rm = second & 0x07;
    if md == 0 {
        if rm == 6 {
            match take2(s, i) {
                (Some(w), j) => (Some(Operand::Direct(w)), j),
                (None, j) => (None, j),
            }
        } else {
            (Some(Operand::Address(addr_type_of(rm), 0)), i)
        }
    } else if md == 1 {
        match take1(s, i) {
            (Some(b), j) => (Some(Operand::Address(addr_type_of(rm), b as i8 as i16)), j),
            (None, j) => (None, j),
        }
    } else if md == 2 {
        match take2(s, i) {
            (Some(w), j) => (Some(Operand::Address(addr_type_of(rm), w as i16)), j),
            (None, j) => (None, j),
        }
    } else {
        (Some(Operand::Register(byte_reg_of(rm))), i)
    }
}

/// A ModR/M byte decoded to a word-width operand, consuming any
/// displacement that follows.
pub open spec fn parse_mod_rm_word_spec(second: u8, s: Seq<u8>, i: int) -> (
    Option<OperandWord>,
    int,
) {
    let md = (second >> 6) & 0x03;
    let rm = second & 0x07;
    if md == 0 {
        if rm == 6 {
            match take2(s, i) {
                (Some(w), j) => (Some(Operand::Direct(w)), j),
                (None, j) => (None, j),
            }
        } else {
            (Some(Operand::Address(addr_type_of(rm), 0)), i)
        }
    } else if md == 1 {
        match take1(s, i) {
            (Some(b), j) => (Some(Operand::Address(addr_type_of(rm), b as i8 as i16)), j),
            (None, j) => (None, j),
        }
    } else if md == 2 {
        match take2(s, i) {
            (Some(w), j) => (Some(Operand::Address(addr_type_of(rm), w as i16)), j),
            (None, j) => (None, j),
        }
    } else {
        (Some(Operand::Register(word_reg_of(rm))), i)
    }
}

/// A register-with-ModR/M byte instruction: the ModR/M names one side, the
/// reg field the other, and the direction bit says which is the source.
pub open spec fn create_binary_byte_spec(
    second: u8,
    s: Seq<u8>,
    i: int,
    op: OpBinaryOp,
    other: OperandByte,
    inversed: bool,
) -> (Option<Op>, int) {
    match parse_mod_rm_byte_spec(second, s, i) {
        (Some(mod_rm), j) => if inversed {
            (Some(Op::BinaryByte { op, src: other, dest: mod_rm }), j)
        } else {
            (Some(Op::BinaryByte { op, src: mod_rm, dest: other }), j)
        },
        (None, j) => (None, j),
    }
}

/// The word-width counterpart of `create_binary_byte_spec`.
pub open spec fn create_binary_word_spec(
    second: u8,
    s: Seq<u8>,
    i: int,
    op: OpBinaryOp,
    other: OperandWord,
    inversed: bool,
) -> (Option<Op>, int) {
    match parse_mod_rm_word_spec(second, s, i) {
        (Some(mod_rm), j) => if inversed {
            (Some(Op::BinaryWord { op, src: other, dest: mod_rm }), j)
        } else {
            (Some(Op::BinaryWord { op, src: mod_rm, dest: other }), j)
        },
        (None, j) => (None, j),
    }
}

/// The first six octets of an ALU block: register/ModR/M forms with width
/// and direction bits, and the accumulator-with-immediate forms.
pub open spec fn parse_binary_group_spec(op: OpBinaryOp, first: u8, s: Seq<u8>, i: int) -> (
    Option<Op>,
    int,
) {
    let octet = first & 0x07;
    if octet == 0 || octet == 2 {
        match take1(s, i) {
            (Some(second), j) => create_binary_byte_spec(
                second,
                s,
                j,
                op,
                Operand::Register(byte_reg_of((second >> 3) & 0x07)),
                first & 0x02 == 0,
            ),
            (None, j) => (None, j),
        }
    } else if octet == 1 || octet == 3 {
        match take1(s, i) {
            (Some(second), j) => create_binary_word_spec(
                second,
                s,
                j,
                op,
                Operand::Register(word_reg_of((second >> 3) & 0x07)),
                first & 0x02 == 0,
            ),
            (None, j) => (None, j),
        }
    } else if octet == 4 {
        match take1(s, i) {
            (Some(imm), j) => (
                Some(
                    Op::BinaryByte {
                        op,
                        src: Operand::ImmByte(imm),
                        dest: Operand::Register(RegisterByteType::Al),
                    },
                ),
                j,
            ),
            (None, j) => (None, j),
        }
    } else if octet == 5 {
        match take2(s, i) {
            (Some(imm), j) => (
                Some(
                    Op::BinaryWord {
                        op,
                        src: Operand::ImmWord(imm),
                        dest: Operand::Register(RegisterWordType::Ax),
                    },
                ),
                j,
            ),
            (None, j) => (None, j),
        }
    } else {
        (None, i)
    }
}

/// An ALU block of the low quarter of the opcode map: six ALU octets, then
/// either push/pop of a segment register or a segment-override prefix with
/// a decimal-adjust operation.
pub open spec fn parse_alu_block_spec(
    op: OpBinaryOp,
    seg: RegisterWordType,
    adjust: Option<OpNullaryOp>,
    first: u8,
    s: Seq<u8>,
    i: int,
) -> (Option<Op>, int) {
    let octet = first & 0x07;
    if octet <= 5 {
        parse_binary_group_spec(op, first, s, i)
    } else if octet == 6 {
        match adjust {
            Some(_) => (Some(Op::Segment(seg)), i),
            None => (
                Some(Op::UnaryWord { op: OpUnaryOp::Push, dest: Operand::Register(seg) }),
                i,
            ),
        }
    } else {
        match adjust {
            Some(a) => (Some(Op::Nullary(a)), i),
            None => (
                Some(Op::UnaryWord { op: OpUnaryOp::Pop, dest: Operand::Register(seg) }),
                i,
            ),
        }
    }
}

/// The immediate, test and exchange group.
pub open spec fn parse_group_80_spec(first: u8, s: Seq<u8>, i: int) -> (Option<Op>, int) {
    let octet = first & 0x07;
    match take1(s, i) {
        (None, j) => (None, j),
        (Some(second), j) => if octet <= 3 {
            let op = immed_op_of((second >> 3) & 0x07);
            if first & 0x01 == 0 {
                match parse_mod_rm_byte_spec(second, s, j) {
                    (Some(mod_rm), k) => match take1(s, k) {
                        (Some(imm), l) => (
                            Some(
                                Op::BinaryByte {
                                    op,
                                    src: Operand::ImmByte(imm),
                                    dest: mod_rm,
                                },
                            ),
                            l,
                        ),
                        (None, l) => (None, l),
                    },
                    (None, k) => (None, k),
                }
            } else {
                match parse_mod_rm_word_spec(second, s, j) {
                    (Some(mod_rm), k) => if first & 0x03 == 1 {
                        match take2(s, k) {
                            (Some(imm), l) => (
                                Some(
                                    Op::BinaryWord {
                                        op,
                                        src: Operand::ImmWord(imm),
                                        dest: mod_rm,
                                    },
                                ),
                                l,
                            ),
                            (None, l) => (None, l),
                        }
                    } else {
                        match take1(s, k) {
                            (Some(imm), l) => (
                                Some(
                                    Op::BinaryWord {
                                        op,
                                        src: Operand::ImmByte(imm),
                                        dest: mod_rm,
                                    },
                                ),
                                l,
                            ),
                            (None, l) => (None, l),
                        }
                    },
                    (None, k) => (None, k),
                }
            }
        } else if octet == 4 || octet == 6 {
            let op = if octet == 4 {
                OpBinaryOp::Test
            } else {
                OpBinaryOp::Xchg
            };
            create_binary_byte_spec(
                second,
                s,
                j,
                op,
                Operand::Register(byte_reg_of((second >> 3) & 0x07)),
                true,
            )
        } else {
            let op = if octet == 5 {
                OpBinaryOp::Test
            } else {
                OpBinaryOp::Xchg
            };
            create_binary_word_spec(
                second,
                s,
                j,
                op,
                Operand::Register(word_reg_of((second >> 3) & 0x07)),
                true,
            )
        },
    }
}

/// The move, load-effective-address and pop group.
pub open spec fn parse_group_88_spec(first: u8, s: Seq<u8>, i: int) -> (Option<Op>, int) {
    let octet = first & 0x07;
    if octet <= 3 {
        parse_binary_group_spec(OpBinaryOp::Mov, first, s, i)
    } else {
        match take1(s, i) {
            (None, j) => (None, j),
            (Some(second), j) => if octet == 4 || octet == 6 {
                match seg_reg_of((second >> 3) & 0x07) {
                    Some(reg) => match parse_mod_rm_word_spec(second, s, j) {
                        (Some(mod_rm), k) => if octet == 4 {
                            (
                                Some(
                                    Op::BinaryWord {
                                        op: OpBinaryOp::Mov,
                                        src: Operand::Register(reg),
                                        dest: mod_rm,
                                    },
                                ),
                                k,
                            )
                        } else {
                            (
                                Some(
                                    Op::BinaryWord {
                                        op: OpBinaryOp::Mov,
                                        src: mod_rm,
                                        dest: Operand::Register(reg),
                                    },
                                ),
                                k,
                            )
                        },
                        (None, k) => (None, k),
                    },
                    None => (None, j),
                }
            } else if octet == 5 {
                match parse_mod_rm_word_spec(second, s, j) {
                    (Some(mod_rm), k) => if mod_rm is Register {
                        (None, k)
                    } else {
                        (Some(Op::Lea(word_reg_of((second >> 3) & 0x07), mod_rm)), k)
                    },
                    (None, k) => (None, k),
                }
            } else {
                match parse_mod_rm_word_spec(second, s, j) {
                    (Some(mod_rm), k) => if (second >> 3) & 0x07 == 0 {
                        (Some(Op::UnaryWord { op: OpUnaryOp::Pop, dest: mod_rm }), k)
                    } else {
                        (None, k)
                    },
                    (None, k) => (None, k),
                }
            },
        }
    }
}

/// The convert, far-call and flag-transfer group.
pub open spec fn parse_group_98_spec(first: u8, s: Seq<u8>, i: int) -> (Option<Op>, int) {
    let octet = first & 0x07;
    if octet == 0 {
        (Some(Op::Nullary(OpNullaryOp::Cbw)), i)
    } else if octet == 1 {
        (Some(Op::Nullary(OpNullaryOp::Cwd)), i)
    } else if octet == 2 {
        match take2(s, i) {
            (Some(off), j) => match take2(s, j) {
                (Some(seg), k) => (Some(Op::Call(OpCallType::InterDirect(off, seg))), k),
                (None, k) => (None, k),
            },
            (None, j) => (None, j),
        }
    } else if octet == 3 {
        (Some(Op::Nullary(OpNullaryOp::Wait)), i)
    } else if octet == 4 {
        (Some(Op::Nullary(OpNullaryOp::Pushf)), i)
    } else if octet == 5 {
        (Some(Op::Nullary(OpNullaryOp::Popf)), i)
    } else if octet == 6 {
        (Some(Op::Nullary(OpNullaryOp::Sahf)), i)
    } else {
        (Some(Op::Nullary(OpNullaryOp::Lahf)), i)
    }
}

/// The accumulator move and string move/compare group.
pub open spec fn parse_group_a0_spec(first: u8, s: Seq<u8>, i: int) -> (Option<Op>, int) {
    let octet = first & 0x07;
    if octet == 0 {
        match take2(s, i) {
            (Some(off), j) => (
                Some(
                    Op::BinaryByte {
                        op: OpBinaryOp::Mov,
                        src: Operand::Direct(off),
                        dest: Operand::Register(RegisterByteType::Al),
                    },
                ),
                j,
            ),
            (None, j) => (None, j),
        }
    } else if octet == 1 {
        match take2(s, i) {
            (Some(off), j) => (
                Some(
                    Op::BinaryWord {
                        op: OpBinaryOp::Mov,
                        src: Operand::Direct(off),
                        dest: Operand::Register(RegisterWordType::Ax),
                    },
                ),
                j,
            ),
            (None, j) => (None, j),
        }
    } else if octet == 2 {
        match take2(s, i) {
            (Some(off), j) => (
                Some(
                    Op::BinaryByte {
                        op: OpBinaryOp::Mov,
                        src: Operand::Register(RegisterByteType::Al),
                        dest: Operand::Direct(off),
                    },
                ),
                j,
            ),
            (None, j) => (None, j),
        }
    } else if octet == 3 {
        match take2(s, i) {
            (Some(off), j) => (
                Some(
                    Op::BinaryWord {
                        op: OpBinaryOp::Mov,
                        src: Operand::Register(RegisterWordType::Ax),
                        dest: Operand::Direct(off),
                    },
                ),
                j,
            ),
            (None, j) => (None, j),
        }
    } else if octet == 4 {
        (Some(Op::Movs(OpSize::Byte)), i)
    } else if octet == 5 {
        (Some(Op::Movs(OpSize::Word)), i)
    } else if octet == 6 {
        (Some(Op::Cmps(OpSize::Byte)), i)
    } else {
        (Some(Op::Cmps(OpSize::Word)), i)
    }
}

/// The accumulator test and string store/load/scan group.
pub open spec fn parse_group_a8_spec(first: u8, s: Seq<u8>, i: int) -> (Option<Op>, int) {
    let octet = first & 0x07;
    if octet == 0 {
        match take1(s, i) {
            (Some(imm), j) => (
                Some(
                    Op::BinaryByte {
                        op: OpBinaryOp::Test,
                        src: Operand::ImmByte(imm),
                        dest: Operand::Register(RegisterByteType::Al),
                    },
                ),
                j,
            ),
            (None, j) => (None, j),
        }
    } else if octet == 1 {
        match take2(s, i) {
            (Some(imm), j) => (
                Some(
                    Op::BinaryWord {
                        op: OpBinaryOp::Test,
                        src: Operand::ImmWord(imm),
                        dest: Operand::Register(RegisterWordType::Ax),
                    },
                ),
                j,
            ),
            (None, j) => (None, j),
        }
    } else if octet == 2 {
        (Some(Op::Stos(OpSize::Byte)), i)
    } else if octet == 3 {
        (Some(Op::Stos(OpSize::Word)), i)
    } else if octet == 4 {
        (Some(Op::Lods(OpSize::Byte)), i)
    } else if octet == 5 {
        (Some(Op::Lods(OpSize::Word)), i)
    } else if octet == 6 {
        (Some(Op::Scas(OpSize::Byte)), i)
    } else {
        (Some(Op::Scas(OpSize::Word)), i)
    }
}

/// The near return, load-pointer and move-immediate group. Load-pointer
/// forms reject a register operand.
pub open spec fn parse_group_c0_spec(first: u8, s: Seq<u8>, i: int) -> (Option<Op>, int) {
    let octet = first & 0x07;
    if octet == 2 {
        match take2(s, i) {
            (Some(w), j) => (Some(Op::RetWithinImm(w)), j),
            (None, j) => (None, j),
        }
    } else if octet == 3 {
        (Some(Op::RetWithin), i)
    } else if octet == 4 || octet == 5 {
        match take1(s, i) {
            (Some(second), j) => match parse_mod_rm_word_spec(second, s, j) {
                (Some(mod_rm), k) => if mod_rm is Register {
                    (None, k)
                } else if octet == 4 {
                    (Some(Op::Les(word_reg_of((second >> 3) & 0x07), mod_rm)), k)
                } else {
                    (Some(Op::Lds(word_reg_of((second >> 3) & 0x07), mod_rm)), k)
                },
                (None, k) => (None, k),
            },
            (None, j) => (None, j),
        }
    } else if octet == 6 {
        match take1(s, i) {
            (Some(second), j) => match parse_mod_rm_byte_spec(second, s, j) {
                (Some(mod_rm), k) => if (second >> 3) & 0x07 == 0 {
                    match take1(s, k) {
                        (Some(imm), l) => (
                            Some(
                                Op::BinaryByte {
                                    op: OpBinaryOp::Mov,
                                    src: Operand::ImmByte(imm),
                                    dest: mod_rm,
                                },
                            ),
                            l,
                        ),
                        (None, l) => (None, l),
                    }
                } else {
                    (None, k)
                },
                (None, k) => (None, k),
            },
            (None, j) => (None, j),
        }
    } else if octet == 7 {
        match take1(s, i) {
            (Some(second), j) => match parse_mod_rm_word_spec(second, s, j) {
                (Some(mod_rm), k) => if (second >> 3) & 0x07 == 0 {
                    match take2(s, k) {
                        (Some(imm), l) => (
                            Some(
                                Op::BinaryWord {
                                    op: OpBinaryOp::Mov,
                                    src: Operand::ImmWord(imm),
                                    dest: mod_rm,
                                },
                            ),
                            l,
                        ),
                        (None, l) => (None, l),
                    }
                } else {
                    (None, k)
                },
                (None, k) => (None, k),
            },
            (None, j) => (None, j),
        }
    } else {
        (None, i)
    }
}

/// The far return and interrupt group.
pub open spec fn parse_group_c8_spec(first: u8, s: Seq<u8>, i: int) -> (Option<Op>, int) {
    let octet = first & 0x07;
    if octet == 2 {
        match take2(s, i) {
            (Some(w), j) => (Some(Op::RetInterImm(w)), j),
            (None, j) => (None, j),
        }
    } else if octet == 3 {
        (Some(Op::RetInter), i)
    } else if octet == 4 {
        (Some(Op::Int(3)), i)
    } else if octet == 5 {
        match take1(s, i) {
            (Some(n), j) => (Some(Op::Int(n)), j),
            (None, j) => (None, j),
        }
    } else if octet == 6 {
        (Some(Op::Nullary(OpNullaryOp::Into)), i)
    } else if octet == 7 {
        (Some(Op::Nullary(OpNullaryOp::Iret)), i)
    } else {
        (None, i)
    }
}

/// The shift/rotate, decimal-adjust and translate group.
pub open spec fn parse_group_d0_spec(first: u8, s: Seq<u8>, i: int) -> (Option<Op>, int) {
    let octet = first & 0x07;
    if octet <= 3 {
        match take1(s, i) {
            (Some(second), j) => {
                let shift_type = if (first >> 1) & 0x01 == 0 {
                    OpShiftType::One
                } else {
                    OpShiftType::Cl
                };
                let shift_op = shift_op_of((second >> 3) & 0x07);
                if octet == 0 || octet == 2 {
                    match parse_mod_rm_byte_spec(second, s, j) {
                        (Some(mod_rm), k) => if (second >> 3) & 0x07 == 6 {
                            (None, k)
                        } else {
                            (Some(Op::ShiftByte { op: shift_op, shift_type, dest: mod_rm }), k)
                        },
                        (None, k) => (None, k),
                    }
                } else {
                    match parse_mod_rm_word_spec(second, s, j) {
                        (Some(mod_rm), k) => if (second >> 3) & 0x07 == 6 {
                            (None, k)
                        } else {
                            (Some(Op::ShiftWord { op: shift_op, shift_type, dest: mod_rm }), k)
                        },
                        (None, k) => (None, k),
                    }
                }
            },
            (None, j) => (None, j),
        }
    } else if octet == 4 {
        match take1(s, i) {
            (Some(second), j) => if second == 0x0A {
                (Some(Op::Nullary(OpNullaryOp::Aam)), j)
            } else {
                (None, j)
            },
            (None, j) => (None, j),
        }
    } else if octet == 5 {
        match take1(s, i) {
            (Some(second), j) => if second == 0x0A {
                (Some(Op::Nullary(OpNullaryOp::Aad)), j)
            } else {
                (None, j)
            },
            (None, j) => (None, j),
        }
    } else if octet == 7 {
        (Some(Op::Nullary(OpNullaryOp::Xlat)), i)
    } else {
        (None, i)
    }
}

/// The coprocessor escape group: the escape id spans the low opcode bits
/// and the reg field.
pub open spec fn parse_group_d8_spec(first: u8, s: Seq<u8>, i: int) -> (Option<Op>, int) {
    match take1(s, i) {
        (Some(second), j) => match parse_mod_rm_word_spec(second, s, j) {
            (Some(rm), k) => (
                Some(Op::Esc((((first & 0x7) << 3) + ((second >> 3) & 0x7)) as u8, rm)),
                k,
            ),
            (None, k) => (None, k),
        },
        (None, j) => (None, j),
    }
}

/// The loop, jump-if-counter-zero and variable-port I/O group.
pub open spec fn parse_group_e0_spec(first: u8, s: Seq<u8>, i: int) -> (Option<Op>, int) {
    let octet = first & 0x07;
    match take1(s, i) {
        (None, j) => (None, j),
        (Some(second), j) => if octet == 0 {
            (Some(Op::CondJmp { op: OpCondJmpOp::Loopne, offset: second as i8 }), j)
        } else if octet == 1 {
            (Some(Op::CondJmp { op: OpCondJmpOp::Loope, offset: second as i8 }), j)
        } else if octet == 2 {
            (Some(Op::CondJmp { op: OpCondJmpOp::Loop, offset: second as i8 }), j)
        } else if octet == 3 {
            (Some(Op::CondJmp { op: OpCondJmpOp::Jcxz, offset: second as i8 }), j)
        } else if octet == 4 {
            (Some(Op::InVariable(OpSize::Byte, second)), j)
        } else if octet == 5 {
            (Some(Op::InVariable(OpSize::Word, second)), j)
        } else if octet == 6 {
            (Some(Op::OutVariable(OpSize::Byte, second)), j)
        } else {
            (Some(Op::OutVariable(OpSize::Word, second)), j)
        },
    }
}

/// The call, jump and fixed-port I/O group. The short jump displacement is
/// sign-extended into the relative word.
pub open spec fn parse_group_e8_spec(first: u8, s: Seq<u8>, i: int) -> (Option<Op>, int) {
    let octet = first & 0x07;
    if octet == 0 {
        match take2(s, i) {
            (Some(w), j) => (Some(Op::Call(OpCallType::WithinDirect(w))), j),
            (None, j) => (None, j),
        }
    } else if octet == 1 {
        match take2(s, i) {
            (Some(w), j) => (Some(Op::Jmp(OpCallType::WithinDirect(w))), j),
            (None, j) => (None, j),
        }
    } else if octet == 2 {
        match take2(s, i) {
            (Some(off), j) => match take2(s, j) {
                (Some(seg), k) => (Some(Op::Jmp(OpCallType::InterDirect(off, seg))), k),
                (None, k) => (None, k),
            },
            (None, j) => (None, j),
        }
    } else if octet == 3 {
        match take1(s, i) {
            (Some(b), j) => (
                Some(Op::Jmp(OpCallType::WithinDirect(b as i8 as i16 as u16))),
                j,
            ),
            (None, j) => (None, j),
        }
    } else if octet == 4 {
        (Some(Op::InFixed(OpSize::Byte)), i)
    } else if octet == 5 {
        (Some(Op::InFixed(OpSize::Word)), i)
    } else if octet == 6 {
        (Some(Op::OutFixed(OpSize::Byte)), i)
    } else {
        (Some(Op::OutFixed(OpSize::Word)), i)
    }
}

/// The prefix, halt and multiply/negate group.
pub open spec fn parse_group_f0_spec(first: u8, s: Seq<u8>, i: int) -> (Option<Op>, int) {
    let octet = first & 0x07;
    if octet == 0 {
        (Some(Op::Nullary(OpNullaryOp::Lock)), i)
    } else if octet == 2 {
        (Some(Op::Nullary(OpNullaryOp::Repnz)), i)
    } else if octet == 3 {
        (Some(Op::Nullary(OpNullaryOp::Rep)), i)
    } else if octet == 4 {
        (Some(Op::Nullary(OpNullaryOp::Hlt)), i)
    } else if octet == 5 {
        (Some(Op::Nullary(OpNullaryOp::Cmc)), i)
    } else if octet == 6 {
        match take1(s, i) {
            (Some(second), j) => match parse_mod_rm_byte_spec(second, s, j) {
                (Some(mod_rm), k) => {
                    let sub = (second >> 3) & 0x07;
                    if sub == 0 {
                        match take1(s, k) {
                            (Some(imm), l) => (
                                Some(
                                    Op::BinaryByte {
                                        op: OpBinaryOp::Test,
                                        src: Operand::ImmByte(imm),
                                        dest: mod_rm,
                                    },
                                ),
                                l,
                            ),
                            (None, l) => (None, l),
                        }
                    } else {
                        match grp1_op_of(sub) {
                            Some(op) => (Some(Op::UnaryByte { op, dest: mod_rm }), k),
                            None => (None, k),
                        }
                    }
                },
                (None, k) => (None, k),
            },
            (None, j) => (None, j),
        }
    } else if octet == 7 {
        match take1(s, i) {
            (Some(second), j) => match parse_mod_rm_word_spec(second, s, j) {
                (Some(mod_rm), k) => {
                    let sub = (second >> 3) & 0x07;
                    if sub == 0 {
                        match take2(s, k) {
                            (Some(imm), l) => (
                                Some(
                                    Op::BinaryWord {
                                        op: OpBinaryOp::Test,
                                        src: Operand::ImmWord(imm),
                                        dest: mod_rm,
                                    },
                                ),
                                l,
                            ),
                            (None, l) => (None, l),
                        }
                    } else {
                        match grp1_op_of(sub) {
                            Some(op) => (Some(Op::UnaryWord { op, dest: mod_rm }), k),
                            None => (None, k),
                        }
                    }
                },
                (None, k) => (None, k),
            },
            (None, j) => (None, j),
        }
    } else {
        (None, i)
    }
}

/// The flag-control and increment/call/jump/push group. Indirect far calls
/// and jumps reject a register operand.
pub open spec fn parse_group_f8_spec(first: u8, s: Seq<u8>, i: int) -> (Option<Op>, int) {
    let octet = first & 0x07;
    if octet == 0 {
        (Some(Op::Nullary(OpNullaryOp::Clc)), i)
    } else if octet == 1 {
        (Some(Op::Nullary(OpNullaryOp::Stc)), i)
    } else if octet == 2 {
        (Some(Op::Nullary(OpNullaryOp::Cli)), i)
    } else if octet == 3 {
        (Some(Op::Nullary(OpNullaryOp::Sti)), i)
    } else if octet == 4 {
        (Some(Op::Nullary(OpNullaryOp::Cld)), i)
    } else if octet == 5 {
        (Some(Op::Nullary(OpNullaryOp::Std)), i)
    } else if octet == 6 {
        match take1(s, i) {
            (Some(second), j) => match parse_mod_rm_byte_spec(second, s, j) {
                (Some(mod_rm), k) => match grp2_op_of((second >> 3) & 0x07) {
                    Some(op) => (Some(Op::UnaryByte { op, dest: mod_rm }), k),
                    None => (None, k),
                },
                (None, k) => (None, k),
            },
            (None, j) => (None, j),
        }
    } else {
        match take1(s, i) {
            (Some(second), j) => match parse_mod_rm_word_spec(second, s, j) {
                (Some(mod_rm), k) => {
                    let sub = (second >> 3) & 0x07;
                    if sub == 2 {
                        (Some(Op::Call(OpCallType::WithinIndirect(mod_rm))), k)
                    } else if sub == 3 {
                        if mod_rm is Register {
                            (None, k)
                        } else {
                            (Some(Op::Call(OpCallType::InterIndirect(mod_rm))), k)
                        }
                    } else if sub == 4 {
                        (Some(Op::Jmp(OpCallType::WithinIndirect(mod_rm))), k)
                    } else if sub == 5 {
                        if mod_rm is Register {
                            (None, k)
                        } else {
                            (Some(Op::Jmp(OpCallType::InterIndirect(mod_rm))), k)
                        }
                    } else {
                        match grp2_op_of(sub) {
                            Some(op) => (Some(Op::UnaryWord { op, dest: mod_rm }), k),
                            None => (None, k),
                        }
                    }
                },
                (None, k) => (None, k),
            },
            (None, j) => (None, j),
        }
    }
}

/// The conditional short branch named by the low four bits of an opcode in
/// the branch quarter of the map.
pub open spec fn cond_jmp_of(low: u8) -> OpCondJmpOp
    recommends
        low < 16,
{
    if low == 0 {
        OpCondJmpOp::Jo
    } else if low == 1 {
        OpCondJmpOp::Jno
    } else if low == 2 {
        OpCondJmpOp::Jb
    } else if low == 3 {
        OpCondJmpOp::Jnb
    } else if low == 4 {
        OpCondJmpOp::Je
    } else if low == 5 {
        OpCondJmpOp::Jne
    } else if low == 6 {
        OpCondJmpOp::Jbe
    } else if low == 7 {
        OpCondJmpOp::Ja
    } else if low == 8 {
        OpCondJmpOp::Js
    } else if low == 9 {
        OpCondJmpOp::Jns
    } else if low == 10 {
        OpCondJmpOp::Jp
    } else if low == 11 {
        OpCondJmpOp::Jnp
    } else if low == 12 {
        OpCondJmpOp::Jl
    } else if low == 13 {
        OpCondJmpOp::Jge
    } else if low == 14 {
        OpCondJmpOp::Jle
    } else {
        OpCondJmpOp::Jg
    }
}

/// One instruction decoded from the stream at the cursor: the operation, if
/// the bytes form one, and the cursor after the bytes the decode consumed.
pub open spec fn parse_op_spec(s: Seq<u8>, i: int) -> (Option<Op>, int) {
    match take1(s, i) {
        (None, _) => (None, i),
        (Some(first), j) => {
            let group = first & 0xf8;
            let octet = first & 0x07;
            if group == 0x00 {
                parse_alu_block_spec(OpBinaryOp::Add, RegisterWordType::Es, None, first, s, j)
            } else if group == 0x08 {
                parse_alu_block_spec(OpBinaryOp::Or, RegisterWordType::Cs, None, first, s, j)
            } else if group == 0x10 {
                parse_alu_block_spec(OpBinaryOp::Adc, RegisterWordType::Ss, None, first, s, j)
            } else if group == 0x18 {
                parse_alu_block_spec(OpBinaryOp::Sbb, RegisterWordType::Ds, None, first, s, j)
            } else if group == 0x20 {
                parse_alu_block_spec(
                    OpBinaryOp::And,
                    RegisterWordType::Es,
                    Some(OpNullaryOp::Daa),
                    first,
                    s,
                    j,
                )
            } else if group == 0x28 {
                parse_alu_block_spec(
                    OpBinaryOp::Sub,
                    RegisterWordType::Cs,
                    Some(OpNullaryOp::Das),
                    first,
                    s,
                    j,
                )
            } else if group == 0x30 {
                parse_alu_block_spec(
                    OpBinaryOp::Xor,
                    RegisterWordType::Ss,
                    Some(OpNullaryOp::Aaa),
                    first,
                    s,
                    j,
                )
            } else if group == 0x38 {
                parse_alu_block_spec(
                    OpBinaryOp::Cmp,
                    RegisterWordType::Ds,
                    Some(OpNullaryOp::Aas),
                    first,
                    s,
                    j,
                )
            } else if group == 0x40 {
                (
                    Some(
                        Op::UnaryWord {
                            op: OpUnaryOp::Inc,
                            dest: Operand::Register(word_reg_of(octet)),
                        },
                    ),
                    j,
                )
            } else if group == 0x48 {
                (
                    Some(
                        Op::UnaryWord {
                            op: OpUnaryOp::Dec,
                            dest: Operand::Register(word_reg_of(octet)),
                        },
                    ),
                    j,
                )
            } else if group == 0x50 {
                (
                    Some(
                        Op::UnaryWord {
                            op: OpUnaryOp::Push,
                            dest: Operand::Register(word_reg_of(octet)),
                        },
                    ),
                    j,
                )
            } else if group == 0x58 {
                (
                    Some(
                        Op::UnaryWord {
                            op: OpUnaryOp::Pop,
                            dest: Operand::Register(word_reg_of(octet)),
                        },
                    ),
                    j,
                )
            } else if group == 0x70 || group == 0x78 {
                match take1(s, j) {
                    (Some(second), k) => (
                        Some(
                            Op::CondJmp { op: cond_jmp_of(first & 0x0f), offset: second as i8 },
                        ),
                        k,
                    ),
                    (None, k) => (None, k),
                }
            } else if group == 0x80 {
                parse_group_80_spec(first, s, j)
            } else if group == 0x88 {
                parse_group_88_spec(first, s, j)
            } else if group == 0x90 {
                (
                    Some(
                        Op::BinaryWord {
                            op: OpBinaryOp::Xchg,
                            src: Operand::Register(RegisterWordType::Ax),
                            dest: Operand::Register(word_reg_of(octet)),
                        },
                    ),
                    j,
                )
            } else if group == 0x98 {
                parse_group_98_spec(first, s, j)
            } else if group == 0xA0 {
                parse_group_a0_spec(first, s, j)
            } else if group == 0xA8 {
                parse_group_a8_spec(first, s, j)
            } else if group == 0xB0 {
                match take1(s, j) {
                    (Some(imm), k) => (
                        Some(
                            Op::BinaryByte {
                                op: OpBinaryOp::Mov,
                                src: Operand::ImmByte(imm),
                                dest: Operand::Register(byte_reg_of(octet)),
                            },
                        ),
                        k,
                    ),
                    (None, k) => (None, k),
                }
            } else if group == 0xB8 {
                match take2(s, j) {
                    (Some(imm), k) => (
                        Some(
                            Op::BinaryWord {
                                op: OpBinaryOp::Mov,
                                src: Operand::ImmWord(imm),
                                dest: Operand::Register(word_reg_of(octet)),
                            },
                        ),
                        k,
                    ),
                    (None, k) => (None, k),
                }
            } else if group == 0xC0 {
                parse_group_c0_spec(first, s, j)
            } else if group == 0xC8 {
                parse_group_c8_spec(first, s, j)
            } else if group == 0xD0 {
                parse_group_d0_spec(first, s, j)
            } else if group == 0xD8 {
                parse_group_d8_spec(first, s, j)
            } else if group == 0xE0 {
                parse_group_e0_spec(first, s, j)
            } else if group == 0xE8 {
                parse_group_e8_spec(first, s, j)
            } else if group == 0xF0 {
                parse_group_f0_spec(first, s, j)
            } else if group == 0xF8 {
                parse_group_f8_spec(first, s, j)
            } else {
                (None, j)
            }
        },
    }
}

/// Field-extraction bounds used all over the decoder.
proof fn lemma_mask_bounds(v: u8)
    by (bit_vector)
    ensures
        v & 0x07 < 8,
        (v >> 3) & 0x07 < 8,
        (v >> 6) & 0x03 < 4,
        v & 0x0f < 16,
        v & 0x01 < 2,
        (v >> 1) & 0x01 < 2,
        ((v & 0x7) << 3) + 8 <= 64,
{
}

/// The next little-endian word of the code stream.
pub fn iter_next_u16(iter: &mut CPUIterator) -> (r: Option<u16>)
    ensures
        final(iter).bytes == old(iter).bytes,
        (r, final(iter).pos as int) == take2(old(iter).bytes@, old(iter).pos as int),
{
    let lo = match iter.next() {
        Some(b) => b,
        None => {
            return None;
        },
    };
    let hi = match iter.next() {
        Some(b) => b,
        None => {
            return None;
        },
    };
    let r = (lo as u16) | ((hi as u16) << 8);
    proof {
        crate::mem::lemma_byte_pack();
    }
    Some(r)
}

/// A ModR/M byte decoded to a byte-width operand.
fn parse_mod_rm_byte(second: u8, iter: &mut CPUIterator) -> (r: Option<OperandByte>)
    ensures
        final(iter).bytes == old(iter).bytes,
        (r, final(iter).pos as int) == parse_mod_rm_byte_spec(
            second,
            old(iter).bytes@,
            old(iter).pos as int,
        ),
{
    proof {
        lemma_mask_bounds(second);
    }
    let md = (second >> 6) & 0x03;
    let rm = second & 0x07;
    if md == 0 {
        if rm == 6 {
            match iter_next_u16(iter) {
                Some(w) => Some(Operand::Direct(w)),
                None => None,
            }
        } else {
            let at = AddressType::from_value(rm);
            Some(Operand::Address(at.unwrap(), 0))
        }
    } else if md == 1 {
        match iter.next() {
            Some(b) => Some(Operand::Address(AddressType::from_value(rm).unwrap(), b as i8 as i16)),
            None => None,
        }
    } else if md == 2 {
        match iter_next_u16(iter) {
            Some(w) => Some(Operand::Address(AddressType::from_value(rm).unwrap(), w as i16)),
            None => None,
        }
    } else {
        Some(Operand::Register(RegisterByteType::from_value(rm).unwrap()))
    }
}

/// A ModR/M byte decoded to a word-width operand.
fn parse_mod_rm_word(second: u8, iter: &mut CPUIterator) -> (r: Option<OperandWord>)
    ensures
        final(iter).bytes == old(iter).bytes,
        (r, final(iter).pos as int) == parse_mod_rm_word_spec(
            second,
            old(iter).bytes@,
            old(iter).pos as int,
        ),
{
    proof {
        lemma_mask_bounds(second);
    }
    let md = (second >> 6) & 0x03;
    let rm = second & 0x07;
    if md == 0 {
        if rm == 6 {
            match iter_next_u16(iter) {
                Some(w) => Some(Operand::Direct(w)),
                None => None,
            }
        } else {
            let at = AddressType::from_value(rm);
            Some(Operand::Address(at.unwrap(), 0))
        }
    } else if md == 1 {
        match iter.next() {
            Some(b) => Some(Operand::Address(AddressType::from_value(rm).unwrap(), b as i8 as i16)),
            None => None,
        }
    } else if md == 2 {
        match iter_next_u16(iter) {
            Some(w) => Some(Operand::Address(AddressType::from_value(rm).unwrap(), w as i16)),
            None => None,
        }
    } else {
        Some(Operand::Register(RegisterWordType::from_value(rm).unwrap()))
    }
}

/// A register-with-ModR/M instruction of byte width.
fn create_binary_op_byte(
    second: u8,
    iter: &mut CPUIterator,
    op: OpBinaryOp,
    other: OperandByte,
    inversed: bool,
) -> (r: Option<Op>)
    ensures
        final(iter).bytes == old(iter).bytes,
        (r, final(iter).pos as int) == create_binary_byte_spec(
            second,
            old(iter).bytes@,
            old(iter).pos as int,
            op,
            other,
            inversed,
        ),
{
    let mod_rm = match parse_mod_rm_byte(second, iter) {
        Some(m) => m,
        None => {
            return None;
        },
    };
    if inversed {
        Some(Op::BinaryByte { op, src: other, dest: mod_rm })
    } else {
        Some(Op::BinaryByte { op, src: mod_rm, dest: other })
    }
}

/// A register-with-ModR/M instruction of word width.
fn create_binary_op_word(
    second: u8,
    iter: &mut CPUIterator,
    op: OpBinaryOp,
    other: OperandWord,
    inversed: bool,
) -> (r: Option<Op>)
    ensures
        final(iter).bytes == old(iter).bytes,
        (r, final(iter).pos as int) == create_binary_word_spec(
            second,
            old(iter).bytes@,
            old(iter).pos as int,
            op,
            other,
            inversed,
        ),
{
    let mod_rm = match parse_mod_rm_word(second, iter) {
        Some(m) => m,
        None => {
            return None;
        },
    };
    if inversed {
        Some(Op::BinaryWord { op, src: other, dest: mod_rm })
    } else {
        Some(Op::BinaryWord { op, src: mod_rm, dest: other })
    }
}

/// The six shared octets of an ALU block.
fn parse_binary_group_op(op: OpBinaryOp, first: u8, iter: &mut CPUIterator) -> (r: Option<Op>)
    requires
        first & 0x07 <= 5,
    ensures
        final(iter).bytes == old(iter).bytes,
        (r, final(iter).pos as int) == parse_binary_group_spec(
            op,
            first,
            old(iter).bytes@,
            old(iter).pos as int,
        ),
{
    proof {
        lemma_mask_bounds(first);
    }
    let octet = first & 0x07;
    if octet == 0 || octet == 2 {
        let second = match iter.next() {
            Some(b) => b,
            None => {
                return None;
            },
        };
        proof {
            lemma_mask_bounds(second);
        }
        let reg = RegisterByteType::from_value((second >> 3) & 0x07).unwrap();
        create_binary_op_byte(second, iter, op, Operand::Register(reg), first & 0x02 == 0)
    } else if octet == 1 || octet == 3 {
        let second = match iter.next() {
            Some(b) => b,
            None => {
                return None;
            },
        };
        proof {
            lemma_mask_bounds(second);
        }
        let reg = RegisterWordType::from_value((second >> 3) & 0x07).unwrap();
        create_binary_op_word(second, iter, op, Operand::Register(reg), first & 0x02 == 0)
    } else if octet == 4 {
        match iter.next() {
            Some(imm) => Some(
                Op::BinaryByte {
                    op,
                    src: Operand::ImmByte(imm),
                    dest: Operand::Register(RegisterByteType::Al),
                },
            ),
            None => None,
        }
    } else {
        match iter_next_u16(iter) {
            Some(imm) => Some(
                Op::BinaryWord {
                    op,
                    src: Operand::ImmWord(imm),
                    dest: Operand::Register(RegisterWordType::Ax),
                },
            ),
            None => None,
        }
    }
}

/// One ALU block of the low quarter of the opcode map.
fn parse_alu_block(
    op: OpBinaryOp,
    seg: RegisterWordType,
    adjust: Option<OpNullaryOp>,
    first: u8,
    iter: &mut CPUIterator,
) -> (r: Option<Op>)
    ensures
        final(iter).bytes == old(iter).bytes,
        (r, final(iter).pos as int) == parse_alu_block_spec(
            op,
            seg,
            adjust,
            first,
            old(iter).bytes@,
            old(iter).pos as int,
        ),
{
    proof {
        lemma_mask_bounds(first);
    }
    let octet = first & 0x07;
    if octet <= 5 {
        parse_binary_group_op(op, first, iter)
    } else if octet == 6 {
        match adjust {
            Some(_) => Some(Op::Segment(seg)),
            None => Some(Op::UnaryWord { op: OpUnaryOp::Push, dest: Operand::Register(seg) }),
        }
    } else {
        match adjust {
            Some(a) => Some(Op::Nullary(a)),
            None => Some(Op::UnaryWord { op: OpUnaryOp::Pop, dest: Operand::Register(seg) }),
        }
    }
}

/// The immediate, test and exchange group.
fn parse_group_80(first: u8, iter: &mut CPUIterator) -> (r: Option<Op>)
    ensures
        final(iter).bytes == old(iter).bytes,
        (r, final(iter).pos as int) == parse_group_80_spec(
            first,
            old(iter).bytes@,
            old(iter).pos as int,
        ),
{
    proof {
        lemma_mask_bounds(first);
    }
    let octet = first & 0x07;
    let second = match iter.next() {
        Some(b) => b,
        None => {
            return None;
        },
    };
    proof {
        lemma_mask_bounds(second);
    }
    if octet <= 3 {
        let op = OpBinaryOp::from_immed((second >> 3) & 0x07).unwrap();
        if first & 0x01 == 0 {
            let mod_rm = match parse_mod_rm_byte(second, iter) {
                Some(m) => m,
                None => {
                    return None;
                },
            };
            match iter.next() {
                Some(imm) => Some(
                    Op::BinaryByte { op, src: Operand::ImmByte(imm), dest: mod_rm },
                ),
                None => None,
            }
        } else {
            let mod_rm = match parse_mod_rm_word(second, iter) {
                Some(m) => m,
                None => {
                    return None;
                },
            };
            if first & 0x03 == 1 {
                match iter_next_u16(iter) {
                    Some(imm) => Some(
                        Op::BinaryWord { op, src: Operand::ImmWord(imm), dest: mod_rm },
                    ),
                    None => None,
                }
            } else {
                match iter.next() {
                    Some(imm) => Some(
                        Op::BinaryWord { op, src: Operand::ImmByte(imm), dest: mod_rm },
                    ),
                    None => None,
                }
            }
        }
    } else if octet == 4 || octet == 6 {
        let op = if octet == 4 {
            OpBinaryOp::Test
        } else {
            OpBinaryOp::Xchg
        };
        let reg = RegisterByteType::from_value((second >> 3) & 0x07).unwrap();
        create_binary_op_byte(second, iter, op, Operand::Register(reg), true)
    } else {
        let op = if octet == 5 {
            OpBinaryOp::Test
        } else {
            OpBinaryOp::Xchg
        };
        let reg = RegisterWordType::from_value((second >> 3) & 0x07).unwrap();
        create_binary_op_word(second, iter, op, Operand::Register(reg), true)
    }
}

/// The move, load-effective-address and pop group.
fn parse_group_88(first: u8, iter: &mut CPUIterator) -> (r: Option<Op>)
    ensures
        final(iter).bytes == old(iter).bytes,
        (r, final(iter).pos as int) == parse_group_88_spec(
            first,
            old(iter).bytes@,
            old(iter).pos as int,
        ),
{
    proof {
        lemma_mask_bounds(first);
    }
    let octet = first & 0x07;
    if octet <= 3 {
        return parse_binary_group_op(OpBinaryOp::Mov, first, iter);
    }
    let second = match iter.next() {
        Some(b) => b,
        None => {
            return None;
        },
    };
    proof {
        lemma_mask_bounds(second);
    }
    if octet == 4 || octet == 6 {
        let reg = match RegisterWordType::from_seg((second >> 3) & 0x07) {
            Some(r) => r,
            None => {
                return None;
            },
        };
        let mod_rm = match parse_mod_rm_word(second, iter) {
            Some(m) => m,
            None => {
                return None;
            },
        };
        if octet == 4 {
            Some(
                Op::BinaryWord {
                    op: OpBinaryOp::Mov,
                    src: Operand::Register(reg),
                    dest: mod_rm,
                },
            )
        } else {
            Some(
                Op::BinaryWord {
                    op: OpBinaryOp::Mov,
                    src: mod_rm,
                    dest: Operand::Register(reg),
                },
            )
        }
    } else if octet == 5 {
        let mod_rm = match parse_mod_rm_word(second, iter) {
            Some(m) => m,
            None => {
                return None;
            },
        };
        match mod_rm {
            Operand::Register(_) => None,
            _ => Some(Op::Lea(RegisterWordType::from_value((second >> 3) & 0x07).unwrap(), mod_rm)),
        }
    } else {
        let mod_rm = match parse_mod_rm_word(second, iter) {
            Some(m) => m,
            None => {
                return None;
            },
        };
        if (second >> 3) & 0x07 == 0 {
            Some(Op::UnaryWord { op: OpUnaryOp::Pop, dest: mod_rm })
        } else {
            None
        }
    }
}

/// The near return, load-pointer and move-immediate group.
fn parse_group_c0(first: u8, iter: &mut CPUIterator) -> (r: Option<Op>)
    ensures
        final(iter).bytes == old(iter).bytes,
        (r, final(iter).pos as int) == parse_group_c0_spec(
            first,
            old(iter).bytes@,
            old(iter).pos as int,
        ),
{
    proof {
        lemma_mask_bounds(first);
    }
    let octet = first & 0x07;
    if octet == 2 {
        match iter_next_u16(iter) {
            Some(w) => Some(Op::RetWithinImm(w)),
            None => None,
        }
    } else if octet == 3 {
        Some(Op::RetWithin)
    } else if octet == 4 || octet == 5 {
        let second = match iter.next() {
            Some(b) => b,
            None => {
                return None;
            },
        };
        proof {
            lemma_mask_bounds(second);
        }
        let mod_rm = match parse_mod_rm_word(second, iter) {
            Some(m) => m,
            None => {
                return None;
            },
        };
        let reg = RegisterWordType::from_value((second >> 3) & 0x07).unwrap();
        match mod_rm {
            Operand::Register(_) => None,
            _ => if octet == 4 {
                Some(Op::Les(reg, mod_rm))
            } else {
                Some(Op::Lds(reg, mod_rm))
            },
        }
    } else if octet == 6 {
        let second = match iter.next() {
            Some(b) => b,
            None => {
                return None;
            },
        };
        proof {
            lemma_mask_bounds(second);
        }
        let mod_rm = match parse_mod_rm_byte(second, iter) {
            Some(m) => m,
            None => {
                return None;
            },
        };
        if (second >> 3) & 0x07 == 0 {
            match iter.next() {
                Some(imm) => Some(
                    Op::BinaryByte {
                        op: OpBinaryOp::Mov,
                        src: Operand::ImmByte(imm),
                        dest: mod_rm,
                    },
                ),
                None => None,
            }
        } else {
            None
        }
    } else if octet == 7 {
        let second = match iter.next() {
            Some(b) => b,
            None => {
                return None;
            },
        };
        proof {
            lemma_mask_bounds(second);
        }
        let mod_rm = match parse_mod_rm_word(second, iter) {
            Some(m) => m,
            None => {
                return None;
            },
        };
        if (second >> 3) & 0x07 == 0 {
            match iter_next_u16(iter) {
                Some(imm) => Some(
                    Op::BinaryWord {
                        op: OpBinaryOp::Mov,
                        src: Operand::ImmWord(imm),
                        dest: mod_rm,
                    },
                ),
                None => None,
            }
        } else {
            None
        }
    } else {
        None
    }
}

/// The shift/rotate, decimal-adjust and translate group.
fn parse_group_d0(first: u8, iter: &mut CPUIterator) -> (r: Option<Op>)
    ensures
        final(iter).bytes == old(iter).bytes,
        (r, final(iter).pos as int) == parse_group_d0_spec(
            first,
            old(iter).bytes@,
            old(iter).pos as int,
        ),
{
    proof {
        lemma_mask_bounds(first);
    }
    let octet = first & 0x07;
    if octet <= 3 {
        let second = match iter.next() {
            Some(b) => b,
            None => {
                return None;
            },
        };
        proof {
            lemma_mask_bounds(second);
        }
        let shift_type = if (first >> 1) & 0x01 == 0 {
            OpShiftType::One
        } else {
            OpShiftType::Cl
        };
        if octet == 0 || octet == 2 {
            let mod_rm = match parse_mod_rm_byte(second, iter) {
                Some(m) => m,
                None => {
                    return None;
                },
            };
            match OpShiftOp::from_value((second >> 3) & 0x07) {
                Some(shift_op) => Some(Op::ShiftByte { op: shift_op, shift_type, dest: mod_rm }),
                None => None,
            }
        } else {
            let mod_rm = match parse_mod_rm_word(second, iter) {
                Some(m) => m,
                None => {
                    return None;
                },
            };
            match OpShiftOp::from_value((second >> 3) & 0x07) {
                Some(shift_op) => Some(Op::ShiftWord { op: shift_op, shift_type, dest: mod_rm }),
                None => None,
            }
        }
    } else if octet == 4 {
        match iter.next() {
            Some(second) => if second == 0x0A {
                Some(Op::Nullary(OpNullaryOp::Aam))
            } else {
                None
            },
            None => None,
        }
    } else if octet == 5 {
        match iter.next() {
            Some(second) => if second == 0x0A {
                Some(Op::Nullary(OpNullaryOp::Aad))
            } else {
                None
            },
            None => None,
        }
    } else if octet == 7 {
        Some(Op::Nullary(OpNullaryOp::Xlat))
    } else {
        None
    }
}

/// The prefix, halt and multiply/negate group.
fn parse_group_f0(first: u8, iter: &mut CPUIterator) -> (r: Option<Op>)
    ensures
        final(iter).bytes == old(iter).bytes,
        (r, final(iter).pos as int) == parse_group_f0_spec(
            first,
            old(iter).bytes@,
            old(iter).pos as int,
        ),
{
    proof {
        lemma_mask_bounds(first);
    }
    let octet = first & 0x07;
    if octet == 0 {
        Some(Op::Nullary(OpNullaryOp::Lock))
    } else if octet == 2 {
        Some(Op::Nullary(OpNullaryOp::Repnz))
    } else if octet == 3 {
        Some(Op::Nullary(OpNullaryOp::Rep))
    } else if octet == 4 {
        Some(Op::Nullary(OpNullaryOp::Hlt))
    } else if octet == 5 {
        Some(Op::Nullary(OpNullaryOp::Cmc))
    } else if octet == 6 {
        let second = match iter.next() {
            Some(b) => b,
            None => {
                return None;
            },
        };
        proof {
            lemma_mask_bounds(second);
        }
        let mod_rm = match parse_mod_rm_byte(second, iter) {
            Some(m) => m,
            None => {
                return None;
            },
        };
        let sub = (second >> 3) & 0x07;
        if sub == 0 {
            match iter.next() {
                Some(imm) => Some(
                    Op::BinaryByte {
                        op: OpBinaryOp::Test,
                        src: Operand::ImmByte(imm),
                        dest: mod_rm,
                    },
                ),
                None => None,
            }
        } else {
            match OpUnaryOp::from_grp1(sub) {
                Some(op) => Some(Op::UnaryByte { op, dest: mod_rm }),
                None => None,
            }
        }
    } else if octet == 7 {
        let second = match iter.next() {
            Some(b) => b,
            None => {
                return None;
            },
        };
        proof {
            lemma_mask_bounds(second);
        }
        let mod_rm = match parse_mod_rm_word(second, iter) {
            Some(m) => m,
            None => {
                return None;
            },
        };
        let sub = (second >> 3) & 0x07;
        if sub == 0 {
            match iter_next_u16(iter) {
                Some(imm) => Some(
                    Op::BinaryWord {
                        op: OpBinaryOp::Test,
                        src: Operand::ImmWord(imm),
                        dest: mod_rm,
                    },
                ),
                None => None,
            }
        } else {
            match OpUnaryOp::from_grp1(sub) {
                Some(op) => Some(Op::UnaryWord { op, dest: mod_rm }),
                None => None,
            }
        }
    } else {
        None
    }
}

/// The flag-control and increment/call/jump/push group.
fn parse_group_f8(first: u8, iter: &mut CPUIterator) -> (r: Option<Op>)
    ensures
        final(iter).bytes == old(iter).bytes,
        (r, final(iter).pos as int) == parse_group_f8_spec(
            first,
            old(iter).bytes@,
            old(iter).pos as int,
        ),
{
    proof {
        lemma_mask_bounds(first);
    }
    let octet = first & 0x07;
    if octet == 0 {
        Some(Op::Nullary(OpNullaryOp::Clc))
    } else if octet == 1 {
        Some(Op::Nullary(OpNullaryOp::Stc))
    } else if octet == 2 {
        Some(Op::Nullary(OpNullaryOp::Cli))
    } else if octet == 3 {
        Some(Op::Nullary(OpNullaryOp::Sti))
    } else if octet == 4 {
        Some(Op::Nullary(OpNullaryOp::Cld))
    } else if octet == 5 {
        Some(Op::Nullary(OpNullaryOp::Std))
    } else if octet == 6 {
        let second = match iter.next() {
            Some(b) => b,
            None => {
                return None;
            },
        };
        proof {
            lemma_mask_bounds(second);
        }
        let mod_rm = match parse_mod_rm_byte(second, iter) {
            Some(m) => m,
            None => {
                return None;
            },
        };
        match OpUnaryOp::from_grp2((second >> 3) & 0x07) {
            Some(op) => Some(Op::UnaryByte { op, dest: mod_rm }),
            None => None,
        }
    } else {
        let second = match iter.next() {
            Some(b) => b,
            None => {
                return None;
            },
        };
        proof {
            lemma_mask_bounds(second);
        }
        let mod_rm = match parse_mod_rm_word(second, iter) {
            Some(m) => m,
            None => {
                return None;
            },
        };
        let sub = (second >> 3) & 0x07;
        if sub == 2 {
            Some(Op::Call(OpCallType::WithinIndirect(mod_rm)))
        } else if sub == 3 {
            match mod_rm {
                Operand::Register(_) => None,
                _ => Some(Op::Call(OpCallType::InterIndirect(mod_rm))),
            }
        } else if sub == 4 {
            Some(Op::Jmp(OpCallType::WithinIndirect(mod_rm)))
        } else if sub == 5 {
            match mod_rm {
                Operand::Register(_) => None,
                _ => Some(Op::Jmp(OpCallType::InterIndirect(mod_rm))),
            }
        } else {
            match OpUnaryOp::from_grp2(sub) {
                Some(op) => Some(Op::UnaryWord { op, dest: mod_rm }),
                None => None,
            }
        }
    }
}

/// The conditional branch an opcode low nibble names.
fn cond_jmp_from(low: u8) -> (r: OpCondJmpOp)
    requires
        low < 16,
    ensures
        r == cond_jmp_of(low),
{
    match low {
        0 => OpCondJmpOp::Jo,
        1 => OpCondJmpOp::Jno,
        2 => OpCondJmpOp::Jb,
        3 => OpCondJmpOp::Jnb,
        4 => OpCondJmpOp::Je,
        5 => OpCondJmpOp::Jne,
        6 => OpCondJmpOp::Jbe,
        7 => OpCondJmpOp::Ja,
        8 => OpCondJmpOp::Js,
        9 => OpCondJmpOp::Jns,
        10 => OpCondJmpOp::Jp,
        11 => OpCondJmpOp::Jnp,
        12 => OpCondJmpOp::Jl,
        13 => OpCondJmpOp::Jge,
        14 => OpCondJmpOp::Jle,
        _ => OpCondJmpOp::Jg,
    }
}

/// Decode one instruction from the code stream: the structured operation if
/// the bytes at the cursor form one, with the cursor left after the bytes
/// the instruction consumed, or nothing on an unassigned opcode, a rejected
/// operand shape, or an exhausted stream.
pub fn parse_op(iter: &mut CPUIterator) -> (r: Option<Op>)
    ensures
        final(iter).bytes == old(iter).bytes,
        (r, final(iter).pos as int) == parse_op_spec(old(iter).bytes@, old(iter).pos as int),
{
    let first = match iter.next() {
        Some(b) => b,
        None => {
            return None;
        },
    };
    proof {
        lemma_mask_bounds(first);
        assert(first & 0xf8 == (first & 0xf8) & 0xf8) by (bit_vector);
        assert((first & 0xf8) & 0x07 == 0) by (bit_vector);
    }
    let octet = first & 0x07;
    let group = first & 0xf8;
    if group == 0x00 {
        parse_alu_block(OpBinaryOp::Add, RegisterWordType::Es, None, first, iter)
    } else if group == 0x08 {
        parse_alu_block(OpBinaryOp::Or, RegisterWordType::Cs, None, first, iter)
    } else if group == 0x10 {
        parse_alu_block(OpBinaryOp::Adc, RegisterWordType::Ss, None, first, iter)
    } else if group == 0x18 {
        parse_alu_block(OpBinaryOp::Sbb, RegisterWordType::Ds, None, first, iter)
    } else if group == 0x20 {
        parse_alu_block(OpBinaryOp::And, RegisterWordType::Es, Some(OpNullaryOp::Daa), first, iter)
    } else if group == 0x28 {
        parse_alu_block(OpBinaryOp::Sub, RegisterWordType::Cs, Some(OpNullaryOp::Das), first, iter)
    } else if group == 0x30 {
        parse_alu_block(OpBinaryOp::Xor, RegisterWordType::Ss, Some(OpNullaryOp::Aaa), first, iter)
    } else if group == 0x38 {
        parse_alu_block(OpBinaryOp::Cmp, RegisterWordType::Ds, Some(OpNullaryOp::Aas), first, iter)
    } else if group == 0x40 {
        Some(
            Op::UnaryWord {
                op: OpUnaryOp::Inc,
                dest: Operand::Register(RegisterWordType::from_value(octet).unwrap()),
            },
        )
    } else if group == 0x48 {
        Some(
            Op::UnaryWord {
                op: OpUnaryOp::Dec,
                dest: Operand::Register(RegisterWordType::from_value(octet).unwrap()),
            },
        )
    } else if group == 0x50 {
        Some(
            Op::UnaryWord {
                op: OpUnaryOp::Push,
                dest: Operand::Register(RegisterWordType::from_value(octet).unwrap()),
            },
        )
    } else if group == 0x58 {
        Some(
            Op::UnaryWord {
                op: OpUnaryOp::Pop,
                dest: Operand::Register(RegisterWordType::from_value(octet).unwrap()),
            },
        )
    } else if group == 0x70 || group == 0x78 {
        let jmp_type = cond_jmp_from(first & 0x0f);
        match iter.next() {
            Some(second) => Some(Op::CondJmp { op: jmp_type, offset: second as i8 }),
            None => None,
        }
    } else if group == 0x80 {
        parse_group_80(first, iter)
    } else if group == 0x88 {
        parse_group_88(first, iter)
    } else if group == 0x90 {
        Some(
            Op::BinaryWord {
                op: OpBinaryOp::Xchg,
                src: Operand::Register(RegisterWordType::Ax),
                dest: Operand::Register(RegisterWordType::from_value(octet).unwrap()),
            },
        )
    } else if group == 0x98 {
        if octet == 0 {
            Some(Op::Nullary(OpNullaryOp::Cbw))
        } else if octet == 1 {
            Some(Op::Nullary(OpNullaryOp::Cwd))
        } else if octet == 2 {
            let off = match iter_next_u16(iter) {
                Some(w) => w,
                None => {
                    return None;
                },
            };
            match iter_next_u16(iter) {
                Some(seg) => Some(Op::Call(OpCallType::InterDirect(off, seg))),
                None => None,
            }
        } else if octet == 3 {
            Some(Op::Nullary(OpNullaryOp::Wait))
        } else if octet == 4 {
            Some(Op::Nullary(OpNullaryOp::Pushf))
        } else if octet == 5 {
            Some(Op::Nullary(OpNullaryOp::Popf))
        } else if octet == 6 {
            Some(Op::Nullary(OpNullaryOp::Sahf))
        } else {
            Some(Op::Nullary(OpNullaryOp::Lahf))
        }
    } else if group == 0xA0 {
        if octet == 4 {
            Some(Op::Movs(OpSize::Byte))
        } else if octet == 5 {
            Some(Op::Movs(OpSize::Word))
        } else if octet == 6 {
            Some(Op::Cmps(OpSize::Byte))
        } else if octet == 7 {
            Some(Op::Cmps(OpSize::Word))
        } else {
            let off = match iter_next_u16(iter) {
                Some(w) => w,
                None => {
                    return None;
                },
            };
            if octet == 0 {
                Some(
                    Op::BinaryByte {
                        op: OpBinaryOp::Mov,
                        src: Operand::Direct(off),
                        dest: Operand::Register(RegisterByteType::Al),
                    },
                )
            } else if octet == 1 {
                Some(
                    Op::BinaryWord {
                        op: OpBinaryOp::Mov,
                        src: Operand::Direct(off),
                        dest: Operand::Register(RegisterWordType::Ax),
                    },
                )
            } else if octet == 2 {
                Some(
                    Op::BinaryByte {
                        op: OpBinaryOp::Mov,
                        src: Operand::Register(RegisterByteType::Al),
                        dest: Operand::Direct(off),
                    },
                )
            } else {
                Some(
                    Op::BinaryWord {
                        op: OpBinaryOp::Mov,
                        src: Operand::Register(RegisterWordType::Ax),
                        dest: Operand::Direct(off),
                    },
                )
            }
        }
    } else if group == 0xA8 {
        if octet == 0 {
            match iter.next() {
                Some(imm) => Some(
                    Op::BinaryByte {
                        op: OpBinaryOp::Test,
                        src: Operand::ImmByte(imm),
                        dest: Operand::Register(RegisterByteType::Al),
                    },
                ),
                None => None,
            }
        } else if octet == 1 {
            match iter_next_u16(iter) {
                Some(imm) => Some(
                    Op::BinaryWord {
                        op: OpBinaryOp::Test,
                        src: Operand::ImmWord(imm),
                        dest: Operand::Register(RegisterWordType::Ax),
                    },
                ),
                None => None,
            }
        } else if octet == 2 {
            Some(Op::Stos(OpSize::Byte))
        } else if octet == 3 {
            Some(Op::Stos(OpSize::Word))
        } else if octet == 4 {
            Some(Op::Lods(OpSize::Byte))
        } else if octet == 5 {
            Some(Op::Lods(OpSize::Word))
        } else if octet == 6 {
            Some(Op::Scas(OpSize::Byte))
        } else {
            Some(Op::Scas(OpSize::Word))
        }
    } else if group == 0xB0 {
        match iter.next() {
            Some(imm) => Some(
                Op::BinaryByte {
                    op: OpBinaryOp::Mov,
                    src: Operand::ImmByte(imm),
                    dest: Operand::Register(RegisterByteType::from_value(octet).unwrap()),
                },
            ),
            None => None,
        }
    } else if group == 0xB8 {
        match iter_next_u16(iter) {
            Some(imm) => Some(
                Op::BinaryWord {
                    op: OpBinaryOp::Mov,
                    src: Operand::ImmWord(imm),
                    dest: Operand::Register(RegisterWordType::from_value(octet).unwrap()),
                },
            ),
            None => None,
        }
    } else if group == 0xC0 {
        parse_group_c0(first, iter)
    } else if group == 0xC8 {
        if octet == 2 {
            match iter_next_u16(iter) {
                Some(w) => Some(Op::RetInterImm(w)),
                None => None,
            }
        } else if octet == 3 {
            Some(Op::RetInter)
        } else if octet == 4 {
            Some(Op::Int(3))
        } else if octet == 5 {
            match iter.next() {
                Some(n) => Some(Op::Int(n)),
                None => None,
            }
        } else if octet == 6 {
            Some(Op::Nullary(OpNullaryOp::Into))
        } else if octet == 7 {
            Some(Op::Nullary(OpNullaryOp::Iret))
        } else {
            None
        }
    } else if group == 0xD0 {
        parse_group_d0(first, iter)
    } else if group == 0xD8 {
        let second = match iter.next() {
            Some(b) => b,
            None => {
                return None;
            },
        };
        proof {
            lemma_mask_bounds(second);
        }
        let rm = match parse_mod_rm_word(second, iter) {
            Some(m) => m,
            None => {
                return None;
            },
        };
        let esc_id = ((first & 0x7) << 3) + ((second >> 3) & 0x7);
        Some(Op::Esc(esc_id, rm))
    } else if group == 0xE0 {
        let second = match iter.next() {
            Some(b) => b,
            None => {
                return None;
            },
        };
        if octet == 0 {
            Some(Op::CondJmp { op: OpCondJmpOp::Loopne, offset: second as i8 })
        } else if octet == 1 {
            Some(Op::CondJmp { op: OpCondJmpOp::Loope, offset: second as i8 })
        } else if octet == 2 {
            Some(Op::CondJmp { op: OpCondJmpOp::Loop, offset: second as i8 })
        } else if octet == 3 {
            Some(Op::CondJmp { op: OpCondJmpOp::Jcxz, offset: second as i8 })
        } else if octet == 4 {
            Some(Op::InVariable(OpSize::Byte, second))
        } else if octet == 5 {
            Some(Op::InVariable(OpSize::Word, second))
        } else if octet == 6 {
            Some(Op::OutVariable(OpSize::Byte, second))
        } else {
            Some(Op::OutVariable(OpSize::Word, second))
        }
    } else if group == 0xE8 {
        if octet == 0 {
            match iter_next_u16(iter) {
                Some(w) => Some(Op::Call(OpCallType::WithinDirect(w))),
                None => None,
            }
        } else if octet == 1 {
            match iter_next_u16(iter) {
                Some(w) => Some(Op::Jmp(OpCallType::WithinDirect(w))),
                None => None,
            }
        } else if octet == 2 {
            let off = match iter_next_u16(iter) {
                Some(w) => w,
                None => {
                    return None;
                },
            };
            match iter_next_u16(iter) {
                Some(seg) => Some(Op::Jmp(OpCallType::InterDirect(off, seg))),
                None => None,
            }
        } else if octet == 3 {
            match iter.next() {
                Some(b) => Some(Op::Jmp(OpCallType::WithinDirect(b as i8 as i16 as u16))),
                None => None,
            }
        } else if octet == 4 {
            Some(Op::InFixed(OpSize::Byte))
        } else if octet == 5 {
            Some(Op::InFixed(OpSize::Word))
        } else if octet == 6 {
            Some(Op::OutFixed(OpSize::Byte))
        } else {
            Some(Op::OutFixed(OpSize::Word))
        }
    } else if group == 0xF0 {
        parse_group_f0(first, iter)
    } else if group == 0xF8 {
        parse_group_f8(first, iter)
    } else {
        None
    }
}

/// How many displacement bytes a ModR/M byte drags along: two for a direct
/// address or a word displacement, one for a byte displacement, none for a
/// register or a bare based form.
pub open spec fn mod_rm_extra(second: u8) -> int {
    let md = (second >> 6) & 0x03;
    let rm = second & 0x07;
    if md == 0 {
        if rm == 6 {
            2
        } else {
            0
        }
    } else if md == 1 {
        1
    } else if md == 2 {
        2
    } else {
        0
    }
}

/// The instruction length the 8086 encoding mandates, given the opcode byte
/// at the cursor and, for instructions that carry one, the ModR/M byte after
/// it. Unassigned opcodes have no mandated length; the value is
/// meaningless there.
pub open spec fn instr_len(s: Seq<u8>, i: int) -> int {
    let b = s[i];
    let second = s[i + 1];
    let octet = b & 0x07;
    let group = b & 0xf8;
    let sub = (second >> 3) & 0x07;
    if group == 0x00 || group == 0x08 || group == 0x10 || group == 0x18 || group == 0x20 || group
        == 0x28 || group == 0x30 || group == 0x38 {
        if octet <= 3 {
            2 + mod_rm_extra(second)
        } else if octet == 4 {
            2
        } else if octet == 5 {
            3
        } else {
            1
        }
    } else if group == 0x40 || group == 0x48 || group == 0x50 || group == 0x58 || group == 0x90 {
        1
    } else if group == 0x70 || group == 0x78 {
        2
    } else if group == 0x80 {
        if octet <= 3 {
            2 + mod_rm_extra(second) + (if b & 0x03 == 1 {
                2int
            } else {
                1int
            })
        } else {
            2 + mod_rm_extra(second)
        }
    } else if group == 0x88 {
        2 + mod_rm_extra(second)
    } else if group == 0x98 {
        if octet == 2 {
            5
        } else {
            1
        }
    } else if group == 0xA0 {
        if octet <= 3 {
            3
        } else {
            1
        }
    } else if group == 0xA8 {
        if octet == 0 {
            2
        } else if octet == 1 {
            3
        } else {
            1
        }
    } else if group == 0xB0 {
        2
    } else if group == 0xB8 {
        3
    } else if group == 0xC0 {
        if octet == 2 {
            3
        } else if octet == 3 {
            1
        } else if octet == 4 || octet == 5 {
            2 + mod_rm_extra(second)
        } else if octet == 6 {
            3 + mod_rm_extra(second)
        } else {
            4 + mod_rm_extra(second)
        }
    } else if group == 0xC8 {
        if octet == 2 {
            3
        } else if octet == 5 {
            2
        } else {
            1
        }
    } else if group == 0xD0 {
        if octet <= 3 {
            2 + mod_rm_extra(second)
        } else if octet == 4 || octet == 5 {
            2
        } else {
            1
        }
    } else if group == 0xD8 {
        2 + mod_rm_extra(second)
    } else if group == 0xE0 {
        2
    } else if group == 0xE8 {
        if octet <= 1 {
            3
        } else if octet == 2 {
            5
        } else if octet == 3 {
            2
        } else {
            1
        }
    } else if group == 0xF0 {
        if octet == 6 {
            if sub == 0 {
                3 + mod_rm_extra(second)
            } else {
                2 + mod_rm_extra(second)
            }
        } else if octet == 7 {
            if sub == 0 {
                4 + mod_rm_extra(second)
            } else {
                2 + mod_rm_extra(second)
            }
        } else {
            1
        }
    } else {
        if octet <= 5 {
            1
        } else {
            2 + mod_rm_extra(second)
        }
    }
}

/// The low bits of a byte against its low three bits.
proof fn lemma_mask_relations(v: u8)
    by (bit_vector)
    ensures
        v & 0x01 == (v & 0x07) % 2,
        v & 0x03 == (v & 0x07) % 4,
        v & 0x07 < 8,
        (v >> 3) & 0x07 < 8,
{
}

/// A decoded ModR/M byte of byte width consumes exactly its mandated
/// displacement bytes.
proof fn lemma_mod_rm_byte_len(second: u8, s: Seq<u8>, i: int)
    ensures
        parse_mod_rm_byte_spec(second, s, i).0 is Some ==> parse_mod_rm_byte_spec(second, s, i).1
            == i + mod_rm_extra(second),
{
}

/// A decoded ModR/M byte of word width consumes exactly its mandated
/// displacement bytes.
proof fn lemma_mod_rm_word_len(second: u8, s: Seq<u8>, i: int)
    ensures
        parse_mod_rm_word_spec(second, s, i).0 is Some ==> parse_mod_rm_word_spec(second, s, i).1
            == i + mod_rm_extra(second),
{
}

/// Every instruction the decoder accepts occupies exactly the byte count
/// the 8086 encoding mandates for its opcode and addressing form.
#[verifier::rlimit(60)]
pub proof fn lemma_parse_consumes_encoding_len(s: Seq<u8>, i: int)
    ensures
        parse_op_spec(s, i).0 is Some ==> parse_op_spec(s, i).1 == i + instr_len(s, i),
{
    if parse_op_spec(s, i).0 is Some {
        let first = s[i];
        let second = s[i + 1];
        lemma_mask_relations(first);
        lemma_mask_relations(second);
        lemma_mod_rm_byte_len(second, s, i + 2);
        lemma_mod_rm_word_len(second, s, i + 2);
    }
}

/// One decode never consumes more than the bytes the stream holds, and
/// never walks backwards.
pub proof fn lemma_parse_consumed_bounds(s: Seq<u8>, i: int)
    requires
        0 <= i <= s.len(),
    ensures
        i <= parse_op_spec(s, i).1 <= s.len(),
{
}

} // verus!
