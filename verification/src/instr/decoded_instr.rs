use vstd::prelude::*;
use crate::instr::intsr_type::InstrType;
use crate::instr::intsr_type::InstrOpcode;
use crate::instr::intsr_type::InstrOpcode::{
    ADD,SUB,SLL,SLT,SLTU,XOR,SRL,SRA,OR,AND,ADDW,SUBW,SLLW,SRLW,SRAW,MUL,MULH,MULHSU,MULHU,DIV,DIVU,REM,REMU,MULW,DIVW,DIVUW,REMW,REMUW,JALR,LB,LH,LW,LBU,LHU,LWU,LD,ADDI,SLTI,SLTIU,XORI,ORI,ANDI,SLLI,SRLI,SRAI,ADDIW,SLLIW,SRLIW,SRAIW,FENCE,FENCEI,ECALL,EBREAK,MRET,CSRRW,CSRRS,CSRRC,CSRRWI,CSRRSI,CSRRCI,SB,SH,SW,SD,BEQ,BNE,BLT,BGE,BLTU,BGEU,LUI,AUIPC,JAL
};

verus! {

/// Why a raw instruction word was found illegal, with the field value that the
/// diagnostic names.
#[derive(Clone, Copy, Debug, PartialEq, Eq, Structural)]
pub enum IllegalReason {
    /// The word is a legal instruction.
    Legal,
    /// Branch opcode with an unused `funct3`.
    BranchFunct3(u8),
    /// Load opcode with an unused `funct3`.
    LoadFunct3(u8),
    /// `slli` with a nonzero upper `funct7`.
    ShiftLeftImmFunct7(u8),
    /// `srli`/`srai` with an unknown `funct7`.
    ShiftRightImmFunct7(u8),
    /// Fence opcode with an unused `funct3`.
    FenceFunct3(u8),
    /// System opcode, `funct3 == 0`, with an unknown immediate.
    SystemImm(u16),
    /// System opcode with an unused `funct3`.
    SystemFunct3(u8),
    /// `srliw`/`sraiw` with an unknown `funct7`.
    ShiftRightImmWordFunct7(u8),
    /// 32-bit immediate opcode with an unused `funct3`.
    ImmWordFunct3(u8),
    /// Register opcode, `funct3 == 0`, with an unknown `funct7`.
    AddSubFunct7(u8),
    /// Register opcode, `funct3 == 5`, with an unknown `funct7`.
    ShiftRightFunct7(u8),
    /// 32-bit register opcode, `funct3 == 0`, with an unknown `funct7`.
    AddSubWordFunct7(u8),
    /// 32-bit register opcode, `funct3 == 5`, with an unknown `funct7`.
    ShiftRightWordFunct7(u8),
    /// 32-bit register opcode with an unused `funct3`.
    RegWordFunct3(u8),
    /// An opcode that names no instruction format.
    Opcode(u8),
    /// Store opcode with an unused `funct3`.
    StoreFunct3(u8),
}

impl Default for IllegalReason {
    fn default() -> (r: Self)
        ensures
            r == IllegalReason::Legal,
    {
        IllegalReason::Legal
    }
}

/// The fields and classification of one instruction word.
#[derive(Clone, Copy, Debug, PartialEq, Eq, Structural)]
pub struct DecodedInstr {
    pub opcode: u8,
    pub rd: u8,
    pub funct3: u8,
    pub rs1: u8,
    pub rs2: u8,
    pub funct7: u8,
    pub immi: u16,
    pub imms: u16,
    pub immb: u16,
    pub immu: u32,
    pub immj: u32,
    pub shamt: u8,
    pub csr: u16,
    pub zimm: u8,
    pub instr_type: InstrType,
    pub opcode_type: InstrOpcode,
    pub is_ld: bool,
    pub is_st: bool,
    pub is_alu: bool,
    pub is_mul: bool,
    pub is_branch: bool,
    pub is_fence: bool,
    pub is_csr: bool,
    pub csr_we: bool,
    pub csr_re: bool,
    pub is_syscall: bool,
    pub illegale_instr: bool,
    pub msg: IllegalReason,
}

/// The all-zero decoded instruction: every field zero or false, format `R`,
/// operation `ADD`, no illegal reason.
pub open spec fn decoded_default() -> DecodedInstr {
    DecodedInstr {
        opcode: 0,
        rd: 0,
        funct3: 0,
        rs1: 0,
        rs2: 0,
        funct7: 0,
        immi: 0,
        imms: 0,
        immb: 0,
        immu: 0,
        immj: 0,
        shamt: 0,
        csr: 0,
        zimm: 0,
        instr_type: InstrType::R,
        opcode_type: InstrOpcode::ADD,
        is_ld: false,
        is_st: false,
        is_alu: false,
        is_mul: false,
        is_branch: false,
        is_fence: false,
        is_csr: false,
        csr_we: false,
        csr_re: false,
        is_syscall: false,
        illegale_instr: false,
        msg: IllegalReason::Legal,
    }
}

impl Default for DecodedInstr {
    fn default() -> (r: Self)
        ensures
            r == decoded_default(),
    {
        DecodedInstr {
            opcode: 0,
            rd: 0,
            funct3: 0,
            rs1: 0,
            rs2: 0,
            funct7: 0,
            immi: 0,
            imms: 0,
            immb: 0,
            immu: 0,
            immj: 0,
            shamt: 0,
            csr: 0,
            zimm: 0,
            instr_type: InstrType::R,
            opcode_type: InstrOpcode::ADD,
            is_ld: false,
            is_st: false,
            is_alu: false,
            is_mul: false,
            is_branch: false,
            is_fence: false,
            is_csr: false,
            csr_we: false,
            csr_re: false,
            is_syscall: false,
            illegale_instr: false,
            msg: IllegalReason::Legal,
        }
    }
}

// ---------------------------------------------------------------------------
// The bit fields of a raw 32-bit instruction word.

/// `raw[6:0]`
pub open spec fn field_opcode(raw: u32) -> u8 {
    (raw & 0x7f) as u8
}

/// `raw[11:7]`
pub open spec fn field_rd(raw: u32) -> u8 {
    ((raw >> 7u32) & 0x1f) as u8
}

/// `raw[14:12]`
pub open spec fn field_funct3(raw: u32) -> u8 {
    ((raw >> 12u32) & 0x7) as u8
}

/// `raw[19:15]`
pub open spec fn field_rs1(raw: u32) -> u8 {
    ((raw >> 15u32) & 0x1f) as u8
}

/// `raw[24:20]`
pub open spec fn field_rs2(raw: u32) -> u8 {
    ((raw >> 20u32) & 0x1f) as u8
}

/// `raw[31:25]`
pub open spec fn field_funct7(raw: u32) -> u8 {
    ((raw >> 25u32) & 0x7f) as u8
}

/// The I-format immediate `raw[31:20]`, unextended.
pub open spec fn field_immi(raw: u32) -> u16 {
    ((raw >> 20u32) & 0xfff) as u16
}

/// The S-format immediate `raw[31:25] ++ raw[11:7]`, unextended.
pub open spec fn field_imms(raw: u32) -> u16 {
    ((((raw >> 25u32) & 0x7f) << 5u32) | ((raw >> 7u32) & 0x1f)) as u16
}

/// The B-format immediate `raw[31] ++ raw[7] ++ raw[30:25] ++ raw[11:8] ++ 0`.
pub open spec fn field_immb(raw: u32) -> u16 {
    ((((raw >> 31u32) & 0x1) << 12u32) | (((raw >> 7u32) & 0x1) << 11u32) | (((raw
        >> 25u32) & 0x3f) << 5u32) | (((raw >> 8u32) & 0xf) << 1u32)) as u16
}

/// The U-format immediate: `raw[31:12]` in place, low twelve bits zero.
pub open spec fn field_immu(raw: u32) -> u32 {
    raw & 0xffff_f000
}

/// The J-format immediate `raw[31] ++ raw[19:12] ++ raw[20] ++ raw[30:21] ++ 0`.
pub open spec fn field_immj(raw: u32) -> u32 {
    (((raw >> 31u32) & 0x1) << 20u32) | (((raw >> 12u32) & 0xff) << 12u32) | (((raw >> 20u32)
        & 0x1) << 11u32) | (((raw >> 21u32) & 0x3ff) << 1u32)
}

/// `raw[25:20]`
pub open spec fn field_shamt(raw: u32) -> u8 {
    ((raw >> 20u32) & 0x3f) as u8
}

/// `raw[31:20]`
pub open spec fn field_csr(raw: u32) -> u16 {
    ((raw >> 20u32) & 0xfff) as u16
}

/// `raw[19:15]`
pub open spec fn field_zimm(raw: u32) -> u8 {
    ((raw >> 15u32) & 0x1f) as u8
}

// ---------------------------------------------------------------------------
// The decode tables.

/// The format named by a major opcode, `None` for an opcode of no format.
pub open spec fn format_of(opcode: u8) -> Option<InstrType> {
    if opcode == 0b0110111 || opcode == 0b0010111 {
        Some(InstrType::U)
    } else if opcode == 0b1101111 {
        Some(InstrType::J)
    } else if opcode == 0b1100011 {
        Some(InstrType::B)
    } else if opcode == 0b1100111 || opcode == 0b0000011 || opcode == 0b0010011 || opcode
        == 0b0001111 || opcode == 0b1110011 || opcode == 0b0011011 {
        Some(InstrType::I)
    } else if opcode == 0b0100011 {
        Some(InstrType::S)
    } else if opcode == 0b0110011 || opcode == 0b0111011 {
        Some(InstrType::R)
    } else {
        None
    }
}

/// The format recorded for an opcode: its format, or `R` when it has none.
pub open spec fn decoded_format(opcode: u8) -> InstrType {
    match format_of(opcode) {
        Some(t) => t,
        None => InstrType::R,
    }
}

/// The operation of an instruction and, when it is illegal, why; an illegal
/// instruction is recorded as `ADD`.
pub open spec fn operation_of(opcode: u8, funct3: u8, funct7: u8, immi: u16) -> (
    InstrOpcode,
    IllegalReason,
) {
    let ok = IllegalReason::Legal;
    match decoded_format(opcode) {
        InstrType::U => if opcode == 0b0110111 {
            (LUI, ok)
        } else {
            (AUIPC, ok)
        },
        InstrType::J => (JAL, ok),
        InstrType::B => if funct3 == 0 {
            (BEQ, ok)
        } else if funct3 == 1 {
            (BNE, ok)
        } else if funct3 == 4 {
            (BLT, ok)
        } else if funct3 == 5 {
            (BGE, ok)
        } else if funct3 == 6 {
            (BLTU, ok)
        } else if funct3 == 7 {
            (BGEU, ok)
        } else {
            (ADD, IllegalReason::BranchFunct3(funct3))
        },
        InstrType::I => if opcode == 0b1100111 {
            (JALR, ok)
        } else if opcode == 0b0000011 {
            if funct3 == 0 {
                (LB, ok)
            } else if funct3 == 4 {
                (LBU, ok)
            } else if funct3 == 1 {
                (LH, ok)
            } else if funct3 == 5 {
                (LHU, ok)
            } else if funct3 == 2 {
                (LW, ok)
            } else if funct3 == 6 {
                (LWU, ok)
            } else if funct3 == 3 {
                (LD, ok)
            } else {
                (ADD, IllegalReason::LoadFunct3(funct3))
            }
        } else if opcode == 0b0010011 {
            if funct3 == 0 {
                (ADDI, ok)
            } else if funct3 == 2 {
                (SLTI, ok)
            } else if funct3 == 3 {
                (SLTIU, ok)
            } else if funct3 == 4 {
                (XORI, ok)
            } else if funct3 == 6 {
                (ORI, ok)
            } else if funct3 == 7 {
                (ANDI, ok)
            } else if funct3 == 1 {
                if funct7 >> 1u8 == 0 {
                    (SLLI, ok)
                } else {
                    (ADD, IllegalReason::ShiftLeftImmFunct7(funct7))
                }
            } else {
                if funct7 >> 1u8 == 0 {
                    (SRLI, ok)
                } else if funct7 >> 1u8 == 0b010000 {
                    (SRAI, ok)
                } else {
                    (ADD, IllegalReason::ShiftRightImmFunct7(funct7))
                }
            }
        } else if opcode == 0b0001111 {
            if funct3 == 0 {
                (FENCE, ok)
            } else if funct3 == 1 {
                (FENCEI, ok)
            } else {
                (ADD, IllegalReason::FenceFunct3(funct3))
            }
        } else if opcode == 0b1110011 {
            if funct3 == 0 {
                if immi == 0 {
                    (ECALL, ok)
                } else if immi == 1 {
                    (EBREAK, ok)
                } else if immi == 0b001100000010 {
                    (MRET, ok)
                } else {
                    (ADD, IllegalReason::SystemImm(immi))
                }
            } else if funct3 == 1 {
                (CSRRW, ok)
            } else if funct3 == 2 {
                (CSRRS, ok)
            } else if funct3 == 3 {
                (CSRRC, ok)
            } else if funct3 == 5 {
                (CSRRWI, ok)
            } else if funct3 == 6 {
                (CSRRSI, ok)
            } else if funct3 == 7 {
                (CSRRCI, ok)
            } else {
                (ADD, IllegalReason::SystemFunct3(funct3))
            }
        } else {
            // opcode 0b0011011
            if funct3 == 0 {
                (ADDIW, ok)
            } else if funct3 == 1 {
                (SLLIW, ok)
            } else if funct3 == 5 {
                if funct7 >> 1u8 == 0 {
                    (SRLIW, ok)
                } else if funct7 >> 1u8 == 0b010000 {
                    (SRAIW, ok)
                } else {
                    (ADD, IllegalReason::ShiftRightImmWordFunct7(funct7))
                }
            } else {
                (ADD, IllegalReason::ImmWordFunct3(funct3))
            }
        },
        InstrType::R => if opcode == 0b0110011 {
            if funct3 == 0 {
                if funct7 == 0 {
                    (ADD, ok)
                } else if funct7 == 0b0100000 {
                    (SUB, ok)
                } else if funct7 == 1 {
                    (MUL, ok)
                } else {
                    (ADD, IllegalReason::AddSubFunct7(funct7))
                }
            } else if funct3 == 1 {
                (SLL, ok)
            } else if funct3 == 2 {
                (SLT, ok)
            } else if funct3 == 3 {
                (SLTU, ok)
            } else if funct3 == 4 {
                (XOR, ok)
            } else if funct3 == 5 {
                if funct7 >> 1u8 == 0 {
                    (SRL, ok)
                } else if funct7 >> 1u8 == 0b010000 {
                    (SRA, ok)
                } else {
                    (ADD, IllegalReason::ShiftRightFunct7(funct7))
                }
            } else if funct3 == 6 {
                (OR, ok)
            } else {
                (AND, ok)
            }
        } else if opcode == 0b0111011 {
            if funct3 == 0 {
                if funct7 == 0 {
                    (ADDW, ok)
                } else if funct7 == 0b0100000 {
                    (SUBW, ok)
                } else if funct7 == 1 {
                    (MULW, ok)
                } else {
                    (ADD, IllegalReason::AddSubWordFunct7(funct7))
                }
            } else if funct3 == 1 {
                (SLLW, ok)
            } else if funct3 == 5 {
                if funct7 >> 1u8 == 0 {
                    (SRLW, ok)
                } else if funct7 >> 1u8 == 0b010000 {
                    (SRAW, ok)
                } else {
                    (ADD, IllegalReason::ShiftRightWordFunct7(funct7))
                }
            } else {
                (ADD, IllegalReason::RegWordFunct3(funct3))
            }
        } else {
            (ADD, IllegalReason::Opcode(opcode))
        },
        InstrType::S => if funct3 == 0 {
            (SB, ok)
        } else if funct3 == 1 {
            (SH, ok)
        } else if funct3 == 2 {
            (SW, ok)
        } else if funct3 == 3 {
            (SD, ok)
        } else {
            (ADD, IllegalReason::StoreFunct3(funct3))
        },
    }
}

/// The loads.
pub open spec fn is_load_op(op: InstrOpcode) -> bool {
    op == LB || op == LBU || op == LH || op == LHU || op == LW || op == LWU || op == LD
}

/// The stores.
pub open spec fn is_store_op(op: InstrOpcode) -> bool {
    op == SB || op == SH || op == SW || op == SD
}

/// The operations the arithmetic-logic unit performs.
pub open spec fn is_alu_op(op: InstrOpcode) -> bool {
    op == ADD || op == SUB || op == SLL || op == SLT || op == SLTU || op == XOR || op == SRL
        || op == SRA || op == OR || op == AND || op == ADDW || op == SUBW || op == SLLW || op
        == SRLW || op == SRAW || op == ADDI || op == SLTI || op == SLTIU || op == XORI || op
        == ORI || op == ANDI || op == SLLI || op == SRLI || op == SRAI || op == ADDIW || op
        == SLLIW || op == SRLIW || op == SRAIW || op == AUIPC || op == LUI
}

/// The 64-bit multiply and divide operations that the decoder marks as such.
pub open spec fn is_mul_op(op: InstrOpcode) -> bool {
    op == MUL || op == MULH || op == MULHSU || op == MULHU || op == DIV || op == DIVU || op
        == REM || op == REMU
}

/// The control-status-register operations.
pub open spec fn is_csr_op(op: InstrOpcode) -> bool {
    op == CSRRW || op == CSRRS || op == CSRRC || op == CSRRWI || op == CSRRSI || op == CSRRCI
}

/// The environment and return operations.
pub open spec fn is_syscall_op(op: InstrOpcode) -> bool {
    op == ECALL || op == EBREAK || op == MRET
}

/// The branch and jump operations.
pub open spec fn is_branch_op(op: InstrOpcode) -> bool {
    op == JAL || op == JALR || op == BEQ || op == BNE || op == BLT || op == BGE || op == BLTU
        || op == BGEU
}

/// Whether `op` is one of the loads.
pub fn load_op(op: InstrOpcode) -> (r: bool)
    ensures
        r == is_load_op(op),
{
    op == LB || op == LBU || op == LH || op == LHU || op == LW || op == LWU || op == LD
}

/// Whether `op` is one of the stores.
pub fn store_op(op: InstrOpcode) -> (r: bool)
    ensures
        r == is_store_op(op),
{
    op == SB || op == SH || op == SW || op == SD
}

/// Whether `op` is an operation of the arithmetic-logic unit.
pub fn alu_op(op: InstrOpcode) -> (r: bool)
    ensures
        r == is_alu_op(op),
{
    op == ADD || op == SUB || op == SLL || op == SLT || op == SLTU || op == XOR || op == SRL
        || op == SRA || op == OR || op == AND || op == ADDW || op == SUBW || op == SLLW || op
        == SRLW || op == SRAW || op == ADDI || op == SLTI || op == SLTIU || op == XORI || op
        == ORI || op == ANDI || op == SLLI || op == SRLI || op == SRAI || op == ADDIW || op
        == SLLIW || op == SRLIW || op == SRAIW || op == AUIPC || op == LUI
}

/// Whether `op` is a control-status-register operation.
pub fn csr_op(op: InstrOpcode) -> (r: bool)
    ensures
        r == is_csr_op(op),
{
    op == CSRRW || op == CSRRS || op == CSRRC || op == CSRRWI || op == CSRRSI || op == CSRRCI
}

/// Whether `op` is a branch or jump.
pub fn branch_op(op: InstrOpcode) -> (r: bool)
    ensures
        r == is_branch_op(op),
{
    op == JAL || op == JALR || op == BEQ || op == BNE || op == BLT || op == BGE || op == BLTU
        || op == BGEU
}

/// Whether a control-status-register instruction reads and writes the register.
pub open spec fn csr_access(op: InstrOpcode, rd: u8, rs1: u8) -> (bool, bool) {
    if op == CSRRW || op == CSRRWI {
        (rd != 0, true)
    } else if op == CSRRC || op == CSRRCI || op == CSRRS || op == CSRRSI {
        (true, rs1 != 0)
    } else {
        (false, false)
    }
}

/// The decoding of a raw instruction word.
pub open spec fn decode_spec(raw: u32) -> DecodedInstr {
    let opcode = field_opcode(raw);
    let funct3 = field_funct3(raw);
    let funct7 = field_funct7(raw);
    let rd = field_rd(raw);
    let rs1 = field_rs1(raw);
    let immi = field_immi(raw);
    let t = decoded_format(opcode);
    let (op, why) = operation_of(opcode, funct3, funct7, immi);
    let (re, we) = csr_access(op, rd, rs1);
    DecodedInstr {
        opcode,
        rd,
        funct3,
        rs1,
        rs2: field_rs2(raw),
        funct7,
        immi,
        imms: field_imms(raw),
        immb: field_immb(raw),
        immu: field_immu(raw),
        immj: field_immj(raw),
        shamt: field_shamt(raw),
        csr: field_csr(raw),
        zimm: field_zimm(raw),
        instr_type: t,
        opcode_type: op,
        is_ld: is_load_op(op),
        is_st: t == InstrType::S,
        is_alu: is_alu_op(op),
        is_mul: is_mul_op(op),
        is_branch: t == InstrType::B || t == InstrType::J || op == JALR,
        is_fence: op == FENCE || op == FENCEI,
        is_csr: is_csr_op(op),
        csr_we: we,
        csr_re: re,
        is_syscall: is_syscall_op(op),
        illegale_instr: why != IllegalReason::Legal,
        msg: why,
    }
}

/// The RV64I (with Zicsr and the fences) encodings this decoder accepts, read from
/// the operation's side: the major opcode, `funct3`, `funct7` (its upper six bits for
/// the shifts by a six-bit amount) and, for the environment instructions, the
/// immediate that an instruction word of operation `op` carries. Of the multiply
/// extension only `MUL` and `MULW` are recognised; every other operation of it, and
/// a register-register word whose `funct3` is not zero, is taken for its base
/// operation whatever its `funct7`.
pub open spec fn encodes(op: InstrOpcode, opcode: u8, funct3: u8, funct7: u8, immi: u16) -> bool {
    match op {
        LUI => opcode == 0x37,
        AUIPC => opcode == 0x17,
        JAL => opcode == 0x6f,
        JALR => opcode == 0x67,
        BEQ => opcode == 0x63 && funct3 == 0,
        BNE => opcode == 0x63 && funct3 == 1,
        BLT => opcode == 0x63 && funct3 == 4,
        BGE => opcode == 0x63 && funct3 == 5,
        BLTU => opcode == 0x63 && funct3 == 6,
        BGEU => opcode == 0x63 && funct3 == 7,
        LB => opcode == 0x03 && funct3 == 0,
        LH => opcode == 0x03 && funct3 == 1,
        LW => opcode == 0x03 && funct3 == 2,
        LD => opcode == 0x03 && funct3 == 3,
        LBU => opcode == 0x03 && funct3 == 4,
        LHU => opcode == 0x03 && funct3 == 5,
        LWU => opcode == 0x03 && funct3 == 6,
        SB => opcode == 0x23 && funct3 == 0,
        SH => opcode == 0x23 && funct3 == 1,
        SW => opcode == 0x23 && funct3 == 2,
        SD => opcode == 0x23 && funct3 == 3,
        ADDI => opcode == 0x13 && funct3 == 0,
        SLTI => opcode == 0x13 && funct3 == 2,
        SLTIU => opcode == 0x13 && funct3 == 3,
        XORI => opcode == 0x13 && funct3 == 4,
        ORI => opcode == 0x13 && funct3 == 6,
        ANDI => opcode == 0x13 && funct3 == 7,
        SLLI => opcode == 0x13 && funct3 == 1 && funct7 >> 1u8 == 0,
        SRLI => opcode == 0x13 && funct3 == 5 && funct7 >> 1u8 == 0,
        SRAI => opcode == 0x13 && funct3 == 5 && funct7 >> 1u8 == 0x10,
        ADDIW => opcode == 0x1b && funct3 == 0,
        SLLIW => opcode == 0x1b && funct3 == 1,
        SRLIW => opcode == 0x1b && funct3 == 5 && funct7 >> 1u8 == 0,
        SRAIW => opcode == 0x1b && funct3 == 5 && funct7 >> 1u8 == 0x10,
        ADD => opcode == 0x33 && funct3 == 0 && funct7 == 0,
        SUB => opcode == 0x33 && funct3 == 0 && funct7 == 0x20,
        MUL => opcode == 0x33 && funct3 == 0 && funct7 == 1,
        SLL => opcode == 0x33 && funct3 == 1,
        SLT => opcode == 0x33 && funct3 == 2,
        SLTU => opcode == 0x33 && funct3 == 3,
        XOR => opcode == 0x33 && funct3 == 4,
        SRL => opcode == 0x33 && funct3 == 5 && funct7 >> 1u8 == 0,
        SRA => opcode == 0x33 && funct3 == 5 && funct7 >> 1u8 == 0x10,
        OR => opcode == 0x33 && funct3 == 6,
        AND => opcode == 0x33 && funct3 == 7,
        ADDW => opcode == 0x3b && funct3 == 0 && funct7 == 0,
        SUBW => opcode == 0x3b && funct3 == 0 && funct7 == 0x20,
        MULW => opcode == 0x3b && funct3 == 0 && funct7 == 1,
        SLLW => opcode == 0x3b && funct3 == 1,
        SRLW => opcode == 0x3b && funct3 == 5 && funct7 >> 1u8 == 0,
        SRAW => opcode == 0x3b && funct3 == 5 && funct7 >> 1u8 == 0x10,
        FENCE => opcode == 0x0f && funct3 == 0,
        FENCEI => opcode == 0x0f && funct3 == 1,
        ECALL => opcode == 0x73 && funct3 == 0 && immi == 0,
        EBREAK => opcode == 0x73 && funct3 == 0 && immi == 1,
        MRET => opcode == 0x73 && funct3 == 0 && immi == 0x302,
        CSRRW => opcode == 0x73 && funct3 == 1,
        CSRRS => opcode == 0x73 && funct3 == 2,
        CSRRC => opcode == 0x73 && funct3 == 3,
        CSRRWI => opcode == 0x73 && funct3 == 5,
        CSRRSI => opcode == 0x73 && funct3 == 6,
        CSRRCI => opcode == 0x73 && funct3 == 7,
        _ => false,
    }
}

/// An illegal word is recorded as `ADD`, with the reason naming the field that
/// breaks the encoding for its opcode and that field's value; a word whose major
/// opcode names no format is illegal for its opcode.
pub proof fn lemma_decode_illegal(raw: u32)
    ensures
        ({
            let d = decode_spec(raw);
            let o = d.opcode;
            let f3 = d.funct3;
            let f7 = d.funct7;
            &&& d.illegale_instr ==> d.opcode_type == ADD
            &&& d.illegale_instr ==> d.msg == (if o == 0x63 {
                IllegalReason::BranchFunct3(f3)
            } else if o == 0x03 {
                IllegalReason::LoadFunct3(f3)
            } else if o == 0x23 {
                IllegalReason::StoreFunct3(f3)
            } else if o == 0x0f {
                IllegalReason::FenceFunct3(f3)
            } else if o == 0x73 {
                if f3 == 0 { IllegalReason::SystemImm(d.immi) } else { IllegalReason::SystemFunct3(f3) }
            } else if o == 0x13 {
                if f3 == 1 { IllegalReason::ShiftLeftImmFunct7(f7) } else { IllegalReason::ShiftRightImmFunct7(f7) }
            } else if o == 0x1b {
                if f3 == 5 { IllegalReason::ShiftRightImmWordFunct7(f7) } else { IllegalReason::ImmWordFunct3(f3) }
            } else if o == 0x33 {
                if f3 == 0 { IllegalReason::AddSubFunct7(f7) } else { IllegalReason::ShiftRightFunct7(f7) }
            } else if o == 0x3b {
                if f3 == 0 {
                    IllegalReason::AddSubWordFunct7(f7)
                } else if f3 == 5 {
                    IllegalReason::ShiftRightWordFunct7(f7)
                } else {
                    IllegalReason::RegWordFunct3(f3)
                }
            } else {
                IllegalReason::Opcode(o)
            })
            &&& !(o == 0x37 || o == 0x17 || o == 0x6f || o == 0x63 || o == 0x67 || o == 0x03 || o == 0x13
                || o == 0x0f || o == 0x73 || o == 0x1b || o == 0x23 || o == 0x33 || o == 0x3b)
                ==> d.illegale_instr
            &&& !d.illegale_instr ==> d.msg == IllegalReason::Legal
        }),
{
}

/// Where each field of a decoded word comes from, as arithmetic on the word: the
/// opcode is its low seven bits, `rd` the five above them, then `funct3`, `rs1`
/// (also the five-bit immediate), `rs2`, and `funct7` on top; the I immediate and
/// the register number of a register instruction are the top twelve bits and the
/// shift amount the low six of them; the S, B, U and J immediates gather their
/// bits as the base ISA lays them out.
pub proof fn lemma_decode_fields(raw: u32)
    ensures
        ({
            let d = decode_spec(raw);
            let x = raw as int;
            &&& d.opcode == x % 128
            &&& d.rd == (x / 128) % 32
            &&& d.funct3 == (x / 4096) % 8
            &&& d.rs1 == (x / 32768) % 32
            &&& d.zimm == d.rs1
            &&& d.rs2 == (x / 0x10_0000) % 32
            &&& d.funct7 == x / 0x200_0000
            &&& d.immi == x / 0x10_0000
            &&& d.csr == d.immi
            &&& d.shamt == (x / 0x10_0000) % 64
            &&& d.imms == (x / 0x200_0000) * 32 + (x / 128) % 32
            &&& d.immb == (x / 0x8000_0000) * 0x1000 + ((x / 128) % 2) * 0x800 + ((x / 0x200_0000) % 64)
                * 32 + ((x / 256) % 16) * 2
            &&& d.immu == x - x % 4096
            &&& d.immj == (x / 0x8000_0000) * 0x10_0000 + ((x / 4096) % 256) * 4096 + ((x / 0x10_0000)
                % 2) * 0x800 + ((x / 0x20_0000) % 1024) * 2
        }),
{
    let fo = field_opcode(raw);
    let frd = field_rd(raw);
    let f3 = field_funct3(raw);
    let frs1 = field_rs1(raw);
    let frs2 = field_rs2(raw);
    let f7 = field_funct7(raw);
    let fi = field_immi(raw);
    let fsh = field_shamt(raw);
    let fs = field_imms(raw);
    let fb = field_immb(raw);
    let fu = field_immu(raw);
    let fj = field_immj(raw);
    assert({
        &&& fo as u32 == raw % 128
        &&& frd as u32 == (raw / 128) % 32
        &&& f3 as u32 == (raw / 4096) % 8
        &&& frs1 as u32 == (raw / 32768) % 32
        &&& frs2 as u32 == (raw / 0x10_0000) % 32
        &&& f7 as u32 == raw / 0x200_0000
        &&& fi as u32 == raw / 0x10_0000
        &&& fsh as u32 == (raw / 0x10_0000) % 64
        &&& fs as u32 == (raw / 0x200_0000) * 32 + (raw / 128) % 32
        &&& fb as u32 == (raw / 0x8000_0000) * 0x1000 + ((raw / 128) % 2) * 0x800 + ((raw / 0x200_0000)
            % 64) * 32 + ((raw / 256) % 16) * 2
        &&& fu == raw - raw % 4096
        &&& fj == (raw / 0x8000_0000) * 0x10_0000 + ((raw / 4096) % 256) * 4096 + ((raw / 0x10_0000)
            % 2) * 0x800 + ((raw / 0x20_0000) % 1024) * 2
    }) by (bit_vector)
        requires
            fo == (raw & 0x7f) as u8,
            frd == ((raw >> 7u32) & 0x1f) as u8,
            f3 == ((raw >> 12u32) & 0x7) as u8,
            frs1 == ((raw >> 15u32) & 0x1f) as u8,
            frs2 == ((raw >> 20u32) & 0x1f) as u8,
            f7 == ((raw >> 25u32) & 0x7f) as u8,
            fi == ((raw >> 20u32) & 0xfff) as u16,
            fsh == ((raw >> 20u32) & 0x3f) as u8,
            fs == ((((raw >> 25u32) & 0x7f) << 5u32) | ((raw >> 7u32) & 0x1f)) as u16,
            fb == ((((raw >> 31u32) & 0x1) << 12u32) | (((raw >> 7u32) & 0x1) << 11u32) | (((raw
                >> 25u32) & 0x3f) << 5u32) | (((raw >> 8u32) & 0xf) << 1u32)) as u16,
            fu == raw & 0xffff_f000,
            fj == (((raw >> 31u32) & 0x1) << 20u32) | (((raw >> 12u32) & 0xff) << 12u32) | (((raw
                >> 20u32) & 0x1) << 11u32) | (((raw >> 21u32) & 0x3ff) << 1u32),
    ;
}

/// The decoder follows the encoding table both ways: a word that carries the
/// encoding of an operation decodes, legally, to that operation; and a word that
/// decodes legally carries the encoding of the operation it decodes to.
pub proof fn lemma_decode_table(raw: u32, op: InstrOpcode)
    ensures
        ({
            let d = decode_spec(raw);
            &&& encodes(op, d.opcode, d.funct3, d.funct7, d.immi) ==> d.opcode_type == op
                && !d.illegale_instr
            &&& !d.illegale_instr ==> encodes(d.opcode_type, d.opcode, d.funct3, d.funct7, d.immi)
        }),
{
    assert(field_funct3(raw) < 8) by (bit_vector);
}

/// The format and the unit classes follow from the word's fields: the format from
/// the major opcode; loads, fences and environment instructions are the legal
/// words of their opcodes; stores and branches are the words of theirs; the
/// register instructions are the system words whose `funct3` is 1, 2, 3, 5, 6 or 7;
/// the multiply-divide unit takes only `MUL`; and an illegal word, recorded as
/// `ADD`, goes to the arithmetic unit with every other arithmetic word but `MULW`.
/// A register write reads the register unless `rd` is zero; a set or clear reads
/// it always and writes it unless its source register (or immediate) is zero.
pub proof fn lemma_decode_classes(raw: u32)
    ensures
        ({
            let d = decode_spec(raw);
            let o = d.opcode;
            let legal = !d.illegale_instr;
            &&& d.instr_type == (if o == 0x37 || o == 0x17 {
                InstrType::U
            } else if o == 0x6f {
                InstrType::J
            } else if o == 0x63 {
                InstrType::B
            } else if o == 0x67 || o == 0x03 || o == 0x13 || o == 0x0f || o == 0x73 || o == 0x1b {
                InstrType::I
            } else if o == 0x23 {
                InstrType::S
            } else {
                InstrType::R
            })
            &&& d.is_ld == (o == 0x03 && legal)
            &&& d.is_st == (o == 0x23)
            &&& d.is_branch == (o == 0x63 || o == 0x6f || o == 0x67)
            &&& d.is_fence == (o == 0x0f && legal)
            &&& d.is_syscall == (o == 0x73 && d.funct3 == 0 && legal)
            &&& d.is_csr == (o == 0x73 && (d.funct3 == 1 || d.funct3 == 2 || d.funct3 == 3 || d.funct3
                == 5 || d.funct3 == 6 || d.funct3 == 7))
            &&& d.is_mul == (o == 0x33 && d.funct3 == 0 && d.funct7 == 1)
            &&& d.is_alu == (!legal || o == 0x37 || o == 0x17 || o == 0x13 || o == 0x1b || (o == 0x33
                || o == 0x3b) && !(d.funct3 == 0 && d.funct7 == 1))
            &&& d.is_csr ==> (d.funct3 == 1 || d.funct3 == 5 ==> d.csr_re == (d.rd != 0) && d.csr_we)
            &&& d.is_csr ==> (d.funct3 != 1 && d.funct3 != 5 ==> d.csr_re && d.csr_we == (d.rs1 != 0))
            &&& !d.is_csr ==> !d.csr_re && !d.csr_we
        }),
{
}

fn decode_format(opcode: u8) -> (r: InstrType)
    ensures
        r == decoded_format(opcode),
{
    match opcode {
        0b0110111 | 0b0010111 => InstrType::U,
        0b1101111 => InstrType::J,
        0b1100011 => InstrType::B,
        0b1100111 | 0b0000011 | 0b0010011 | 0b0001111 | 0b1110011 | 0b0011011 => InstrType::I,
        0b0100011 => InstrType::S,
        0b0110011 | 0b0111011 => InstrType::R,
        _ => InstrType::R,
    }
}

#[verifier::rlimit(40)]
fn decode_operation(t: InstrType, opcode: u8, funct3: u8, funct7: u8, immi: u16) -> (r: (
    InstrOpcode,
    IllegalReason,
))
    requires
        t == decoded_format(opcode),
    ensures
        r == operation_of(opcode, funct3, funct7, immi),
{
    let ok = IllegalReason::Legal;
    match t {
        InstrType::U => {
            if opcode == 0b0110111 {
                (LUI, ok)
            } else {
                (AUIPC, ok)
            }
        },
        InstrType::J => (JAL, ok),
        InstrType::B => match funct3 {
            0b000 => (BEQ, ok),
            0b001 => (BNE, ok),
            0b100 => (BLT, ok),
            0b101 => (BGE, ok),
            0b110 => (BLTU, ok),
            0b111 => (BGEU, ok),
            _ => (ADD, IllegalReason::BranchFunct3(funct3)),
        },
        InstrType::I => {
            if opcode == 0b1100111 {
                (JALR, ok)
            } else if opcode == 0b0000011 {
                match funct3 {
                    0b000 => (LB, ok),
                    0b100 => (LBU, ok),
                    0b001 => (LH, ok),
                    0b101 => (LHU, ok),
                    0b010 => (LW, ok),
                    0b110 => (LWU, ok),
                    0b011 => (LD, ok),
                    _ => (ADD, IllegalReason::LoadFunct3(funct3)),
                }
            } else if opcode == 0b0010011 {
                match funct3 {
                    0b000 => (ADDI, ok),
                    0b010 => (SLTI, ok),
                    0b011 => (SLTIU, ok),
                    0b100 => (XORI, ok),
                    0b110 => (ORI, ok),
                    0b111 => (ANDI, ok),
                    0b001 => {
                        if funct7 >> 1u8 == 0 {
                            (SLLI, ok)
                        } else {
                            (ADD, IllegalReason::ShiftLeftImmFunct7(funct7))
                        }
                    },
                    _ => {
                        if funct7 >> 1u8 == 0 {
                            (SRLI, ok)
                        } else if funct7 >> 1u8 == 0b010000 {
                            (SRAI, ok)
                        } else {
                            (ADD, IllegalReason::ShiftRightImmFunct7(funct7))
                        }
                    },
                }
            } else if opcode == 0b0001111 {
                match funct3 {
                    0b000 => (FENCE, ok),
                    0b001 => (FENCEI, ok),
                    _ => (ADD, IllegalReason::FenceFunct3(funct3)),
                }
            } else if opcode == 0b1110011 {
                match funct3 {
                    0b000 => {
                        if immi == 0 {
                            (ECALL, ok)
                        } else if immi == 1 {
                            (EBREAK, ok)
                        } else if immi == 0b001100000010 {
                            (MRET, ok)
                        } else {
                            (ADD, IllegalReason::SystemImm(immi))
                        }
                    },
                    0b001 => (CSRRW, ok),
                    0b010 => (CSRRS, ok),
                    0b011 => (CSRRC, ok),
                    0b101 => (CSRRWI, ok),
                    0b110 => (CSRRSI, ok),
                    0b111 => (CSRRCI, ok),
                    _ => (ADD, IllegalReason::SystemFunct3(funct3)),
                }
            } else {
                match funct3 {
                    0b000 => (ADDIW, ok),
                    0b001 => (SLLIW, ok),
                    0b101 => {
                        if funct7 >> 1u8 == 0 {
                            (SRLIW, ok)
                        } else if funct7 >> 1u8 == 0b010000 {
                            (SRAIW, ok)
                        } else {
                            (ADD, IllegalReason::ShiftRightImmWordFunct7(funct7))
                        }
                    },
                    _ => (ADD, IllegalReason::ImmWordFunct3(funct3)),
                }
            }
        },
        InstrType::R => {
            if opcode == 0b0110011 {
                match funct3 {
                    0b000 => {
                        if funct7 == 0 {
                            (ADD, ok)
                        } else if funct7 == 0b0100000 {
                            (SUB, ok)
                        } else if funct7 == 1 {
                            (MUL, ok)
                        } else {
                            (ADD, IllegalReason::AddSubFunct7(funct7))
                        }
                    },
                    0b001 => (SLL, ok),
                    0b010 => (SLT, ok),
                    0b011 => (SLTU, ok),
                    0b100 => (XOR, ok),
                    0b101 => {
                        if funct7 >> 1u8 == 0 {
                            (SRL, ok)
                        } else if funct7 >> 1u8 == 0b010000 {
                            (SRA, ok)
                        } else {
                            (ADD, IllegalReason::ShiftRightFunct7(funct7))
                        }
                    },
                    0b110 => (OR, ok),
                    _ => (AND, ok),
                }
            } else if opcode == 0b0111011 {
                match funct3 {
                    0b000 => {
                        if funct7 == 0 {
                            (ADDW, ok)
                        } else if funct7 == 0b0100000 {
                            (SUBW, ok)
                        } else if funct7 == 1 {
                            (MULW, ok)
                        } else {
                            (ADD, IllegalReason::AddSubWordFunct7(funct7))
                        }
                    },
                    0b001 => (SLLW, ok),
                    0b101 => {
                        if funct7 >> 1u8 == 0 {
                            (SRLW, ok)
                        } else if funct7 >> 1u8 == 0b010000 {
                            (SRAW, ok)
                        } else {
                            (ADD, IllegalReason::ShiftRightWordFunct7(funct7))
                        }
                    },
                    _ => (ADD, IllegalReason::RegWordFunct3(funct3)),
                }
            } else {
                (ADD, IllegalReason::Opcode(opcode))
            }
        },
        InstrType::S => match funct3 {
            0b000 => (SB, ok),
            0b001 => (SH, ok),
            0b010 => (SW, ok),
            0b011 => (SD, ok),
            _ => (ADD, IllegalReason::StoreFunct3(funct3)),
        },
    }
}

impl DecodedInstr {
    /// Splits a raw instruction word into its fields and classifies it.
    pub fn new(raw: u32) -> (r: Self)
        ensures
            r == decode_spec(raw),
    {
        let opcode = (raw & 0x7f) as u8;
        let rd: u8 = ((raw >> 7u32) & 0x1f) as u8;
        let funct3: u8 = ((raw >> 12u32) & 0x7) as u8;
        let rs1: u8 = ((raw >> 15u32) & 0x1f) as u8;
        let rs2: u8 = ((raw >> 20u32) & 0x1f) as u8;
        let funct7: u8 = ((raw >> 25u32) & 0x7f) as u8;
        proof {
            assert(funct7 < 128 && rs2 < 32 && rd < 32 && ((funct7 as u16) << 5u16) < 4096)
                by (bit_vector)
                requires
                    funct7 == ((raw >> 25u32) & 0x7f) as u8,
                    rs2 == ((raw >> 20u32) & 0x1f) as u8,
                    rd == ((raw >> 7u32) & 0x1f) as u8,
            ;
            assert(((((raw >> 31u32) & 0x1) as u16) << 12u16) <= 0x1000 && ((((raw >> 7u32)
                & 0x1) as u16) << 11u16) <= 0x800 && ((((raw >> 25u32) & 0x3f) as u16) << 5u16)
                <= 0x7e0 && ((((raw >> 8u32) & 0xf) as u16) << 1u16) <= 0x1e && (((raw >> 31u32)
                & 0x1) << 20u32) <= 0x10_0000 && (((raw >> 12u32) & 0xff) << 12u32) <= 0xff000
                && (((raw >> 20u32) & 0x1) << 11u32) <= 0x800 && (((raw >> 21u32) & 0x3ff)
                << 1u32) <= 0x7fe) by (bit_vector);
        }
        let immi: u16 = (((funct7 as u16) << 5u16) + rs2 as u16) & 0xfff;
        let imms: u16 = (((funct7 as u16) << 5u16) + rd as u16) & 0xfff;
        let immb: u16 = ((((raw >> 31u32) & 0x1) as u16) << 12u16) + ((((raw >> 7u32) & 0x1)
            as u16) << 11u16) + ((((raw >> 25u32) & 0x3f) as u16) << 5u16) + ((((raw >> 8u32)
            & 0xf) as u16) << 1u16);
        let immu: u32 = raw & 0xffff_f000;
        let immj: u32 = (((raw >> 31u32) & 0x1) << 20u32) + (((raw >> 12u32) & 0xff) << 12u32)
            + (((raw >> 20u32) & 0x1) << 11u32) + (((raw >> 21u32) & 0x3ff) << 1u32);
        let shamt: u8 = ((raw >> 20u32) & 0x3f) as u8;
        let csr: u16 = ((raw >> 20u32) & 0xfff) as u16;
        let zimm: u8 = ((raw >> 15u32) & 0x1f) as u8;
        proof {
            assert(immi == field_immi(raw)) by (bit_vector)
                requires
                    funct7 == ((raw >> 25u32) & 0x7f) as u8,
                    rs2 == ((raw >> 20u32) & 0x1f) as u8,
                    immi == ((((funct7 as u16) << 5u16) + rs2 as u16) as u16) & 0xfff,
            ;
            assert(imms == field_imms(raw)) by (bit_vector)
                requires
                    funct7 == ((raw >> 25u32) & 0x7f) as u8,
                    rd == ((raw >> 7u32) & 0x1f) as u8,
                    imms == ((((funct7 as u16) << 5u16) + rd as u16) as u16) & 0xfff,
            ;
            assert(immb == field_immb(raw)) by (bit_vector)
                requires
                    immb == ((((raw >> 31u32) & 0x1) as u16) << 12u16) + ((((raw >> 7u32)
                        & 0x1) as u16) << 11u16) + ((((raw >> 25u32) & 0x3f) as u16) << 5u16)
                        + ((((raw >> 8u32) & 0xf) as u16) << 1u16),
            ;
            assert(immj == field_immj(raw)) by (bit_vector)
                requires
                    immj == (((raw >> 31u32) & 0x1) << 20u32) + (((raw >> 12u32) & 0xff)
                        << 12u32) + (((raw >> 20u32) & 0x1) << 11u32) + (((raw >> 21u32)
                        & 0x3ff) << 1u32),
            ;
        }
        let instr_type = decode_format(opcode);
        let (opcode_type, msg) = decode_operation(instr_type, opcode, funct3, funct7, immi);
        let is_st = instr_type == InstrType::S;
        let is_ld = matches!(opcode_type, LB | LBU | LH | LHU | LW | LWU | LD);
        let is_alu = matches!(
            opcode_type,
            ADD | SUB | SLL | SLT | SLTU | XOR | SRL | SRA | OR | AND | ADDW | SUBW | SLLW | SRLW
                | SRAW | ADDI | SLTI | SLTIU | XORI | ORI | ANDI | SLLI | SRLI | SRAI | ADDIW
                | SLLIW | SRLIW | SRAIW | AUIPC | LUI
        );
        let is_mul = matches!(opcode_type, MUL | MULH | MULHSU | MULHU | DIV | DIVU | REM | REMU);
        let is_branch = instr_type == InstrType::B || instr_type == InstrType::J || opcode_type
            == JALR;
        let is_fence = opcode_type == FENCE || opcode_type == FENCEI;
        let is_csr = matches!(opcode_type, CSRRW | CSRRS | CSRRC | CSRRWI | CSRRSI | CSRRCI);
        let is_syscall = matches!(opcode_type, ECALL | EBREAK | MRET);
        let (csr_re, csr_we): (bool, bool) = match opcode_type {
            CSRRW | CSRRWI => (rd != 0, true),
            CSRRC | CSRRCI | CSRRS | CSRRSI => (true, rs1 != 0),
            _ => (false, false),
        };
        let illegale_instr = msg != IllegalReason::Legal;
        DecodedInstr {
            opcode,
            rd,
            funct3,
            rs1,
            rs2,
            funct7,
            immi,
            imms,
            immb,
            immu,
            immj,
            shamt,
            csr,
            zimm,
            instr_type,
            opcode_type,
            is_ld,
            is_st,
            is_alu,
            is_mul,
            is_branch,
            is_fence,
            is_csr,
            csr_we,
            csr_re,
            is_syscall,
            illegale_instr,
            msg,
        }
    }
}

} // verus!
