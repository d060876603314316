pub mod intsr_type;
pub mod decoded_instr;

use vstd::prelude::*;
use crate::instr::decoded_instr::DecodedInstr;
use crate::instr::decoded_instr::decoded_default;

verus! {

/// One instruction as it travels through the pipeline, with everything the stages
/// learn about it.
#[derive(Clone, Copy, Debug, PartialEq, Eq, Structural)]
pub struct Instr {
    pub pc_vld: bool,
    pub pc: u64,
    /// true when the predictor says the branch is taken
    pub predicted_direction: bool,
    pub predicted_pc: u64,
    pub raw_vld: bool,
    pub raw: u32,
    pub decoded_vld: bool,
    pub decoded: DecodedInstr,
    pub reg_data_vld: bool,
    pub rs1_data: u64,
    pub rs2_data: u64,
    pub wb_vld: bool,
    pub wb_data: u64,
    pub csr_data: u64,
    pub csr_wb_data: u64,
    pub predict_fail: bool,
    pub branch_vld: bool,
    pub branch_direction: bool,
    pub branch_pc: u64,
    pub exception_vld: bool,
    pub ecause: u64,
    pub executed: bool,
    pub done: bool,
}

/// The instruction with every field zero or false and the default decoding.
pub open spec fn instr_default() -> Instr {
    Instr {
        pc_vld: false,
        pc: 0,
        predicted_direction: false,
        predicted_pc: 0,
        raw_vld: false,
        raw: 0,
        decoded_vld: false,
        decoded: decoded_default(),
        reg_data_vld: false,
        rs1_data: 0,
        rs2_data: 0,
        wb_vld: false,
        wb_data: 0,
        csr_data: 0,
        csr_wb_data: 0,
        predict_fail: false,
        branch_vld: false,
        branch_direction: false,
        branch_pc: 0,
        exception_vld: false,
        ecause: 0,
        executed: false,
        done: false,
    }
}

/// A fresh instruction at `pc`: only the program counter is known.
pub open spec fn instr_at(pc: u64) -> Instr {
    Instr { pc_vld: true, pc: pc, ..instr_default() }
}

/// The register numbers of an instruction name registers of the register file.
pub open spec fn reg_fields_ok(i: Instr) -> bool {
    &&& i.decoded.rd < 33
    &&& i.decoded.rs1 < 33
    &&& i.decoded.rs2 < 33
}

impl Default for Instr {
    fn default() -> (r: Self)
        ensures
            r == instr_default(),
    {
        Instr {
            pc_vld: false,
            pc: 0,
            predicted_direction: false,
            predicted_pc: 0,
            raw_vld: false,
            raw: 0,
            decoded_vld: false,
            decoded: DecodedInstr::default(),
            reg_data_vld: false,
            rs1_data: 0,
            rs2_data: 0,
            wb_vld: false,
            wb_data: 0,
            csr_data: 0,
            csr_wb_data: 0,
            predict_fail: false,
            branch_vld: false,
            branch_direction: false,
            branch_pc: 0,
            exception_vld: false,
            ecause: 0,
            executed: false,
            done: false,
        }
    }
}

impl Instr {
    /// A new instruction whose program counter is `pc`.
    pub fn new(pc: u64) -> (r: Self)
        ensures
            r == instr_at(pc),
    {
        Instr {
            pc_vld: true,
            pc: pc,
            predicted_direction: false,
            predicted_pc: 0,
            raw_vld: false,
            raw: 0,
            decoded_vld: false,
            decoded: DecodedInstr::default(),
            reg_data_vld: false,
            rs1_data: 0,
            rs2_data: 0,
            wb_vld: false,
            wb_data: 0,
            csr_data: 0,
            csr_wb_data: 0,
            exception_vld: false,
            ecause: 0,
            predict_fail: false,
            branch_vld: false,
            branch_direction: false,
            branch_pc: 0,
            executed: false,
            done: false,
        }
    }

    /// Records the fetched instruction word.
    pub fn fetch(&mut self, raw: u32)
        ensures
            *final(self) == (Instr { raw_vld: true, raw: raw, ..*old(self) }),
    {
        self.raw_vld = true;
        self.raw = raw;
    }

    /// Records the decoding.
    pub fn decode(&mut self, decoded: DecodedInstr)
        ensures
            *final(self) == (Instr { decoded_vld: true, decoded: decoded, ..*old(self) }),
    {
        self.decoded_vld = true;
        self.decoded = decoded;
    }

    /// Records the source operands.
    pub fn dispatch(&mut self, rs1: u64, rs2: u64)
        ensures
            *final(self) == (Instr {
                reg_data_vld: true,
                rs1_data: rs1,
                rs2_data: rs2,
                ..*old(self)
            }),
    {
        self.reg_data_vld = true;
        self.rs1_data = rs1;
        self.rs2_data = rs2;
    }

    /// Records the write-back value and whether there is one.
    pub fn exec_done(&mut self, wb_vld: bool, wb_data: u64)
        ensures
            *final(self) == (Instr { wb_vld: wb_vld, wb_data: wb_data, ..*old(self) }),
    {
        self.wb_vld = wb_vld;
        self.wb_data = wb_data;
    }

    /// Records an exception and its cause.
    pub fn exception(&mut self, ecause: u64)
        ensures
            *final(self) == (Instr { exception_vld: true, ecause: ecause, ..*old(self) }),
    {
        self.exception_vld = true;
        self.ecause = ecause;
    }

    /// Marks the instruction finished.
    pub fn finish(&mut self)
        ensures
            *final(self) == (Instr { done: true, ..*old(self) }),
    {
        self.done = true;
    }
}

} // verus!
