use vstd::prelude::*;
use crate::buffers::fifo::DelayFIFO;
use crate::buffers::fifo::FifoView;
use crate::buffers::fifo::fifo_req;
use crate::buffers::fifo::fifo_resp;
use crate::buffers::fifo::fifo_pop;
use crate::buffers::fifo::fifo_tik;
use crate::buffers::fifo::fifo_rst;
use crate::buffers::fifo::fifo_tik_n;
use crate::buffers::fifo::lemma_fifo_delay;
use crate::interface::CtrlSignals;
use crate::interface::Interface;
use crate::instr::Instr;
use crate::instr::instr_default;
use crate::instr::decoded_instr::is_alu_op;
use crate::instr::intsr_type::InstrOpcode;
use crate::utils::sext;
use crate::utils::sext_spec;
use crate::utils::sra64;
use crate::utils::ashr_spec;
use crate::utils::signed_less_than;
use crate::utils::signed_less_than_spec;
use crate::utils::wrap_add;
use crate::utils::wrap_sub;
use crate::utils::lemma_wrapping_u64;
use crate::utils::lemma_shift_count;

verus! {

/// `1` when `b` holds, `0` otherwise.
pub open spec fn flag(b: bool) -> u64 {
    if b {
        1
    } else {
        0
    }
}

/// The value the arithmetic-logic unit computes for an instruction, from its
/// operands, its immediates and its program counter, as RV64I defines it. Shift
/// counts taken from a register count modulo 64, or modulo 32 for the word forms,
/// which work on the low 32 bits and sign-extend their result.
pub open spec fn alu_result(i: Instr) -> u64 {
    let rs1 = i.rs1_data;
    let rs2 = i.rs2_data;
    let d = i.decoded;
    let imm = sext_spec(d.immi as u64, 11);
    let sh = (d.shamt % 64) as u64;
    let rsh = rs2 % 64;
    match d.opcode_type {
        InstrOpcode::ADD => wrap_add(rs1, rs2),
        InstrOpcode::ADDI => wrap_add(rs1, imm),
        InstrOpcode::ADDW => sext_spec(wrap_add(rs1, rs2), 31),
        InstrOpcode::ADDIW => sext_spec(wrap_add(rs1, imm), 31),
        InstrOpcode::SUB => wrap_sub(rs1, rs2),
        InstrOpcode::SUBW => sext_spec(wrap_sub(rs1, rs2), 31),
        InstrOpcode::SLL => rs1 << rsh,
        InstrOpcode::SLLI => rs1 << sh,
        InstrOpcode::SLLW => sext_spec(rs1 << (rs2 % 32), 31),
        InstrOpcode::SLLIW => sext_spec(rs1 << sh, 31),
        InstrOpcode::SLT => flag(signed_less_than_spec(rs1, rs2)),
        InstrOpcode::SLTI => flag(signed_less_than_spec(rs1, imm)),
        InstrOpcode::SLTU => flag(rs1 < rs2),
        InstrOpcode::SLTIU => flag(rs1 < imm),
        InstrOpcode::XOR => rs1 ^ rs2,
        InstrOpcode::XORI => rs1 ^ imm,
        InstrOpcode::SRL => rs1 >> rsh,
        InstrOpcode::SRLI => rs1 >> sh,
        InstrOpcode::SRLW => sext_spec((rs1 & 0xffff_ffff) >> (rs2 % 32), 31),
        InstrOpcode::SRLIW => sext_spec((rs1 & 0xffff_ffff) >> sh, 31),
        InstrOpcode::SRA => ashr_spec(rs1, rsh),
        InstrOpcode::SRAI => ashr_spec(rs1, sh),
        InstrOpcode::SRAW => sext_spec(ashr_spec(sext_spec(rs1, 31), rs2 % 32), 31),
        InstrOpcode::SRAIW => sext_spec(ashr_spec(sext_spec(rs1, 31), sh), 31),
        InstrOpcode::OR => rs1 | rs2,
        InstrOpcode::ORI => rs1 | imm,
        InstrOpcode::AND => rs1 & rs2,
        InstrOpcode::ANDI => rs1 & imm,
        InstrOpcode::AUIPC => wrap_add(i.pc, sext_spec(d.immu as u64, 31)),
        _ => sext_spec(d.immu as u64, 31),
    }
}

/// The instruction after the unit executes it: unless it carries an exception it
/// gets its result as write-back value and is marked executed.
pub open spec fn alu_exec(i: Instr) -> Instr {
    if i.exception_vld {
        i
    } else {
        Instr { wb_vld: true, wb_data: alu_result(i), executed: true, ..i }
    }
}

/// The unit's queue after `req` is offered: a valid ALU instruction is executed
/// and queued when the unit last reported ready.
pub open spec fn alu_req(v: FifoView<Instr>, req: (bool, Instr)) -> FifoView<Instr> {
    if v.rdy && req.0 && req.1.decoded.is_alu {
        fifo_req(v, (true, alu_exec(req.1)))
    } else {
        v
    }
}

/// Timing from reset: a unit that is empty and ready, as `new` builds it, takes a
/// valid arithmetic-logic instruction and shows it, executed, exactly its delay later, and
/// from then on until it is taken.
pub proof fn lemma_alu_delay(v: FifoView<Instr>, req: (bool, Instr), n: nat)
    requires
        v.items.len() == 0,
        v.delays.len() == 0,
        v.cap > 0,
        v.options.len() > 0,
        v.rdy,
        req.0,
        req.1.decoded.is_alu,
    ensures
        fifo_resp(fifo_tik_n(alu_req(v, req), n)) == (n >= v.options[0], alu_exec(req.1)),
{
    lemma_fifo_delay(v, alu_exec(req.1), n);
}

/// The arithmetic-logic unit: computes, then holds the instruction in a one-entry
/// delay FIFO.
pub struct ALU {
    output: DelayFIFO<Instr>,
}

impl ALU {
    /// The unit's output queue.
    pub closed spec fn view(&self) -> FifoView<Instr> {
        self.output.view()
    }

    /// The output queue is well formed.
    pub closed spec fn queue_wf(&self) -> bool {
        self.output.wf()
    }

    /// The unit's invariant: a well-formed one-entry queue that answers the default
    /// instruction when empty.
    pub open spec fn wf(&self) -> bool {
        &&& self.queue_wf()
        &&& self.view().cap == 1
        &&& self.view().options.len() == 1
        &&& self.view().idle == instr_default()
    }

    /// A unit whose results wait `delay` cycles.
    pub fn new(delay: u16) -> (r: Self)
        ensures
            r.wf(),
            r.view().items.len() == 0,
            r.view().delays.len() == 0,
            r.view().rdy,
            r.view().options == seq![delay],
    {
        let output = DelayFIFO::new(1, vec![delay]);
        ALU { output }
    }

    fn calc(&self, instr: &Instr) -> (r: u64)
        requires
            is_alu_op(instr.decoded.opcode_type),
        ensures
            r == alu_result(*instr),
    {
        let rs1 = instr.rs1_data;
        let rs2 = instr.rs2_data;
        proof {
            lemma_wrapping_u64(rs1, rs2);
            lemma_shift_count(rs2);
            let c = rs2 & 0x1f;
            assert(c == rs2 % 32 && c < 32) by (bit_vector)
                requires c == rs2 & 0x1f;
            let cc = c as u32;
            assert(((cc % 64) as u64) == c) by (bit_vector)
                requires cc == c as u32, c < 32;
            lemma_wrapping_u64(rs1, sext_spec(instr.decoded.immi as u64, 11));
            lemma_wrapping_u64(instr.pc, sext_spec(instr.decoded.immu as u64, 31));
        }
        match instr.decoded.opcode_type {
            InstrOpcode::ADD => rs1.wrapping_add(rs2),
            InstrOpcode::ADDI => rs1.wrapping_add(sext(instr.decoded.immi as u64, 11)),
            InstrOpcode::ADDW => sext(rs1.wrapping_add(rs2), 31),
            InstrOpcode::ADDIW => sext(rs1.wrapping_add(sext(instr.decoded.immi as u64, 11)), 31),
            InstrOpcode::SUB => rs1.wrapping_sub(rs2),
            InstrOpcode::SUBW => sext(rs1.wrapping_sub(rs2), 31),
            InstrOpcode::SLL => rs1.wrapping_shl(rs2 as u32),
            InstrOpcode::SLLI => rs1.wrapping_shl(instr.decoded.shamt as u32),
            InstrOpcode::SLLW => sext(rs1.wrapping_shl((rs2 & 0x1f) as u32), 31),
            InstrOpcode::SLLIW => sext(rs1.wrapping_shl(instr.decoded.shamt as u32), 31),
            InstrOpcode::SLT => {
                if signed_less_than(rs1, rs2) {
                    1
                } else {
                    0
                }
            },
            InstrOpcode::SLTI => {
                if signed_less_than(rs1, sext(instr.decoded.immi as u64, 11)) {
                    1
                } else {
                    0
                }
            },
            InstrOpcode::SLTU => {
                if rs1 < rs2 {
                    1
                } else {
                    0
                }
            },
            InstrOpcode::SLTIU => {
                if rs1 < sext(instr.decoded.immi as u64, 11) {
                    1
                } else {
                    0
                }
            },
            InstrOpcode::XOR => rs1 ^ rs2,
            InstrOpcode::XORI => rs1 ^ sext(instr.decoded.immi as u64, 11),
            InstrOpcode::SRL => rs1.wrapping_shr(rs2 as u32),
            InstrOpcode::SRLI => rs1.wrapping_shr(instr.decoded.shamt as u32),
            InstrOpcode::SRLW => sext((rs1 & 0xffff_ffff).wrapping_shr((rs2 & 0x1f) as u32), 31),
            InstrOpcode::SRLIW => sext((rs1 & 0xffff_ffff).wrapping_shr(instr.decoded.shamt as u32), 31),
            InstrOpcode::SRA => sra64(rs1, rs2),
            InstrOpcode::SRAI => sra64(rs1, instr.decoded.shamt as u64),
            InstrOpcode::SRAW => sext(sra64(sext(rs1, 31), rs2 & 0x1f), 31),
            InstrOpcode::SRAIW => sext(sra64(sext(rs1, 31), instr.decoded.shamt as u64), 31),
            InstrOpcode::OR => rs1 | rs2,
            InstrOpcode::ORI => rs1 | sext(instr.decoded.immi as u64, 11),
            InstrOpcode::AND => rs1 & rs2,
            InstrOpcode::ANDI => rs1 & sext(instr.decoded.immi as u64, 11),
            InstrOpcode::AUIPC => instr.pc.wrapping_add(sext(instr.decoded.immu as u64, 31)),
            _ => sext(instr.decoded.immu as u64, 31),
        }
    }
}

impl Interface for ALU {
    type Input = Instr;

    type Output = Instr;

    open spec fn inv(&self) -> bool {
        self.wf()
    }

    /// An instruction the unit takes must name one of its operations.
    open spec fn accepts(&self, req: (bool, Instr)) -> bool {
        self.view().rdy && req.0 && req.1.decoded.is_alu && !req.1.exception_vld ==> is_alu_op(
            req.1.decoded.opcode_type,
        )
    }

    /// When the unit last reported ready and a valid ALU instruction is offered,
    /// executes it and queues it; otherwise nothing changes.
    fn req_i(&mut self, req: (bool, Instr))
        ensures
            final(self).view() == alu_req(old(self).view(), req),
    {
        if self.output.rdy_o() && req.0 && req.1.decoded.is_alu {
            let mut instr = req.1;
            if !instr.exception_vld {
                let val = self.calc(&instr);
                instr.wb_vld = true;
                instr.wb_data = val;
                instr.executed = true;
            }
            self.output.req_i((true, instr));
        }
    }

    fn rdy_o(&self) -> (r: bool)
        ensures
            r == self.view().rdy,
    {
        self.output.rdy_o()
    }

    fn resp_o(&self) -> (r: (bool, Instr))
        ensures
            r == fifo_resp(self.view()),
    {
        self.output.resp_o()
    }

    fn rdy_i(&mut self, rdy: bool)
        ensures
            final(self).view() == fifo_pop(old(self).view(), rdy),
    {
        self.output.rdy_i(rdy);
    }
}

impl CtrlSignals for ALU {
    open spec fn ctrl_inv(&self) -> bool {
        self.wf()
    }

    open spec fn tik_ok(&self) -> bool {
        true
    }

    fn tik(&mut self)
        ensures
            final(self).view() == fifo_tik(old(self).view()),
    {
        self.output.tik();
    }

    fn rst(&mut self, rst: bool)
        ensures
            final(self).view() == fifo_rst(old(self).view(), rst),
    {
        self.output.rst(rst);
    }

    fn flush(&mut self, rst: bool)
        ensures
            final(self).view() == fifo_rst(old(self).view(), rst),
    {
        self.output.flush(rst);
    }
}

} // verus!
