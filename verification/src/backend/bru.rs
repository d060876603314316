use vstd::prelude::*;
use crate::buffers::fifo::DelayFIFO;
use crate::buffers::fifo::FifoView;
use crate::buffers::fifo::fifo_req;
use crate::buffers::fifo::fifo_resp;
use crate::buffers::fifo::fifo_pop;
use crate::buffers::fifo::fifo_tik;
use crate::buffers::fifo::fifo_rst;
use crate::buffers::fifo::fifo_tik_n;
use crate::buffers::fifo::lemma_fifo_delay;
use crate::interface::CtrlSignals;
use crate::interface::Interface;
use crate::instr::Instr;
use crate::instr::instr_default;
use crate::instr::decoded_instr::is_branch_op;
use crate::instr::intsr_type::InstrOpcode;
use crate::utils::sext;
use crate::utils::sext_spec;
use crate::utils::signed_less_than;
use crate::utils::signed_less_than_spec;
use crate::utils::wrap_add;
use crate::utils::lemma_wrapping_u64;

verus! {

/// The branch target and whether the branch is taken. Targets wrap modulo 2^64.
pub open spec fn bru_target(i: Instr) -> (bool, u64) {
    let rs1 = i.rs1_data;
    let rs2 = i.rs2_data;
    let d = i.decoded;
    let branch_pc = wrap_add(i.pc, sext_spec(d.immb as u64, 12));
    match d.opcode_type {
        InstrOpcode::JALR => (true, wrap_add(sext_spec(d.immi as u64, 11), rs1)),
        InstrOpcode::JAL => (true, wrap_add(i.pc, sext_spec(d.immj as u64, 20))),
        InstrOpcode::BEQ => (rs1 == rs2, branch_pc),
        InstrOpcode::BNE => (rs1 != rs2, branch_pc),
        InstrOpcode::BLT => (signed_less_than_spec(rs1, rs2), branch_pc),
        InstrOpcode::BGE => (!signed_less_than_spec(rs1, rs2), branch_pc),
        InstrOpcode::BLTU => (rs1 < rs2, branch_pc),
        _ => (rs1 >= rs2, branch_pc),
    }
}

/// The link value: jumps write back the address of the next instruction.
pub open spec fn bru_link(i: Instr) -> (bool, u64) {
    if i.decoded.opcode_type == InstrOpcode::JALR || i.decoded.opcode_type == InstrOpcode::JAL {
        (true, wrap_add(i.pc, 4))
    } else {
        (false, 0)
    }
}

/// Where execution really continues after the instruction.
pub open spec fn bru_next_pc(i: Instr) -> u64 {
    if bru_target(i).0 {
        bru_target(i).1
    } else {
        wrap_add(i.pc, 4)
    }
}

/// Where the front end assumed execution would continue.
pub open spec fn predicted_next_pc(i: Instr) -> u64 {
    if i.predicted_direction {
        i.predicted_pc
    } else {
        wrap_add(i.pc, 4)
    }
}

/// The instruction after the branch unit resolves it: a jump gets its link value,
/// and a wrong prediction is marked with the pc to resume at.
pub open spec fn bru_exec(i: Instr) -> Instr {
    if i.exception_vld {
        i
    } else {
        let link = bru_link(i);
        let i1 = Instr { executed: true, ..i };
        let i2 = if link.0 {
            Instr { wb_vld: true, wb_data: link.1, ..i1 }
        } else {
            i1
        };
        if bru_next_pc(i) != predicted_next_pc(i) {
            Instr { predict_fail: true, branch_pc: bru_next_pc(i), ..i2 }
        } else {
            i2
        }
    }
}

/// How the unit resolves a branch or jump. A conditional branch is taken when its
/// comparison holds (equal, not equal, signed less, signed not less, unsigned
/// less, unsigned not less) and then goes to the pc plus its B-immediate; `JAL`
/// goes to the pc plus its J-immediate and `JALR` to `rs1` plus its I-immediate,
/// both writing the address after the jump back. Execution continues at the target
/// when taken and after the instruction otherwise; the front end assumed the
/// predicted pc when it predicted taken, whatever the outcome, and the address
/// after the instruction otherwise. The instruction is marked mispredicted, with
/// the real next pc to resume at, exactly when the two differ.
pub proof fn lemma_bru_resolves(i: Instr)
    requires
        !i.exception_vld,
        is_branch_op(i.decoded.opcode_type),
    ensures
        ({
            let op = i.decoded.opcode_type;
            let a = i.rs1_data;
            let b = i.rs2_data;
            let jump = op == InstrOpcode::JAL || op == InstrOpcode::JALR;
            let taken = if op == InstrOpcode::BEQ {
                a == b
            } else if op == InstrOpcode::BNE {
                a != b
            } else if op == InstrOpcode::BLT {
                crate::backend::mul::s64(a) < crate::backend::mul::s64(b)
            } else if op == InstrOpcode::BGE {
                crate::backend::mul::s64(a) >= crate::backend::mul::s64(b)
            } else if op == InstrOpcode::BLTU {
                a < b
            } else if op == InstrOpcode::BGEU {
                a >= b
            } else {
                true
            };
            let target = if op == InstrOpcode::JAL {
                wrap_add(i.pc, sext_spec(i.decoded.immj as u64, 20))
            } else if op == InstrOpcode::JALR {
                wrap_add(a, sext_spec(i.decoded.immi as u64, 11))
            } else {
                wrap_add(i.pc, sext_spec(i.decoded.immb as u64, 12))
            };
            let next = if taken { target } else { wrap_add(i.pc, 4) };
            let assumed = if i.predicted_direction { i.predicted_pc } else { wrap_add(i.pc, 4) };
            let e = bru_exec(i);
            &&& e.executed
            &&& e.predict_fail == (next != assumed || i.predict_fail)
            &&& (next != assumed ==> e.branch_pc == next)
            &&& (next == assumed ==> e.branch_pc == i.branch_pc)
            &&& (jump ==> e.wb_vld && e.wb_data == wrap_add(i.pc, 4))
            &&& (!jump ==> e.wb_vld == i.wb_vld && e.wb_data == i.wb_data)
            &&& e.rs1_data == a && e.rs2_data == b && e.pc == i.pc && e.decoded == i.decoded
        }),
{
    assert(wrap_add(sext_spec(i.decoded.immi as u64, 11), i.rs1_data) == wrap_add(
        i.rs1_data,
        sext_spec(i.decoded.immi as u64, 11),
    ));
}

/// The unit's queue after `req` is offered: a valid branch is resolved and queued
/// when the unit last reported ready.
pub open spec fn bru_req(v: FifoView<Instr>, req: (bool, Instr)) -> FifoView<Instr> {
    if v.rdy && req.0 && req.1.decoded.is_branch {
        fifo_req(v, (true, bru_exec(req.1)))
    } else {
        v
    }
}

/// Timing from reset: a unit that is empty and ready, as `new` builds it, takes a
/// valid branch instruction and shows it, executed, exactly its delay later, and
/// from then on until it is taken.
pub proof fn lemma_bru_delay(v: FifoView<Instr>, req: (bool, Instr), n: nat)
    requires
        v.items.len() == 0,
        v.delays.len() == 0,
        v.cap > 0,
        v.options.len() > 0,
        v.rdy,
        req.0,
        req.1.decoded.is_branch,
    ensures
        fifo_resp(fifo_tik_n(bru_req(v, req), n)) == (n >= v.options[0], bru_exec(req.1)),
{
    lemma_fifo_delay(v, bru_exec(req.1), n);
}

/// The branch unit: resolves branches and jumps, then holds the instruction in a
/// one-entry delay FIFO.
pub struct BRU {
    output: DelayFIFO<Instr>,
}

impl BRU {
    /// The unit's output queue.
    pub closed spec fn view(&self) -> FifoView<Instr> {
        self.output.view()
    }

    /// The output queue is well formed.
    pub closed spec fn queue_wf(&self) -> bool {
        self.output.wf()
    }

    /// The unit's invariant: a well-formed one-entry queue that answers the default
    /// instruction when empty.
    pub open spec fn wf(&self) -> bool {
        &&& self.queue_wf()
        &&& self.view().cap == 1
        &&& self.view().options.len() == 1
        &&& self.view().idle == instr_default()
    }

    /// A unit whose results wait `delay` cycles.
    pub fn new(delay: u16) -> (r: Self)
        ensures
            r.wf(),
            r.view().items.len() == 0,
            r.view().delays.len() == 0,
            r.view().rdy,
            r.view().options == seq![delay],
    {
        let output = DelayFIFO::new(1, vec![delay]);
        BRU { output }
    }

    fn calc(&self, instr: &Instr) -> (r: (bool, u64))
        requires
            is_branch_op(instr.decoded.opcode_type),
        ensures
            r == bru_target(*instr),
    {
        let rs1 = instr.rs1_data;
        let rs2 = instr.rs2_data;
        proof {
            lemma_wrapping_u64(instr.pc, sext_spec(instr.decoded.immb as u64, 12));
            lemma_wrapping_u64(sext_spec(instr.decoded.immi as u64, 11), rs1);
            lemma_wrapping_u64(instr.pc, sext_spec(instr.decoded.immj as u64, 20));
        }
        let branch_pc = instr.pc.wrapping_add(sext(instr.decoded.immb as u64, 12));
        match instr.decoded.opcode_type {
            InstrOpcode::JALR => (true, sext(instr.decoded.immi as u64, 11).wrapping_add(rs1)),
            InstrOpcode::JAL => (true, instr.pc.wrapping_add(sext(instr.decoded.immj as u64, 20))),
            InstrOpcode::BEQ => (rs1 == rs2, branch_pc),
            InstrOpcode::BNE => (rs1 != rs2, branch_pc),
            InstrOpcode::BLT => (signed_less_than(rs1, rs2), branch_pc),
            InstrOpcode::BGE => (!signed_less_than(rs1, rs2), branch_pc),
            InstrOpcode::BLTU => (rs1 < rs2, branch_pc),
            _ => (rs1 >= rs2, branch_pc),
        }
    }

    fn resolve(&self, instr: Instr) -> (r: Instr)
        requires
            is_branch_op(instr.decoded.opcode_type),
            !instr.exception_vld,
        ensures
            r == bru_exec(instr),
    {
        let mut instr = instr;
        let (branch, val) = self.calc(&instr);
        proof {
            lemma_wrapping_u64(instr.pc, 4);
        }
        let final_bru_pc: u64 = if branch {
            val
        } else {
            instr.pc.wrapping_add(4)
        };
        let final_predict_pc: u64 = if instr.predicted_direction {
            instr.predicted_pc
        } else {
            instr.pc.wrapping_add(4)
        };
        let predict_succ = final_bru_pc == final_predict_pc;
        let (wb_vld, wb_data) = self.wb(&instr);
        instr.executed = true;
        if wb_vld {
            instr.wb_vld = true;
            instr.wb_data = wb_data;
        }
        if !predict_succ {
            instr.predict_fail = true;
            instr.branch_pc = final_bru_pc;
        }
        instr
    }

    fn wb(&self, instr: &Instr) -> (r: (bool, u64))
        ensures
            r == bru_link(*instr),
    {
        proof {
            lemma_wrapping_u64(instr.pc, 4);
        }
        match instr.decoded.opcode_type {
            InstrOpcode::JALR | InstrOpcode::JAL => (true, instr.pc.wrapping_add(4)),
            _ => (false, 0),
        }
    }
}

impl Interface for BRU {
    type Input = Instr;

    type Output = Instr;

    open spec fn inv(&self) -> bool {
        self.wf()
    }

    /// An instruction the unit takes must name a branch or a jump.
    open spec fn accepts(&self, req: (bool, Instr)) -> bool {
        self.view().rdy && req.0 && req.1.decoded.is_branch && !req.1.exception_vld ==> is_branch_op(
            req.1.decoded.opcode_type,
        )
    }

    /// When the unit last reported ready and a valid branch is offered, resolves it
    /// and queues it; otherwise nothing changes.
    fn req_i(&mut self, req: (bool, Instr))
        ensures
            final(self).view() == bru_req(old(self).view(), req),
    {
        if self.output.rdy_o() && req.0 && req.1.decoded.is_branch {
            let instr = if !req.1.exception_vld {
                self.resolve(req.1)
            } else {
                req.1
            };
            self.output.req_i((true, instr));
        }
    }

    fn rdy_o(&self) -> (r: bool)
        ensures
            r == self.view().rdy,
    {
        self.output.rdy_o()
    }

    fn resp_o(&self) -> (r: (bool, Instr))
        ensures
            r == fifo_resp(self.view()),
    {
        self.output.resp_o()
    }

    fn rdy_i(&mut self, rdy: bool)
        ensures
            final(self).view() == fifo_pop(old(self).view(), rdy),
    {
        self.output.rdy_i(rdy);
    }
}

impl CtrlSignals for BRU {
    open spec fn ctrl_inv(&self) -> bool {
        self.wf()
    }

    open spec fn tik_ok(&self) -> bool {
        true
    }

    fn tik(&mut self)
        ensures
            final(self).view() == fifo_tik(old(self).view()),
    {
        self.output.tik();
    }

    fn rst(&mut self, rst: bool)
        ensures
            final(self).view() == fifo_rst(old(self).view(), rst),
    {
        self.output.rst(rst);
    }

    fn flush(&mut self, rst: bool)
        ensures
            final(self).view() == fifo_rst(old(self).view(), rst),
    {
        self.output.flush(rst);
    }
}

} // verus!
