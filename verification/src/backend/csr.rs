use vstd::prelude::*;
use crate::buffers::fifo::DelayFIFO;
use crate::buffers::fifo::FifoView;
use crate::buffers::fifo::fifo_req;
use crate::buffers::fifo::fifo_resp;
use crate::buffers::fifo::fifo_pop;
use crate::buffers::fifo::fifo_tik;
use crate::buffers::fifo::fifo_rst;
use crate::buffers::fifo::fifo_tik_n;
use crate::buffers::fifo::lemma_fifo_delay;
use crate::interface::CtrlSignals;
use crate::interface::Interface;
use crate::instr::Instr;
use crate::instr::instr_default;
use crate::instr::decoded_instr::is_csr_op;
use crate::instr::intsr_type::InstrOpcode;

verus! {

/// The value a control-status-register instruction computes for the register,
/// from the register's current value `csr`.
pub open spec fn csr_value(i: Instr, csr: u64) -> u64 {
    let zimm = i.decoded.zimm as u64;
    match i.decoded.opcode_type {
        InstrOpcode::CSRRW => i.rs1_data,
        InstrOpcode::CSRRS => i.rs1_data | csr,
        InstrOpcode::CSRRC => i.rs1_data & csr,
        InstrOpcode::CSRRWI => zimm,
        InstrOpcode::CSRRSI => zimm | csr,
        _ => zimm & csr,
    }
}

/// Bit facts: `x | y` holds every bit of `x` and of `y` and no other; `x & y`
/// holds exactly the bits set in both.
proof fn lemma_or_and_bits(x: u64, y: u64)
    ensures
        (x | y) & x == x,
        (x | y) & y == y,
        (x | y) & !x & !y == 0,
        (x & y) & !x == 0,
        (x & y) & !y == 0,
        (x & y) & (x & y) == x & y,
{
    assert({
        &&& (x | y) & x == x
        &&& (x | y) & y == y
        &&& (x | y) & !x & !y == 0
        &&& (x & y) & !x == 0
        &&& (x & y) & !y == 0
        &&& (x & y) & (x & y) == x & y
    }) by (bit_vector);
}

/// What each register instruction makes of the register's value `csr`, where the
/// source is `rs1` for the register forms and the five-bit immediate for the
/// immediate forms: a write puts the source in; a set keeps every bit that was
/// set, sets every bit of the source and no other; a clear keeps only bits set in
/// both the register and the source.
pub proof fn lemma_csr_value(i: Instr, csr: u64)
    requires
        is_csr_op(i.decoded.opcode_type),
    ensures
        ({
            let op = i.decoded.opcode_type;
            let imm = op == InstrOpcode::CSRRWI || op == InstrOpcode::CSRRSI || op == InstrOpcode::CSRRCI;
            let src: u64 = if imm { i.decoded.zimm as u64 } else { i.rs1_data };
            let n = csr_value(i, csr);
            &&& (op == InstrOpcode::CSRRW || op == InstrOpcode::CSRRWI) ==> n == src
            &&& (op == InstrOpcode::CSRRS || op == InstrOpcode::CSRRSI) ==> {
                &&& n & csr == csr
                &&& n & src == src
                &&& n & !src & !csr == 0
            }
            &&& (op == InstrOpcode::CSRRC || op == InstrOpcode::CSRRCI) ==> {
                &&& n & !csr == 0
                &&& n & !src == 0
                &&& n & (src & csr) == src & csr
            }
        }),
{
    let op = i.decoded.opcode_type;
    let imm = op == InstrOpcode::CSRRWI || op == InstrOpcode::CSRRSI || op == InstrOpcode::CSRRCI;
    let src: u64 = if imm { i.decoded.zimm as u64 } else { i.rs1_data };
    lemma_or_and_bits(src, csr);
}

/// A register instruction executed by the unit writes the register's old value
/// back when it reads the register, and records the new value computed from it.
pub proof fn lemma_csr_exec(i: Instr)
    requires
        i.decoded.is_csr,
    ensures
        csr_exec(i).wb_vld == i.decoded.csr_re,
        csr_exec(i).wb_data == i.csr_data,
        csr_exec(i).csr_wb_data == csr_value(i, i.csr_data),
        csr_exec(i).executed,
{
}

/// The instruction after the unit executes it: a register instruction writes back
/// the register's old value (when it reads the register) and records the new one.
pub open spec fn csr_exec(i: Instr) -> Instr {
    if i.decoded.is_csr {
        Instr {
            wb_vld: i.decoded.csr_re,
            wb_data: i.csr_data,
            csr_wb_data: csr_value(i, i.csr_data),
            executed: true,
            ..i
        }
    } else {
        i
    }
}

/// The unit's queue after `req` is offered: an instruction carrying an exception
/// goes to the queue as it is; otherwise a valid instruction is executed and queued
/// when the unit last reported ready.
pub open spec fn csr_req(v: FifoView<Instr>, req: (bool, Instr)) -> FifoView<Instr> {
    if req.1.exception_vld {
        fifo_req(v, (true, req.1))
    } else if v.rdy && req.0 {
        fifo_req(v, (true, csr_exec(req.1)))
    } else {
        v
    }
}

/// Timing from reset: a unit that is empty and ready, as `new` builds it, takes a
/// valid control-status instruction and shows it, executed, exactly its delay later, and
/// from then on until it is taken.
pub proof fn lemma_csr_delay(v: FifoView<Instr>, req: (bool, Instr), n: nat)
    requires
        v.items.len() == 0,
        v.delays.len() == 0,
        v.cap > 0,
        v.options.len() > 0,
        v.rdy,
        req.0,
        !req.1.exception_vld,
    ensures
        fifo_resp(fifo_tik_n(csr_req(v, req), n)) == (n >= v.options[0], csr_exec(req.1)),
{
    lemma_fifo_delay(v, csr_exec(req.1), n);
}

/// The control-status-register unit: executes register instructions and passes
/// system instructions on, holding each in a one-entry delay FIFO.
pub struct CSR {
    output: DelayFIFO<Instr>,
}

impl CSR {
    /// The unit's output queue.
    pub closed spec fn view(&self) -> FifoView<Instr> {
        self.output.view()
    }

    /// The output queue is well formed.
    pub closed spec fn queue_wf(&self) -> bool {
        self.output.wf()
    }

    /// The unit's invariant: a well-formed one-entry queue that answers the default
    /// instruction when empty.
    pub open spec fn wf(&self) -> bool {
        &&& self.queue_wf()
        &&& self.view().cap == 1
        &&& self.view().options.len() == 1
        &&& self.view().idle == instr_default()
    }

    /// A unit whose results wait `delay` cycles.
    pub fn new(delay: u16) -> (r: Self)
        ensures
            r.wf(),
            r.view().items.len() == 0,
            r.view().delays.len() == 0,
            r.view().rdy,
            r.view().options == seq![delay],
    {
        let output = DelayFIFO::new(1, vec![delay]);
        CSR { output }
    }

    fn csr_val(&self, instr: &Instr, csr: u64) -> (r: u64)
        requires
            is_csr_op(instr.decoded.opcode_type),
        ensures
            r == csr_value(*instr, csr),
    {
        match instr.decoded.opcode_type {
            InstrOpcode::CSRRW => instr.rs1_data,
            InstrOpcode::CSRRS => instr.rs1_data | csr,
            InstrOpcode::CSRRC => instr.rs1_data & csr,
            InstrOpcode::CSRRWI => instr.decoded.zimm as u64,
            InstrOpcode::CSRRSI => instr.decoded.zimm as u64 | csr,
            _ => instr.decoded.zimm as u64 & csr,
        }
    }
}

impl Interface for CSR {
    type Input = Instr;

    type Output = Instr;

    open spec fn inv(&self) -> bool {
        self.wf()
    }

    /// A register instruction the unit executes must name a register operation.
    open spec fn accepts(&self, req: (bool, Instr)) -> bool {
        !req.1.exception_vld && self.view().rdy && req.0 && req.1.decoded.is_csr ==> is_csr_op(
            req.1.decoded.opcode_type,
        )
    }

    /// An instruction carrying an exception is offered to the queue as it is, valid
    /// or not. Otherwise, when the unit last reported ready and the request is
    /// valid, the instruction is executed and queued.
    fn req_i(&mut self, req: (bool, Instr))
        ensures
            final(self).view() == csr_req(old(self).view(), req),
    {
        if req.1.exception_vld {
            self.output.req_i((true, req.1));
            return ;
        }
        if self.output.rdy_o() && req.0 {
            let mut instr = req.1;
            if instr.decoded.is_csr {
                let old_csr_val = instr.csr_data;
                let csr_data = self.csr_val(&instr, old_csr_val);
                let wb_vld = instr.decoded.csr_re;
                instr.wb_vld = wb_vld;
                instr.wb_data = old_csr_val;
                instr.csr_wb_data = csr_data;
                instr.executed = true;
            }
            self.output.req_i((true, instr));
        }
    }

    fn rdy_o(&self) -> (r: bool)
        ensures
            r == self.view().rdy,
    {
        self.output.rdy_o()
    }

    fn resp_o(&self) -> (r: (bool, Instr))
        ensures
            r == fifo_resp(self.view()),
    {
        self.output.resp_o()
    }

    fn rdy_i(&mut self, rdy: bool)
        ensures
            final(self).view() == fifo_pop(old(self).view(), rdy),
    {
        self.output.rdy_i(rdy);
    }
}

impl CtrlSignals for CSR {
    open spec fn ctrl_inv(&self) -> bool {
        self.wf()
    }

    open spec fn tik_ok(&self) -> bool {
        true
    }

    fn tik(&mut self)
        ensures
            final(self).view() == fifo_tik(old(self).view()),
    {
        self.output.tik();
    }

    fn rst(&mut self, rst: bool)
        ensures
            final(self).view() == fifo_rst(old(self).view(), rst),
    {
        self.output.rst(rst);
    }

    fn flush(&mut self, rst: bool)
        ensures
            final(self).view() == fifo_rst(old(self).view(), rst),
    {
        self.output.flush(rst);
    }
}

} // verus!
