use vstd::prelude::*;
use crate::buffers::fifo::DelayFIFO;
use crate::buffers::fifo::FifoView;
use crate::buffers::fifo::fifo_req;
use crate::buffers::fifo::fifo_resp;
use crate::buffers::fifo::fifo_pop;
use crate::buffers::fifo::fifo_tik;
use crate::buffers::fifo::fifo_rst;
use crate::buffers::fifo::fifo_tik_n;
use crate::buffers::fifo::lemma_fifo_delay;
use crate::interface::CtrlSignals;
use crate::interface::Interface;
use crate::instr::Instr;
use crate::instr::instr_default;
use crate::instr::decoded_instr::is_load_op;
use crate::instr::decoded_instr::is_store_op;
use crate::memory::memory::Memory;
use crate::memory::memory::le_val;
use crate::memory::memory::sign_extend;
use crate::memory::memory::store_bytes;
use crate::memory::memory::mem_index;
use crate::instr::intsr_type::InstrOpcode;
use crate::utils::sext;
use crate::utils::sext_spec;
use crate::utils::wrap_add;
use crate::utils::lemma_wrapping_u64;

verus! {

/// How many bytes a memory operation moves.
pub open spec fn access_width(op: InstrOpcode) -> int {
    match op {
        InstrOpcode::LB | InstrOpcode::LBU | InstrOpcode::SB => 1,
        InstrOpcode::LH | InstrOpcode::LHU | InstrOpcode::SH => 2,
        InstrOpcode::LW | InstrOpcode::LWU | InstrOpcode::SW => 4,
        _ => 8,
    }
}

/// The address a load reads: `rs1` plus the sign-extended I-format immediate,
/// modulo 2^64.
pub open spec fn load_address(i: Instr) -> u64 {
    wrap_add(i.rs1_data, sext_spec(i.decoded.immi as u64, 11))
}

/// The address a store writes: `rs1` plus the sign-extended S-format immediate,
/// modulo 2^64.
pub open spec fn store_address(i: Instr) -> u64 {
    wrap_add(i.rs1_data, sext_spec(i.decoded.imms as u64, 11))
}

/// The value a load reads from memory `m` at its address; signed loads
/// sign-extend.
pub open spec fn load_value(i: Instr, m: Seq<u8>) -> u64 {
    let a = mem_index(load_address(i));
    match i.decoded.opcode_type {
        InstrOpcode::LB => sign_extend(m[a] as nat, 1),
        InstrOpcode::LBU => m[a] as u64,
        InstrOpcode::LH => sign_extend(le_val(m, a, 2), 2),
        InstrOpcode::LHU => le_val(m, a, 2) as u64,
        InstrOpcode::LW => sign_extend(le_val(m, a, 4), 4),
        InstrOpcode::LWU => le_val(m, a, 4) as u64,
        _ => le_val(m, a, 8) as u64,
    }
}

/// The memory after a store writes `rs2` at its address.
pub open spec fn store_result(i: Instr, m: Seq<u8>) -> Seq<u8> {
    store_bytes(m, mem_index(store_address(i)), access_width(i.decoded.opcode_type), i.rs2_data)
}

/// Whether the unit takes the request now.
pub open spec fn lsu_takes(rdy: bool, req: (bool, Instr)) -> bool {
    rdy && req.0 && (req.1.decoded.is_st || req.1.decoded.is_ld)
}

/// The instruction after the unit handles it: a load gets the loaded value as its
/// write-back value.
pub open spec fn lsu_exec(i: Instr, m: Seq<u8>) -> Instr {
    if i.decoded.is_ld {
        Instr { wb_vld: true, wb_data: load_value(i, m), ..i }
    } else {
        i
    }
}

/// The unit's queue after `req` is offered with memory `m`.
pub open spec fn lsu_req(v: FifoView<Instr>, req: (bool, Instr), m: Seq<u8>) -> FifoView<Instr> {
    if lsu_takes(v.rdy, req) {
        fifo_req(v, (true, lsu_exec(req.1, m)))
    } else {
        v
    }
}

/// Timing from reset: a unit that is empty and ready, as `new` builds it, takes a
/// valid load or store and shows it, performed on memory `m`, exactly its delay
/// later, and from then on until it is taken.
pub proof fn lemma_lsu_delay(v: FifoView<Instr>, req: (bool, Instr), m: Seq<u8>, n: nat)
    requires
        v.items.len() == 0,
        v.delays.len() == 0,
        v.cap > 0,
        v.options.len() > 0,
        v.rdy,
        req.0,
        req.1.decoded.is_ld || req.1.decoded.is_st,
    ensures
        fifo_resp(fifo_tik_n(lsu_req(v, req, m), n)) == (n >= v.options[0], lsu_exec(req.1, m)),
{
    lemma_fifo_delay(v, lsu_exec(req.1, m), n);
}

/// The memory after `req` is offered: a store that is taken writes it.
pub open spec fn lsu_mem(v: FifoView<Instr>, req: (bool, Instr), m: Seq<u8>) -> Seq<u8> {
    if lsu_takes(v.rdy, req) && !req.1.decoded.is_ld {
        store_result(req.1, m)
    } else {
        m
    }
}

/// Whether handling the request stays inside memory and names a memory operation.
pub open spec fn lsu_accepts(rdy: bool, req: (bool, Instr)) -> bool {
    lsu_takes(rdy, req) ==> {
        &&& (req.1.decoded.is_ld ==> is_load_op(req.1.decoded.opcode_type))
        &&& (!req.1.decoded.is_ld ==> is_store_op(req.1.decoded.opcode_type))
        &&& Memory::in_range(
            if req.1.decoded.is_ld {
                load_address(req.1)
            } else {
                store_address(req.1)
            },
            access_width(req.1.decoded.opcode_type),
        )
    }
}

/// The load-store unit: performs the access at once, then holds the instruction
/// in an eight-entry delay FIFO. The address is `rs1` plus the immediate.
pub struct FakeLSU {
    output: DelayFIFO<Instr>,
}

impl FakeLSU {
    /// The unit's output queue.
    pub closed spec fn view(&self) -> FifoView<Instr> {
        self.output.view()
    }

    /// The output queue is well formed.
    pub closed spec fn queue_wf(&self) -> bool {
        self.output.wf()
    }

    /// The output queue is well formed.
    pub open spec fn wf(&self) -> bool {
        &&& self.queue_wf()
        &&& self.view().cap == 8
        &&& self.view().options.len() == 1
        &&& self.view().idle == instr_default()
    }

    /// A unit whose results wait one cycle.
    pub fn new() -> (r: Self)
        ensures
            r.wf(),
            r.view().items.len() == 0,
            r.view().delays.len() == 0,
            r.view().rdy,
            r.view().options == seq![1u16],
    {
        let output = DelayFIFO::new(8, vec![1]);
        FakeLSU { output }
    }

    fn load(&self, instr: &Instr, mem: &Memory) -> (r: u64)
        requires
            mem.wf(),
            is_load_op(instr.decoded.opcode_type),
            Memory::in_range(load_address(*instr), access_width(instr.decoded.opcode_type)),
        ensures
            r == load_value(*instr, mem.bytes()),
    {
        let imm = sext(instr.decoded.immi as u64, 11);
        proof {
            lemma_wrapping_u64(instr.rs1_data, imm);
        }
        let addr = instr.rs1_data.wrapping_add(imm);
        match instr.decoded.opcode_type {
            InstrOpcode::LB => mem.lb(addr),
            InstrOpcode::LBU => mem.lbu(addr),
            InstrOpcode::LH => mem.lh(addr),
            InstrOpcode::LHU => mem.lhu(addr),
            InstrOpcode::LW => mem.lw(addr),
            InstrOpcode::LWU => mem.lwu(addr),
            _ => mem.ld(addr),
        }
    }

    fn store(&mut self, instr: &Instr, mem: &mut Memory)
        requires
            old(mem).wf(),
            is_store_op(instr.decoded.opcode_type),
            Memory::in_range(store_address(*instr), access_width(instr.decoded.opcode_type)),
        ensures
            final(mem).wf(),
            final(mem).bytes() == store_result(*instr, old(mem).bytes()),
            final(mem).done_flag() == old(mem).done_flag(),
            *final(self) == *old(self),
    {
        let imm = sext(instr.decoded.imms as u64, 11);
        proof {
            lemma_wrapping_u64(instr.rs1_data, imm);
        }
        let addr = instr.rs1_data.wrapping_add(imm);
        match instr.decoded.opcode_type {
            InstrOpcode::SB => mem.sb(addr, instr.rs2_data),
            InstrOpcode::SH => mem.sh(addr, instr.rs2_data),
            InstrOpcode::SW => mem.sw(addr, instr.rs2_data),
            _ => mem.sd(addr, instr.rs2_data),
        }
    }

    /// When the unit last reported ready and a valid load or store is offered,
    /// performs the access and queues the instruction; otherwise nothing changes.
    pub fn req_i(&mut self, req: (bool, Instr), mem: &mut Memory)
        requires
            old(self).wf(),
            old(mem).wf(),
            lsu_accepts(old(self).view().rdy, req),
        ensures
            final(self).wf(),
            final(mem).wf(),
            final(mem).done_flag() == old(mem).done_flag(),
            final(self).view() == lsu_req(old(self).view(), req, old(mem).bytes()),
            final(mem).bytes() == lsu_mem(old(self).view(), req, old(mem).bytes()),
    {
        if self.rdy_o() && req.0 && (req.1.decoded.is_st || req.1.decoded.is_ld) {
            let mut instr = req.1;
            if instr.decoded.is_ld {
                let val = self.load(&instr, mem);
                instr.wb_vld = true;
                instr.wb_data = val;
            } else {
                self.store(&instr, mem);
            }
            self.output.req_i((true, instr));
        }
    }

    /// The ready flag the unit last reported.
    pub fn rdy_o(&self) -> (r: bool)
        requires
            self.wf(),
        ensures
            r == self.view().rdy,
    {
        self.output.rdy_o()
    }

    /// The unit's response.
    pub fn resp_o(&self) -> (r: (bool, Instr))
        requires
            self.wf(),
        ensures
            r == fifo_resp(self.view()),
    {
        self.output.resp_o()
    }

    /// Tells the unit whether its response is taken.
    pub fn rdy_i(&mut self, rdy: bool)
        requires
            old(self).wf(),
        ensures
            final(self).wf(),
            final(self).view() == fifo_pop(old(self).view(), rdy),
    {
        self.output.rdy_i(rdy);
    }
}

impl CtrlSignals for FakeLSU {
    open spec fn ctrl_inv(&self) -> bool {
        self.wf()
    }

    open spec fn tik_ok(&self) -> bool {
        true
    }

    fn tik(&mut self)
        ensures
            final(self).view() == fifo_tik(old(self).view()),
    {
        self.output.tik();
    }

    fn rst(&mut self, rst: bool)
        ensures
            final(self).view() == fifo_rst(old(self).view(), rst),
    {
        self.output.rst(rst);
    }

    fn flush(&mut self, rst: bool)
        ensures
            final(self).view() == fifo_rst(old(self).view(), rst),
    {
        self.output.flush(rst);
    }
}

} // verus!
