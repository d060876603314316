use vstd::prelude::*;
use crate::buffers::fifo::DelayFIFO;
use crate::buffers::fifo::FifoView;
use crate::buffers::fifo::fifo_req;
use crate::buffers::fifo::fifo_resp;
use crate::buffers::fifo::fifo_pop;
use crate::buffers::fifo::fifo_tik;
use crate::buffers::fifo::fifo_rst;
use crate::buffers::fifo::fifo_tik_n;
use crate::buffers::fifo::lemma_fifo_delay;
use crate::interface::CtrlSignals;
use crate::interface::Interface;
use crate::instr::Instr;
use crate::instr::instr_default;
use crate::memory::memory::Memory;
use crate::memory::memory::le_val;
use crate::memory::memory::mem_index;

verus! {

/// The instruction word stored at `pc`: its four bytes, little-endian.
pub open spec fn word_at(m: Seq<u8>, pc: u64) -> u32 {
    le_val(m, mem_index(pc), 4) as u32
}

/// The output queue after `req` is offered: the instruction, with the word read at
/// its program counter, is offered to the queue.
pub open spec fn fetch2_req(v: FifoView<Instr>, req: (bool, Instr), m: Seq<u8>) -> FifoView<Instr> {
    fifo_req(v, (req.0, Instr { raw_vld: true, raw: word_at(m, req.1.pc), ..req.1 }))
}

/// Timing from reset: a stage that is empty, as `new` builds it, takes a valid
/// instruction and shows it, with the word at its program counter, exactly its
/// delay later, and from then on until it is taken.
pub proof fn lemma_fetch2_delay(v: FifoView<Instr>, req: (bool, Instr), m: Seq<u8>, n: nat)
    requires
        v.items.len() == 0,
        v.delays.len() == 0,
        v.cap > 0,
        v.options.len() > 0,
        req.0,
    ensures
        fifo_resp(fifo_tik_n(fetch2_req(v, req, m), n)) == (n >= v.options[0], Instr {
            raw_vld: true,
            raw: word_at(m, req.1.pc),
            ..req.1
        }),
{
    lemma_fifo_delay(v, Instr { raw_vld: true, raw: word_at(m, req.1.pc), ..req.1 }, n);
}

/// The second fetch stage: it reads the instruction word from memory.
pub struct Fetch2 {
    output: DelayFIFO<Instr>,
}

impl Fetch2 {
    /// The stage's output queue.
    pub closed spec fn view(&self) -> FifoView<Instr> {
        self.output.view()
    }

    /// The output queue is well formed.
    pub closed spec fn queue_wf(&self) -> bool {
        self.output.wf()
    }

    /// The stage's invariant: an eight-entry queue with a one-cycle delay that
    /// answers the default instruction when empty.
    pub open spec fn wf(&self) -> bool {
        &&& self.queue_wf()
        &&& self.view().cap == 8
        &&& self.view().options == seq![1u16]
        &&& self.view().idle == instr_default()
    }

    /// An empty stage.
    pub fn new() -> (r: Self)
        ensures
            r.wf(),
            r.view().items.len() == 0,
            r.view().delays.len() == 0,
            r.view().rdy,
    {
        let options = vec![1u16];
        assert(options@ =~= seq![1u16]);
        Fetch2 { output: DelayFIFO::new(8, options) }
    }

    /// Reads the word at the instruction's program counter from `mem`, records it,
    /// and offers the instruction to the queue.
    pub fn req_i(&mut self, req: (bool, Instr), mem: &Memory)
        requires
            old(self).wf(),
            mem.wf(),
            Memory::in_range(req.1.pc, 4),
        ensures
            final(self).wf(),
            final(self).view() == fetch2_req(old(self).view(), req, mem.bytes()),
    {
        let w = mem.lw(req.1.pc);
        let raw = w as u32;
        proof {
            crate::memory::memory::lemma_word_truncates(mem.bytes(), mem_index(req.1.pc));
        }
        let mut instr = req.1;
        instr.raw_vld = true;
        instr.raw = raw;
        self.output.req_i((req.0, instr));
    }

    /// Whether the queue last reported room.
    pub fn rdy_o(&self) -> (r: bool)
        requires
            self.wf(),
        ensures
            r == self.view().rdy,
    {
        self.output.rdy_o()
    }

    /// The stage's response: the instruction at the head of its queue.
    pub fn resp_o(&self) -> (r: (bool, Instr))
        requires
            self.wf(),
        ensures
            r == fifo_resp(self.view()),
    {
        self.output.resp_o()
    }

    /// Tells the stage whether its response is taken.
    pub fn rdy_i(&mut self, rdy: bool)
        requires
            old(self).wf(),
        ensures
            final(self).wf(),
            final(self).view() == fifo_pop(old(self).view(), rdy),
    {
        self.output.rdy_i(rdy);
    }
}

impl CtrlSignals for Fetch2 {
    open spec fn ctrl_inv(&self) -> bool {
        self.wf()
    }

    open spec fn tik_ok(&self) -> bool {
        true
    }

    fn tik(&mut self)
        ensures
            final(self).view() == fifo_tik(old(self).view()),
    {
        self.output.tik();
    }

    fn rst(&mut self, rst: bool)
        ensures
            final(self).view() == fifo_rst(old(self).view(), rst),
    {
        self.output.rst(rst);
    }

    fn flush(&mut self, rst: bool)
        ensures
            final(self).view() == fifo_rst(old(self).view(), rst),
    {
        self.output.flush(rst)
    }
}

} // verus!
