use vstd::prelude::*;
use crate::buffers::fifo::DelayFIFO;
use crate::buffers::fifo::FifoView;
use crate::buffers::fifo::fifo_req;
use crate::buffers::fifo::fifo_resp;
use crate::buffers::fifo::fifo_pop;
use crate::buffers::fifo::fifo_tik;
use crate::buffers::fifo::fifo_rst;
use crate::buffers::fifo::fifo_tik_n;
use crate::buffers::fifo::lemma_fifo_delay;
use crate::buffers::mux::Mux;
use crate::buffers::mux::valid_reqs;
use crate::buffers::mux::lemma_valid_reqs_valid;
use crate::interface::CtrlSignals;
use crate::interface::Interface;
use crate::instr::Instr;
use crate::instr::instr_at;
use crate::instr::instr_default;
use crate::bpu::BPU;
use crate::bpu::pht::PFSM;
use crate::cfg::frontend_cfg::BTB_PC_WIDTH;
use crate::cfg::frontend_cfg::BTB_PC_LOW;
use crate::cfg::frontend_cfg::GSHARE_HISTORY_WIDTH;
use crate::cfg::frontend_cfg::GSHARE_PC_WIDTH;
use crate::cfg::frontend_cfg::GSHARE_PC_LOW;
use crate::cfg::frontend_cfg::GSHARE_PC_DO_HASH;

verus! {

/// The first valid program counter among the offered ones, if any.
pub open spec fn first_valid_pc(reqs: Seq<(bool, u64)>) -> Option<u64> {
    if valid_reqs(reqs).len() > 0 {
        Some(valid_reqs(reqs)[0].1)
    } else {
        None
    }
}

/// The output queue after the program counters `reqs` are offered: when one of
/// them is valid and the queue last reported room, a fresh instruction at the first
/// valid one is queued.
pub open spec fn fetch1_pc(v: FifoView<Instr>, reqs: Seq<(bool, u64)>) -> FifoView<Instr> {
    match first_valid_pc(reqs) {
        Some(pc) => if v.rdy {
            fifo_req(v, (true, instr_at(pc)))
        } else {
            v
        },
        None => v,
    }
}

/// Whether the program counter on port `i` is the one taken: it is valid and no
/// valid one comes before it.
pub open spec fn pc_taken(reqs: Seq<(bool, u64)>, i: int) -> bool {
    reqs[i].0 && valid_reqs(reqs.take(i)).len() < 1
}

/// Timing from reset: a stage that is empty and ready, as `new` builds it, offered
/// program counters of which one is valid, shows a fresh instruction at the first
/// valid one exactly its delay later, and from then on until it is taken.
pub proof fn lemma_fetch1_delay(v: FifoView<Instr>, reqs: Seq<(bool, u64)>, pc: u64, n: nat)
    requires
        v.items.len() == 0,
        v.delays.len() == 0,
        v.cap > 0,
        v.options.len() > 0,
        v.rdy,
        first_valid_pc(reqs) == Some(pc),
    ensures
        fifo_resp(fifo_tik_n(fetch1_pc(v, reqs), n)) == (n >= v.options[0], instr_at(pc)),
{
    lemma_fifo_delay(v, instr_at(pc), n);
}

/// Queuing a fresh instruction keeps every queued instruction's register numbers
/// in range.
pub proof fn lemma_fetch1_pc_keeps_regs_ok(v: FifoView<Instr>, reqs: Seq<(bool, u64)>)
    requires
        crate::backend::queue_regs_ok(v),
    ensures
        crate::backend::queue_regs_ok(fetch1_pc(v, reqs)),
{
    match first_valid_pc(reqs) {
        Some(pc) => {
            if v.rdy {
                crate::backend::lemma_push_keeps_regs_ok(v, (true, instr_at(pc)));
            }
        },
        None => {},
    }
}

/// The first fetch stage: it chooses the next program counter among its inputs,
/// in priority order, and starts an instruction there.
pub struct Fetch1 {
    pc_mux: Mux<u64>,
    output: DelayFIFO<Instr>,
    bpu: BPU,
}

impl Fetch1 {
    /// The stage's output queue.
    pub closed spec fn view(&self) -> FifoView<Instr> {
        self.output.view()
    }

    /// The program counters last offered.
    pub closed spec fn pc_reqs(&self) -> Seq<(bool, u64)> {
        self.pc_mux.reqs()
    }

    /// The number of program-counter inputs.
    pub closed spec fn ports(&self) -> nat {
        self.pc_mux.inputs()
    }

    /// The parts are well formed.
    pub closed spec fn parts_wf(&self) -> bool {
        &&& self.pc_mux.wf()
        &&& self.pc_mux.outputs() == 1
        &&& self.output.wf()
        &&& self.bpu.wf()
    }

    /// The stage's invariant: a one-entry queue with a one-cycle delay that answers
    /// the default instruction when empty.
    pub open spec fn wf(&self) -> bool {
        &&& self.parts_wf()
        &&& self.view().cap == 1
        &&& self.view().options == seq![1u16]
        &&& self.view().idle == instr_default()
    }

    /// A stage with `pc_i_size` program-counter inputs, none valid.
    pub fn new(pc_i_size: u8) -> (r: Self)
        ensures
            r.wf(),
            r.ports() == pc_i_size,
            r.pc_reqs().len() == pc_i_size,
            r.view().items.len() == 0,
            r.view().delays.len() == 0,
            r.view().rdy,
            forall|i: int| 0 <= i < pc_i_size ==> !(#[trigger] r.pc_reqs()[i]).0,
    {
        let options = vec![1u16];
        assert(options@ =~= seq![1u16]);
        let output = DelayFIFO::new(1, options);
        let bpu = BPU::new(
            BTB_PC_WIDTH,
            BTB_PC_LOW,
            BTB_PC_WIDTH,
            GSHARE_HISTORY_WIDTH as u32,
            GSHARE_PC_WIDTH as u32,
            GSHARE_PC_LOW,
            GSHARE_PC_DO_HASH,
            PFSM::default(),
        );
        Fetch1 { pc_mux: Mux::new(pc_i_size, 1), output, bpu }
    }

    /// Offers one program counter per input. When the output queue last reported
    /// room, an instruction at the first valid one is queued. Tells, per input,
    /// whether its program counter is the one taken.
    pub fn pc_i(&mut self, pc_i: Vec<(bool, u64)>) -> (r: Vec<bool>)
        requires
            old(self).wf(),
            pc_i@.len() == old(self).ports(),
        ensures
            final(self).wf(),
            final(self).ports() == old(self).ports(),
            final(self).pc_reqs() == pc_i@,
            final(self).view() == fetch1_pc(old(self).view(), pc_i@),
            r@.len() == pc_i@.len(),
            forall|i: int| 0 <= i < pc_i@.len() ==> #[trigger] r@[i] == pc_taken(pc_i@, i),
    {
        let ghost reqs = pc_i@;
        self.pc_mux.req_i(pc_i);
        let rdy = self.gen_rdy_o();
        self.pc_mux.rdy_i(rdy);
        let resp = self.pc_mux.resp_o();
        let first = resp[0];
        if first.0 && self.output.rdy_o() {
            let mut instr = Instr::new(first.1);
            instr.predicted_direction = false;
            instr.predicted_pc = 0;
            self.output.req_i((true, instr));
        }
        proof {
            lemma_valid_reqs_valid(reqs);
            if valid_reqs(reqs).len() == 0 {
                assert(!first.0);
            } else {
                assert(first == valid_reqs(reqs)[0]);
            }
        }
        self.pc_mux.rdy_o()
    }

    fn gen_rdy_o(&self) -> (r: Vec<bool>)
        requires
            self.wf(),
        ensures
            r@ == seq![self.view().rdy],
    {
        let r = vec![self.output.rdy_o()];
        proof {
            assert(r@ =~= seq![self.view().rdy]);
        }
        r
    }

    /// The stage's response: the instruction at the head of its queue.
    pub fn resp_o(&self) -> (r: (bool, Instr))
        requires
            self.wf(),
        ensures
            r == fifo_resp(self.view()),
    {
        self.output.resp_o()
    }

    /// Tells the stage whether its response is taken.
    pub fn rdy_i(&mut self, rdy: bool)
        requires
            old(self).wf(),
        ensures
            final(self).wf(),
            final(self).ports() == old(self).ports(),
            final(self).pc_reqs() == old(self).pc_reqs(),
            final(self).view() == fifo_pop(old(self).view(), rdy),
    {
        self.output.rdy_i(rdy);
    }
}

impl CtrlSignals for Fetch1 {
    open spec fn ctrl_inv(&self) -> bool {
        self.wf()
    }

    open spec fn tik_ok(&self) -> bool {
        true
    }

    fn tik(&mut self)
        ensures
            final(self).ports() == old(self).ports(),
            final(self).pc_reqs() == old(self).pc_reqs(),
            final(self).view() == fifo_tik(old(self).view()),
    {
        self.output.tik();
    }

    fn rst(&mut self, rst: bool)
        ensures
            final(self).ports() == old(self).ports(),
            final(self).pc_reqs() == old(self).pc_reqs(),
            final(self).view() == fifo_rst(old(self).view(), rst),
    {
        self.output.rst(rst);
    }

    fn flush(&mut self, rst: bool)
        ensures
            final(self).ports() == old(self).ports(),
            final(self).pc_reqs() == old(self).pc_reqs(),
            final(self).view() == fifo_rst(old(self).view(), rst),
    {
        self.output.flush(rst)
    }
}

} // verus!
