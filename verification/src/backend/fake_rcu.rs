use vstd::prelude::*;
use crate::buffers::fifo::DelayFIFO;
use crate::buffers::fifo::FifoView;
use crate::buffers::fifo::fifo_req;
use crate::buffers::fifo::fifo_resp;
use crate::buffers::fifo::fifo_pop;
use crate::buffers::fifo::fifo_tik;
use crate::buffers::fifo::fifo_rst;
use crate::buffers::mux::Mux;
use crate::buffers::mux::valid_reqs;
use crate::cfg::backend_cfg::RCU_ROB_SIZE;
use crate::cfg::backend_cfg::RCU_RETIRE_BUFFER_SIZE;
use crate::cfg::backend_cfg::FU_NUM;
use crate::cfg::backend_cfg::FU_COMMIT_NUM;
use crate::interface::CtrlSignals;
use crate::interface::Interface;
use crate::instr::Instr;
use crate::instr::instr_default;
use crate::instr::reg_fields_ok;
use crate::instr::intsr_type::InstrType;
use crate::memory::regfiles::ARF;
use crate::memory::regfiles::reg_value;
use crate::memory::regfiles::busy_value;

verus! {

/// What the retire-and-commit unit holds: the queue of instructions waiting to
/// issue, the queue of committed instructions, and the redirect it reports.
pub struct RcuView {
    pub output: FifoView<Instr>,
    pub commit: FifoView<Instr>,
    pub branch: (bool, u64),
    pub flush: bool,
}

/// Whether an instruction of this format writes its destination register.
pub open spec fn writes_rd(t: InstrType) -> bool {
    t == InstrType::R || t == InstrType::U || t == InstrType::I || t == InstrType::J
}

/// Whether the source registers an instruction of this format reads are free.
pub open spec fn issue_ready(i: Instr, busy: Map<usize, bool>) -> bool {
    match i.decoded.instr_type {
        InstrType::R | InstrType::S | InstrType::B => !busy_value(busy, i.decoded.rs1)
            && !busy_value(busy, i.decoded.rs2),
        InstrType::I => !busy_value(busy, i.decoded.rs1),
        _ => true,
    }
}

/// What the issue stage offers for the waiting instruction `h`: the instruction
/// with its operands read from the register file, or an invalid default
/// instruction when its sources are busy.
pub open spec fn offer_issue(h: (bool, Instr), regs: Seq<u64>, busy: Map<usize, bool>) -> (bool, Instr) {
    if issue_ready(h.1, busy) {
        (
            h.0,
            Instr {
                rs1_data: reg_value(regs, h.1.decoded.rs1),
                rs2_data: reg_value(regs, h.1.decoded.rs2),
                ..h.1
            },
        )
    } else {
        (false, instr_default())
    }
}

/// What the unit offers for issue: the oldest waiting instruction with its operands
/// read from the register file, or an invalid default instruction when its sources
/// are busy.
pub open spec fn rcu_issue(v: RcuView, regs: Seq<u64>, busy: Map<usize, bool>) -> (bool, Instr) {
    offer_issue(fifo_resp(v.output), regs, busy)
}

/// The busy flags after an instruction of format `t` marks `rd` with `busy`.
pub open spec fn mark_busy(busy_flags: Map<usize, bool>, i: Instr, busy: bool) -> Map<usize, bool> {
    if writes_rd(i.decoded.instr_type) && i.decoded.rd != 0 {
        busy_flags.insert(i.decoded.rd as usize, busy)
    } else {
        busy_flags
    }
}

/// Whether the offered instruction leaves the issue queue when the consumer
/// answers `rdy`: its sources must be free.
pub open spec fn rcu_ready(v: RcuView, rdy: bool, busy: Map<usize, bool>) -> bool {
    rdy && issue_ready(fifo_resp(v.output).1, busy)
}

/// The unit after the consumer answers `rdy`.
pub open spec fn rcu_take(v: RcuView, rdy: bool, busy: Map<usize, bool>) -> RcuView {
    RcuView { output: fifo_pop(v.output, rcu_ready(v, rdy, busy)), ..v }
}

/// The busy flags after the consumer answers `rdy`: an issued instruction marks its
/// destination busy.
pub open spec fn rcu_take_busy(v: RcuView, rdy: bool, busy: Map<usize, bool>) -> Map<usize, bool> {
    if rcu_ready(v, rdy, busy) && fifo_resp(v.output).0 {
        mark_busy(busy, fifo_resp(v.output).1, true)
    } else {
        busy
    }
}

/// The request the commit arbiter picks: the first valid one, or an invalid
/// default instruction.
pub open spec fn commit_pick(comm: Seq<(bool, Instr)>) -> (bool, Instr) {
    if valid_reqs(comm).len() > 0 {
        valid_reqs(comm)[0]
    } else {
        (false, instr_default())
    }
}

/// Whether the picked instruction is committed: it is valid and the commit queue
/// last reported ready.
pub open spec fn commit_happens(v: RcuView, comm: Seq<(bool, Instr)>) -> bool {
    commit_pick(comm).0 && v.commit.rdy
}

/// Which commit requests are taken: the first valid one.
pub open spec fn commit_taken(comm: Seq<(bool, Instr)>, k: int) -> bool {
    comm[k].0 && valid_reqs(comm.take(k)).len() < 1
}

/// The register values after a commit.
pub open spec fn commit_regs(v: RcuView, comm: Seq<(bool, Instr)>, regs: Seq<u64>) -> Seq<u64> {
    let i = commit_pick(comm).1;
    if commit_happens(v, comm) && !i.exception_vld && i.wb_vld && i.decoded.rd != 0 {
        regs.update(i.decoded.rd as int, i.wb_data)
    } else {
        regs
    }
}

/// The busy flags after a commit: the destination of a committed instruction is
/// freed.
pub open spec fn commit_busy(v: RcuView, comm: Seq<(bool, Instr)>, busy: Map<usize, bool>) -> Map<
    usize,
    bool,
> {
    let i = commit_pick(comm).1;
    if commit_happens(v, comm) && !i.exception_vld {
        mark_busy(busy, i, false)
    } else {
        busy
    }
}

/// The unit after a commit: a committed instruction is marked done and queued.
pub open spec fn rcu_commit(v: RcuView, comm: Seq<(bool, Instr)>) -> RcuView {
    if commit_happens(v, comm) {
        RcuView {
            commit: fifo_req(v.commit, (true, Instr { done: true, ..commit_pick(comm).1 })),
            ..v
        }
    } else {
        v
    }
}

/// The unit after one cycle: both queues count down, the oldest committed
/// instruction leaves, and a redirect is reported when it was mispredicted.
pub open spec fn rcu_tik(v: RcuView) -> RcuView {
    let c = fifo_tik(v.commit);
    let h = fifo_resp(c);
    let fl = h.0 && h.1.predict_fail;
    RcuView {
        output: fifo_tik(v.output),
        commit: fifo_pop(c, true),
        branch: if fl {
            (true, h.1.branch_pc)
        } else {
            (false, 0)
        },
        flush: fl,
    }
}

/// Issue, register commit and retire: instructions wait in one queue until their
/// source registers are free; results are written back to the register file in
/// commit order.
pub struct FakeRCU {
    output: DelayFIFO<Instr>,
    commit: DelayFIFO<Instr>,
    commit_mux: Mux<Instr>,
    branch: (bool, u64),
    flush: bool,
}

impl FakeRCU {
    pub closed spec fn view(&self) -> RcuView {
        RcuView {
            output: self.output.view(),
            commit: self.commit.view(),
            branch: self.branch,
            flush: self.flush,
        }
    }

    /// The unit's invariant: well-formed queues and arbiter, register numbers in
    /// range in every waiting instruction.
    pub closed spec fn parts_wf(&self) -> bool {
        &&& self.output.wf()
        &&& self.commit.wf()
        &&& self.commit_mux.wf()
        &&& self.commit_mux.inputs() == FU_NUM
        &&& self.commit_mux.outputs() == FU_COMMIT_NUM
    }

    /// The unit's invariant.
    pub open spec fn wf(&self) -> bool {
        &&& self.parts_wf()
        &&& self.view().output.cap == RCU_ROB_SIZE
        &&& self.view().commit.cap == RCU_RETIRE_BUFFER_SIZE
        &&& self.view().output.options.len() == 1
        &&& self.view().commit.options.len() == 1
        &&& self.view().output.idle == instr_default()
        &&& self.view().commit.idle == instr_default()
        &&& self.view().flush == self.view().branch.0
        &&& (!self.view().flush ==> self.view().branch == (false, 0u64))
        &&& forall|k: int|
            0 <= k < self.view().output.items.len() ==> reg_fields_ok(
                #[trigger] self.view().output.items[k],
            )
    }

    /// A unit whose waiting instructions wait `iss_delay` cycles and whose committed
    /// instructions wait `comm_delay` cycles.
    pub fn new(iss_delay: u16, comm_delay: u16) -> (r: Self)
        ensures
            r.wf(),
            r.view().output.items.len() == 0,
            r.view().output.delays.len() == 0,
            r.view().commit.items.len() == 0,
            r.view().commit.delays.len() == 0,
            r.view().output.rdy,
            r.view().commit.rdy,
            r.view().output.options == seq![iss_delay],
            r.view().commit.options == seq![comm_delay],
            r.view().branch == (false, 0u64),
            !r.view().flush,
    {
        FakeRCU {
            output: DelayFIFO::new(RCU_ROB_SIZE as u16, vec![iss_delay]),
            commit: DelayFIFO::new(RCU_RETIRE_BUFFER_SIZE as u16, vec![comm_delay]),
            commit_mux: Mux::new(FU_NUM as u8, FU_COMMIT_NUM as u8),
            branch: (false, 0),
            flush: false,
        }
    }

    /// Commits the first valid result of the functional units (branch, load-store,
    /// control-status, arithmetic): writes its value back, frees its destination,
    /// marks it done and queues it. Answers which units' results were taken.
    pub fn commit(&mut self, comm: Vec<(bool, Instr)>, arf: &mut ARF) -> (r: Vec<bool>)
        requires
            old(self).wf(),
            old(arf).wf(),
            comm@.len() == FU_NUM,
            forall|k: int| 0 <= k < comm@.len() ==> reg_fields_ok((#[trigger] comm@[k]).1),
        ensures
            final(self).wf(),
            final(arf).wf(),
            final(self).view() == rcu_commit(old(self).view(), comm@),
            final(arf).regs_view() == commit_regs(old(self).view(), comm@, old(arf).regs_view()),
            final(arf).busy_view() == commit_busy(old(self).view(), comm@, old(arf).busy_view()),
            r@.len() == FU_NUM,
            forall|k: int| 0 <= k < FU_NUM ==> #[trigger] r@[k] == commit_taken(comm@, k),
    {
        let ghost cv = comm@;
        self.commit_mux.req_i(comm);
        let g = self.gen_rdy_o();
        self.commit_mux.rdy_i(g);
        let resp = self.commit_mux.resp_o();
        let (vld, instr) = resp[0];
        proof {
            if valid_reqs(cv).len() == 0 {
                assert(instr == instr_default());
            } else {
                lemma_valid_reqs_member(cv, 0);
            }
        }
        if vld && self.commit.rdy_o() {
            if !instr.exception_vld {
                if instr.wb_vld {
                    arf.set(instr.decoded.rd, instr.wb_data);
                }
                self.set_free(&instr, arf);
            }
            let mut done = instr;
            done.done = true;
            self.commit.req_i((true, done));
        }
        self.commit_mux.rdy_o()
    }

    fn gen_rdy_o(&self) -> (r: Vec<bool>)
        requires
            self.wf(),
        ensures
            r@ == seq![self.view().commit.rdy],
    {
        let r = vec![self.commit.rdy_o()];
        r
    }

    fn iss_rdy(&self, arf: &ARF) -> (r: bool)
        requires
            self.wf(),
            arf.wf(),
        ensures
            r == issue_ready(fifo_resp(self.view().output).1, arf.busy_view()),
    {
        let head = self.output.resp_o().1;
        proof {
            if self.view().output.items.len() > 0 {
                assert(reg_fields_ok(self.view().output.items[0]));
            }
        }
        match head.decoded.instr_type {
            InstrType::R | InstrType::S | InstrType::B => {
                !arf.get_busy(head.decoded.rs1) && !arf.get_busy(head.decoded.rs2)
            },
            InstrType::I => !arf.get_busy(head.decoded.rs1),
            _ => true,
        }
    }

    fn set_busy(&self, instr: &Instr, arf: &mut ARF)
        requires
            old(arf).wf(),
            reg_fields_ok(*instr),
        ensures
            final(arf).wf(),
            final(arf).regs_view() == old(arf).regs_view(),
            final(arf).busy_view() == mark_busy(old(arf).busy_view(), *instr, true),
    {
        match instr.decoded.instr_type {
            InstrType::R | InstrType::U | InstrType::I | InstrType::J => {
                arf.set_busy(instr.decoded.rd, true);
            },
            _ => {},
        }
    }

    fn set_free(&self, instr: &Instr, arf: &mut ARF)
        requires
            old(arf).wf(),
            reg_fields_ok(*instr),
        ensures
            final(arf).wf(),
            final(arf).regs_view() == old(arf).regs_view(),
            final(arf).busy_view() == mark_busy(old(arf).busy_view(), *instr, false),
    {
        match instr.decoded.instr_type {
            InstrType::R | InstrType::U | InstrType::I | InstrType::J => {
                arf.set_busy(instr.decoded.rd, false);
            },
            _ => {},
        }
    }

    /// Whether a redirect-and-flush is requested.
    pub fn flush_o(&self) -> (r: bool)
        ensures
            r == self.view().flush,
    {
        self.flush
    }

    /// The redirect: whether there is one and where to.
    pub fn branch_o(&self) -> (r: (bool, u64))
        ensures
            r == self.view().branch,
    {
        self.branch
    }

    /// Offers an instruction to the issue queue.
    pub fn req_i(&mut self, req: (bool, Instr))
        requires
            old(self).wf(),
            reg_fields_ok(req.1),
        ensures
            final(self).wf(),
            final(self).view() == (RcuView {
                output: fifo_req(old(self).view().output, req),
                ..old(self).view()
            }),
    {
        self.output.req_i(req);
    }

    /// What the issue queue would answer after `req` is offered to it.
    pub fn issue_head_after(&self, req: (bool, Instr)) -> (r: (bool, Instr))
        requires
            self.wf(),
        ensures
            r == fifo_resp(fifo_req(self.view().output, req)),
    {
        self.output.resp_after_req(req)
    }

    /// What the commit queue would answer after `req` is offered to it and one
    /// clock cycle passes.
    pub fn commit_head_after(&self, req: (bool, Instr)) -> (r: (bool, Instr))
        requires
            self.wf(),
        ensures
            r == fifo_resp(fifo_tik(fifo_req(self.view().commit, req))),
    {
        self.commit.resp_after_req_tik(req)
    }

    /// Whether the commit queue last reported room.
    pub fn commit_rdy(&self) -> (r: bool)
        requires
            self.wf(),
        ensures
            r == self.view().commit.rdy,
    {
        self.commit.rdy_o()
    }

    /// Whether the issue queue last reported room.
    pub fn rdy_o(&self) -> (r: bool)
        requires
            self.wf(),
        ensures
            r == self.view().output.rdy,
    {
        self.output.rdy_o()
    }

    /// The instruction offered for issue, with its operands read from `arf`.
    pub fn resp_o(&self, arf: &ARF) -> (r: (bool, Instr))
        requires
            self.wf(),
            arf.wf(),
        ensures
            r == rcu_issue(self.view(), arf.regs_view(), arf.busy_view()),
            reg_fields_ok(r.1),
    {
        let (vld, mut instr) = self.output.resp_o();
        proof {
            if self.view().output.items.len() > 0 {
                assert(reg_fields_ok(self.view().output.items[0]));
            }
        }
        if self.iss_rdy(arf) {
            let rs1_data = arf.get(instr.decoded.rs1);
            let rs2_data = arf.get(instr.decoded.rs2);
            instr.rs1_data = rs1_data;
            instr.rs2_data = rs2_data;
            (vld, instr)
        } else {
            (false, Instr::default())
        }
    }

    /// Tells the unit whether the offered instruction is taken; it issues only when
    /// its sources are free, and an issued instruction marks its destination busy.
    pub fn rdy_i(&mut self, rdy: bool, arf: &mut ARF)
        requires
            old(self).wf(),
            old(arf).wf(),
        ensures
            final(self).wf(),
            final(arf).wf(),
            final(arf).regs_view() == old(arf).regs_view(),
            final(arf).busy_view() == rcu_take_busy(old(self).view(), rdy, old(arf).busy_view()),
            final(self).view() == rcu_take(old(self).view(), rdy, old(arf).busy_view()),
    {
        let ready = rdy && self.iss_rdy(arf);
        let (vld, head) = self.output.resp_o();
        proof {
            if self.view().output.items.len() > 0 {
                assert(reg_fields_ok(self.view().output.items[0]));
            }
        }
        if ready && vld {
            self.set_busy(&head, arf);
        }
        self.output.rdy_i(ready);
        proof {
            assert forall|k: int| 0 <= k < self.view().output.items.len() implies reg_fields_ok(
                #[trigger] self.view().output.items[k],
            ) by {
                assert(self.view().output.items[k] == old(self).view().output.items[k + (
                old(self).view().output.items.len() - self.view().output.items.len())]);
            }
        }
    }
}

proof fn lemma_valid_reqs_member(s: Seq<(bool, Instr)>, k: int)
    requires
        0 <= k < valid_reqs(s).len(),
    ensures
        valid_reqs(s)[k].0,
        exists|j: int| 0 <= j < s.len() && s[j] == valid_reqs(s)[k],
    decreases s.len(),
{
    if s.len() > 0 {
        if k < valid_reqs(s.drop_last()).len() {
            lemma_valid_reqs_member(s.drop_last(), k);
            let j = choose|j: int| 0 <= j < s.drop_last().len() && s.drop_last()[j] == valid_reqs(s.drop_last())[k];
            assert(s[j] == valid_reqs(s)[k]);
        } else {
            assert(s[s.len() - 1] == valid_reqs(s)[k]);
        }
    }
}

impl CtrlSignals for FakeRCU {
    open spec fn ctrl_inv(&self) -> bool {
        self.wf()
    }

    /// The committed instruction that becomes visible this cycle must carry no
    /// exception.
    open spec fn tik_ok(&self) -> bool {
        let h = fifo_resp(fifo_tik(self.view().commit));
        h.0 ==> !h.1.exception_vld
    }

    fn tik(&mut self)
        ensures
            final(self).view() == rcu_tik(old(self).view()),
    {
        self.output.tik();
        self.commit.tik();
        let (vld, head) = self.commit.resp_o();
        if vld && head.predict_fail {
            self.flush = true;
            self.branch = (true, head.branch_pc);
        } else {
            self.flush = false;
            self.branch = (false, 0);
        }
        self.commit.rdy_i(true);
    }

    /// Empties both queues; the redirect is kept.
    fn rst(&mut self, rst: bool)
        ensures
            final(self).view() == (RcuView {
                output: fifo_rst(old(self).view().output, rst),
                commit: fifo_rst(old(self).view().commit, rst),
                ..old(self).view()
            }),
    {
        self.output.rst(rst);
        self.commit.rst(rst);
    }

    /// The same as a reset.
    fn flush(&mut self, rst: bool)
        ensures
            final(self).view() == (RcuView {
                output: fifo_rst(old(self).view().output, rst),
                commit: fifo_rst(old(self).view().commit, rst),
                ..old(self).view()
            }),
    {
        self.output.flush(rst);
        self.commit.flush(rst);
    }
}

} // verus!
