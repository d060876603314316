pub mod alu;
pub mod bru;
pub mod csr;
pub mod fake_lsu;
pub mod fake_rcu;
pub mod mul;

use vstd::prelude::*;
use crate::buffers::fifo::FifoView;
use crate::buffers::fifo::fifo_resp;
use crate::buffers::fifo::fifo_pop;
use crate::buffers::fifo::fifo_tik;
use crate::buffers::fifo::fifo_rst;
use crate::backend::alu::ALU;
use crate::backend::alu::alu_req;
use crate::backend::bru::BRU;
use crate::backend::bru::bru_req;
use crate::backend::csr::CSR;
use crate::backend::csr::csr_req;
use crate::backend::fake_lsu::FakeLSU;
use crate::backend::fake_lsu::lsu_req;
use crate::backend::fake_lsu::lsu_mem;
use crate::backend::fake_lsu::lsu_accepts;
use crate::backend::fake_rcu::FakeRCU;
use crate::backend::fake_rcu::RcuView;
use crate::backend::fake_rcu::rcu_commit;
use crate::backend::fake_rcu::rcu_issue;
use crate::backend::fake_rcu::rcu_take;
use crate::backend::fake_rcu::rcu_take_busy;
use crate::backend::fake_rcu::rcu_tik;
use crate::backend::fake_rcu::commit_regs;
use crate::backend::fake_rcu::commit_busy;
use crate::backend::fake_rcu::commit_taken;
use crate::instr::Instr;
use crate::backend::fake_rcu::commit_pick;
use crate::backend::fake_rcu::commit_happens;
use crate::backend::fake_rcu::writes_rd;
use crate::backend::fake_rcu::issue_ready;
use crate::backend::fake_rcu::mark_busy;
use crate::backend::fake_rcu::offer_issue;
use crate::backend::fake_lsu::access_width;
use crate::instr::instr_default;
use crate::instr::intsr_type::InstrType;
use crate::instr::intsr_type::InstrOpcode;
use crate::instr::decoded_instr::alu_op;
use crate::instr::decoded_instr::csr_op;
use crate::instr::decoded_instr::load_op;
use crate::instr::decoded_instr::store_op;
use crate::instr::decoded_instr::branch_op;
use crate::memory::regfiles::reg_value;
use crate::memory::regfiles::busy_value;
use crate::cfg::memory_cfg::MEMORY_SIZE;
use crate::utils::sext;
use crate::utils::lemma_wrapping_u64;
use crate::instr::reg_fields_ok;
use crate::instr::decoded_instr::is_alu_op;
use crate::instr::decoded_instr::is_branch_op;
use crate::instr::decoded_instr::is_csr_op;
use crate::interface::CtrlSignals;
use crate::interface::Interface;
use crate::memory::memory::Memory;
use crate::memory::regfiles::ARF;

verus! {

/// What the back end holds: the queues of its four functional units and the state
/// of its issue-and-commit unit.
pub struct BackendView {
    pub alu: FifoView<Instr>,
    pub lsu: FifoView<Instr>,
    pub bru: FifoView<Instr>,
    pub csr: FifoView<Instr>,
    pub rcu: RcuView,
}

/// The results offered for commit, in priority order: branch, load-store,
/// control-status, arithmetic.
pub open spec fn commit_inputs(v: BackendView) -> Seq<(bool, Instr)> {
    seq![fifo_resp(v.bru), fifo_resp(v.lsu), fifo_resp(v.csr), fifo_resp(v.alu)]
}

/// The back end after the commit stage: the committed result leaves its unit.
pub open spec fn after_commit(v: BackendView) -> BackendView {
    let comm = commit_inputs(v);
    BackendView {
        bru: fifo_pop(v.bru, commit_taken(comm, 0)),
        lsu: fifo_pop(v.lsu, commit_taken(comm, 1)),
        csr: fifo_pop(v.csr, commit_taken(comm, 2)),
        alu: fifo_pop(v.alu, commit_taken(comm, 3)),
        rcu: rcu_commit(v.rcu, comm),
    }
}

/// The instruction the issue unit offers after the commit stage.
pub open spec fn issued(v: BackendView, regs: Seq<u64>, busy: Map<usize, bool>) -> (bool, Instr) {
    let comm = commit_inputs(v);
    rcu_issue(
        after_commit(v).rcu,
        commit_regs(v.rcu, comm, regs),
        commit_busy(v.rcu, comm, busy),
    )
}

/// The back end, busy flags and memory after the issued instruction `req` is
/// offered to the unit its class names (arithmetic first, then control-status or
/// system, then load-store, then branch) and the issue unit hears that unit's
/// ready flag.
pub open spec fn dispatch(w: BackendView, req: (bool, Instr), busy: Map<usize, bool>, m: Seq<u8>) -> (
    BackendView,
    Map<usize, bool>,
    Seq<u8>,
) {
    let d = req.1.decoded;
    if d.is_alu {
        let a = alu_req(w.alu, req);
        (
            BackendView { alu: a, rcu: rcu_take(w.rcu, a.rdy, busy), ..w },
            rcu_take_busy(w.rcu, a.rdy, busy),
            m,
        )
    } else if d.is_csr || d.is_syscall {
        let c = csr_req(w.csr, req);
        (
            BackendView { csr: c, rcu: rcu_take(w.rcu, c.rdy, busy), ..w },
            rcu_take_busy(w.rcu, c.rdy, busy),
            m,
        )
    } else if d.is_ld || d.is_st {
        let l = lsu_req(w.lsu, req, m);
        (
            BackendView { lsu: l, rcu: rcu_take(w.rcu, l.rdy, busy), ..w },
            rcu_take_busy(w.rcu, l.rdy, busy),
            lsu_mem(w.lsu, req, m),
        )
    } else if d.is_branch {
        let b = bru_req(w.bru, req);
        (
            BackendView { bru: b, rcu: rcu_take(w.rcu, b.rdy, busy), ..w },
            rcu_take_busy(w.rcu, b.rdy, busy),
            m,
        )
    } else {
        (w, busy, m)
    }
}

/// Every unit after one clock cycle.
pub open spec fn backend_clock(v: BackendView) -> BackendView {
    BackendView {
        alu: fifo_tik(v.alu),
        lsu: fifo_tik(v.lsu),
        bru: fifo_tik(v.bru),
        csr: fifo_tik(v.csr),
        rcu: rcu_tik(v.rcu),
    }
}

/// Every unit after a flush request.
pub open spec fn backend_flush(v: BackendView, rst: bool) -> BackendView {
    BackendView {
        alu: fifo_rst(v.alu, rst),
        lsu: fifo_rst(v.lsu, rst),
        bru: fifo_rst(v.bru, rst),
        csr: fifo_rst(v.csr, rst),
        rcu: RcuView {
            output: fifo_rst(v.rcu.output, rst),
            commit: fifo_rst(v.rcu.commit, rst),
            ..v.rcu
        },
    }
}

/// One cycle of the back end: when the issue unit reported a redirect everything
/// is flushed; otherwise one result is committed and one instruction issued.
/// Then every unit's clock ticks. Gives the new state, register values, busy
/// flags and memory.
pub open spec fn backend_step(v: BackendView, regs: Seq<u64>, busy: Map<usize, bool>, m: Seq<u8>) -> (
    BackendView,
    Seq<u64>,
    Map<usize, bool>,
    Seq<u8>,
) {
    if v.rcu.flush {
        (backend_clock(backend_flush(v, true)), regs, busy, m)
    } else {
        let comm = commit_inputs(v);
        let w = after_commit(v);
        let regs1 = commit_regs(v.rcu, comm, regs);
        let busy1 = commit_busy(v.rcu, comm, busy);
        let req = rcu_issue(w.rcu, regs1, busy1);
        let (w2, busy2, m2) = dispatch(w, req, busy1, m);
        (backend_clock(w2), regs1, busy2, m2)
    }
}

/// Whether the unit the issued instruction goes to can take it without failing.
pub open spec fn dispatch_ok(w: BackendView, req: (bool, Instr)) -> bool {
    let d = req.1.decoded;
    if d.is_alu {
        w.alu.rdy && req.0 && !req.1.exception_vld ==> is_alu_op(d.opcode_type)
    } else if d.is_csr || d.is_syscall {
        !req.1.exception_vld && w.csr.rdy && req.0 && d.is_csr ==> is_csr_op(d.opcode_type)
    } else if d.is_ld || d.is_st {
        lsu_accepts(w.lsu.rdy, req)
    } else if d.is_branch {
        w.bru.rdy && req.0 && !req.1.exception_vld ==> is_branch_op(d.opcode_type)
    } else {
        true
    }
}

/// The states from which a back-end cycle runs without failing: the issued
/// instruction suits its unit, and no committed instruction that becomes visible
/// carries an exception.
pub open spec fn backend_step_ok(v: BackendView, regs: Seq<u64>, busy: Map<usize, bool>) -> bool {
    !v.rcu.flush ==> {
        let comm = commit_inputs(v);
        let w = after_commit(v);
        let req = issued(v, regs, busy);
        let h = fifo_resp(fifo_tik(w.rcu.commit));
        &&& dispatch_ok(w, req)
        &&& (h.0 ==> !h.1.exception_vld)
    }
}

/// Whether every instruction in a queue names registers in range.
pub open spec fn queue_regs_ok(v: FifoView<Instr>) -> bool {
    forall|k: int| 0 <= k < v.items.len() ==> reg_fields_ok(#[trigger] v.items[k])
}

pub proof fn lemma_pop_keeps_regs_ok(v: FifoView<Instr>, rdy: bool)
    requires
        queue_regs_ok(v),
    ensures
        queue_regs_ok(fifo_pop(v, rdy)),
{
    assert forall|k: int| 0 <= k < fifo_pop(v, rdy).items.len() implies reg_fields_ok(
        #[trigger] fifo_pop(v, rdy).items[k],
    ) by {
        if fifo_resp(v).0 && rdy {
            assert(fifo_pop(v, rdy).items[k] == v.items[k + 1]);
        }
    }
}

pub proof fn lemma_push_keeps_regs_ok(v: FifoView<Instr>, req: (bool, Instr))
    requires
        queue_regs_ok(v),
        reg_fields_ok(req.1),
    ensures
        queue_regs_ok(crate::buffers::fifo::fifo_req(v, req)),
{
    let w = crate::buffers::fifo::fifo_req(v, req);
    assert forall|k: int| 0 <= k < w.items.len() implies reg_fields_ok(#[trigger] w.items[k]) by {
        if k < v.items.len() {
            assert(w.items[k] == v.items[k]);
        }
    }
}

/// Whether an instruction of format `t` writes its destination register.
fn writes_rd_exec(t: InstrType) -> (r: bool)
    ensures
        r == writes_rd(t),
{
    match t {
        InstrType::R | InstrType::U | InstrType::I | InstrType::J => true,
        _ => false,
    }
}

/// The number of bytes a load or store operation moves.
fn access_width_exec(op: InstrOpcode) -> (r: u64)
    ensures
        r == access_width(op),
{
    match op {
        InstrOpcode::LB | InstrOpcode::LBU | InstrOpcode::SB => 1,
        InstrOpcode::LH | InstrOpcode::LHU | InstrOpcode::SH => 2,
        InstrOpcode::LW | InstrOpcode::LWU | InstrOpcode::SW => 4,
        _ => 8,
    }
}

/// Whether `n` bytes from `address` lie inside the memory.
pub(crate) fn in_range_exec(address: u64, n: u64) -> (r: bool)
    requires
        n <= 8,
    ensures
        r == Memory::in_range(address, n as int),
{
    address % (MEMORY_SIZE as u64) + n <= MEMORY_SIZE as u64
}

/// Whether register `r` reads as busy once the committed instruction `i` (when
/// `wr`) has freed its destination.
fn busy_after(arf: &ARF, wr: bool, i: &Instr, r: u8) -> (b: bool)
    requires
        arf.wf(),
        r < 33,
        reg_fields_ok(*i),
    ensures
        b == busy_value(
            if wr {
                mark_busy(arf.busy_view(), *i, false)
            } else {
                arf.busy_view()
            },
            r,
        ),
{
    if r == 0 {
        false
    } else if wr && writes_rd_exec(i.decoded.instr_type) && i.decoded.rd != 0 && r == i.decoded.rd {
        false
    } else {
        arf.get_busy(r)
    }
}

/// The value register `r` reads once the committed instruction `i` (when `wr`)
/// has written its result back.
fn reg_after(arf: &ARF, wr: bool, i: &Instr, r: u8) -> (x: u64)
    requires
        arf.wf(),
        r < 33,
        reg_fields_ok(*i),
    ensures
        x == reg_value(
            if wr && i.wb_vld && i.decoded.rd != 0 {
                arf.regs_view().update(i.decoded.rd as int, i.wb_data)
            } else {
                arf.regs_view()
            },
            r,
        ),
{
    if r == 0 {
        0
    } else if wr && i.wb_vld && i.decoded.rd != 0 && r == i.decoded.rd {
        i.wb_data
    } else {
        arf.get(r)
    }
}

/// What the issue stage offers for the waiting instruction `hd` once the
/// committed instruction `i` (when `wr`) has written back and freed its
/// destination.
fn issue_head(arf: &ARF, wr: bool, i: &Instr, hd: (bool, Instr)) -> (r: (bool, Instr))
    requires
        arf.wf(),
        reg_fields_ok(*i),
        reg_fields_ok(hd.1),
    ensures
        r == offer_issue(
            hd,
            if wr && i.wb_vld && i.decoded.rd != 0 {
                arf.regs_view().update(i.decoded.rd as int, i.wb_data)
            } else {
                arf.regs_view()
            },
            if wr {
                mark_busy(arf.busy_view(), *i, false)
            } else {
                arf.busy_view()
            },
        ),
{
    let ghost busy1 = if wr {
        mark_busy(arf.busy_view(), *i, false)
    } else {
        arf.busy_view()
    };
    let ghost regs1 = if wr && i.wb_vld && i.decoded.rd != 0 {
        arf.regs_view().update(i.decoded.rd as int, i.wb_data)
    } else {
        arf.regs_view()
    };
    let d = hd.1.decoded;
    let b1 = busy_after(arf, wr, i, d.rs1);
    let b2 = busy_after(arf, wr, i, d.rs2);
    let ready = match d.instr_type {
        InstrType::R | InstrType::S | InstrType::B => !b1 && !b2,
        InstrType::I => !b1,
        _ => true,
    };
    assert(ready == issue_ready(hd.1, busy1));
    if ready {
        let v1 = reg_after(arf, wr, i, d.rs1);
        let v2 = reg_after(arf, wr, i, d.rs2);
        assert(v1 == reg_value(regs1, d.rs1));
        assert(v2 == reg_value(regs1, d.rs2));
        (hd.0, Instr { rs1_data: v1, rs2_data: v2, ..hd.1 })
    } else {
        (false, Instr::default())
    }
}

/// The back end after `req` is offered to its issue queue.
pub open spec fn backend_offered(v: BackendView, req: (bool, Instr)) -> BackendView {
    BackendView {
        rcu: RcuView { output: crate::buffers::fifo::fifo_req(v.rcu.output, req), ..v.rcu },
        ..v
    }
}

proof fn lemma_commit_pick4(comm: Seq<(bool, Instr)>)
    requires
        comm.len() == 4,
    ensures
        commit_pick(comm) == (if comm[0].0 {
            comm[0]
        } else if comm[1].0 {
            comm[1]
        } else if comm[2].0 {
            comm[2]
        } else if comm[3].0 {
            comm[3]
        } else {
            (false, instr_default())
        }),
{
    reveal_with_fuel(crate::buffers::mux::valid_reqs, 5);
    assert(comm.drop_last() =~= seq![comm[0], comm[1], comm[2]]);
    assert(comm.drop_last().drop_last() =~= seq![comm[0], comm[1]]);
    assert(comm.drop_last().drop_last().drop_last() =~= seq![comm[0]]);
    assert(seq![comm[0]].drop_last() =~= Seq::<(bool, Instr)>::empty());
}

/// The execution back end: issue and commit, an arithmetic unit, a load-store
/// unit, a branch unit and a control-status unit.
pub struct FakeBackend {
    alu: ALU,
    lsu: FakeLSU,
    bru: BRU,
    csr: CSR,
    rcu: FakeRCU,
}

impl FakeBackend {
    pub closed spec fn view(&self) -> BackendView {
        BackendView {
            alu: self.alu.view(),
            lsu: self.lsu.view(),
            bru: self.bru.view(),
            csr: self.csr.view(),
            rcu: self.rcu.view(),
        }
    }

    /// The back end's invariant.
    pub closed spec fn wf(&self) -> bool {
        &&& self.alu.wf()
        &&& self.lsu.wf()
        &&& self.bru.wf()
        &&& self.csr.wf()
        &&& self.rcu.wf()
        &&& queue_regs_ok(self.view().alu)
        &&& queue_regs_ok(self.view().lsu)
        &&& queue_regs_ok(self.view().bru)
        &&& queue_regs_ok(self.view().csr)
    }

    /// An empty back end whose units and queues all delay by one cycle.
    pub fn new() -> (r: Self)
        ensures
            r.wf(),
            r.view().alu.items.len() == 0,
            r.view().alu.delays.len() == 0,
            r.view().lsu.items.len() == 0,
            r.view().lsu.delays.len() == 0,
            r.view().bru.items.len() == 0,
            r.view().bru.delays.len() == 0,
            r.view().csr.items.len() == 0,
            r.view().csr.delays.len() == 0,
            r.view().rcu.output.items.len() == 0,
            r.view().rcu.output.delays.len() == 0,
            r.view().rcu.commit.items.len() == 0,
            r.view().rcu.commit.delays.len() == 0,
            !r.view().rcu.flush,
            r.view().rcu.branch == (false, 0u64),
            r.view().alu.rdy,
            r.view().lsu.rdy,
            r.view().bru.rdy,
            r.view().csr.rdy,
            r.view().rcu.output.rdy,
            r.view().rcu.commit.rdy,
            r.view().alu.options == seq![1u16],
            r.view().lsu.options == seq![1u16],
            r.view().bru.options == seq![1u16],
            r.view().csr.options == seq![1u16],
            r.view().rcu.output.options == seq![1u16],
            r.view().rcu.commit.options == seq![1u16],
    {
        FakeBackend {
            alu: ALU::new(1),
            lsu: FakeLSU::new(),
            bru: BRU::new(1),
            csr: CSR::new(1),
            rcu: FakeRCU::new(1, 1),
        }
    }

    /// The back end asks for a flush exactly when it reports a redirect, and with
    /// no flush asked for its redirect output is `(false, 0)`.
    pub proof fn lemma_flush_iff_redirect(&self)
        requires
            self.wf(),
        ensures
            self.view().rcu.flush == self.view().rcu.branch.0,
            !self.view().rcu.flush ==> self.view().rcu.branch == (false, 0u64),
    {
    }

    /// The result the commit stage would take: the first valid one among the
    /// units' answers.
    fn commit_choice(&self) -> (r: (bool, Instr))
        requires
            self.wf(),
        ensures
            r == commit_pick(commit_inputs(self.view())),
            reg_fields_ok(r.1),
    {
        let c0 = self.bru.resp_o();
        let c1 = self.lsu.resp_o();
        let c2 = self.csr.resp_o();
        let c3 = self.alu.resp_o();
        proof {
            lemma_commit_pick4(commit_inputs(self.view()));
            let w = self.view();
            if w.bru.items.len() > 0 { assert(reg_fields_ok(w.bru.items[0])); }
            if w.lsu.items.len() > 0 { assert(reg_fields_ok(w.lsu.items[0])); }
            if w.csr.items.len() > 0 { assert(reg_fields_ok(w.csr.items[0])); }
            if w.alu.items.len() > 0 { assert(reg_fields_ok(w.alu.items[0])); }
        }
        if c0.0 {
            c0
        } else if c1.0 {
            c1
        } else if c2.0 {
            c2
        } else if c3.0 {
            c3
        } else {
            (false, Instr::default())
        }
    }

    /// What the issue stage would offer after `req` joins its queue and the result
    /// `pick` is committed.
    fn issue_after_commit(&self, req: (bool, Instr), arf: &ARF, pick: (bool, Instr)) -> (r: (bool, Instr))
        requires
            self.wf(),
            arf.wf(),
            reg_fields_ok(req.1),
            reg_fields_ok(pick.1),
            pick == commit_pick(commit_inputs(self.view())),
        ensures
            r == issued(backend_offered(self.view(), req), arf.regs_view(), arf.busy_view()),
    {
        let ghost v = backend_offered(self.view(), req);
        let ghost comm = commit_inputs(v);
        assert(comm == commit_inputs(self.view()));
        let happens = pick.0 && self.rcu.commit_rdy();
        let i = pick.1;
        assert(happens == commit_happens(v.rcu, comm));
        let hd = self.rcu.issue_head_after(req);
        proof {
            if self.view().rcu.output.items.len() > 0 {
                assert(reg_fields_ok(self.view().rcu.output.items[0]));
            }
            assert(hd == fifo_resp(after_commit(v).rcu.output));
        }
        let wr = happens && !i.exception_vld;
        proof {
            assert(commit_busy(v.rcu, comm, arf.busy_view()) == (if wr {
                mark_busy(arf.busy_view(), i, false)
            } else {
                arf.busy_view()
            }));
            assert(commit_regs(v.rcu, comm, arf.regs_view()) == (if wr && i.wb_vld && i.decoded.rd != 0 {
                arf.regs_view().update(i.decoded.rd as int, i.wb_data)
            } else {
                arf.regs_view()
            }));
        }
        issue_head(arf, wr, &i, hd)
    }

    /// Whether the unit that `q` goes to can take it without failing.
    fn dispatch_check(&self, q: (bool, Instr)) -> (r: bool)
        requires
            self.wf(),
        ensures
            r == dispatch_ok(self.view(), q),
    {
        let qd = q.1.decoded;
        if qd.is_alu {
            !(self.alu.rdy_o() && q.0 && !q.1.exception_vld) || alu_op(qd.opcode_type)
        } else if qd.is_csr || qd.is_syscall {
            !(!q.1.exception_vld && self.csr.rdy_o() && q.0 && qd.is_csr) || csr_op(qd.opcode_type)
        } else if qd.is_ld || qd.is_st {
            if self.lsu.rdy_o() && q.0 {
                let imm = if qd.is_ld {
                    sext(qd.immi as u64, 11)
                } else {
                    sext(qd.imms as u64, 11)
                };
                proof {
                    lemma_wrapping_u64(q.1.rs1_data, imm);
                }
                let addr = q.1.rs1_data.wrapping_add(imm);
                let op_ok = if qd.is_ld {
                    load_op(qd.opcode_type)
                } else {
                    store_op(qd.opcode_type)
                };
                op_ok && in_range_exec(addr, access_width_exec(qd.opcode_type))
            } else {
                true
            }
        } else if qd.is_branch {
            !(self.bru.rdy_o() && q.0 && !q.1.exception_vld) || branch_op(qd.opcode_type)
        } else {
            true
        }
    }

    /// Whether a cycle of the back end, after `req` is offered to its issue queue,
    /// runs without failing: the instruction it would issue suits its unit, and no
    /// committed instruction that would become visible carries an exception.
    pub fn step_ok(&self, req: (bool, Instr), arf: &ARF) -> (r: bool)
        requires
            self.wf(),
            arf.wf(),
            reg_fields_ok(req.1),
        ensures
            r == backend_step_ok(backend_offered(self.view(), req), arf.regs_view(), arf.busy_view()),
    {
        let ghost v = backend_offered(self.view(), req);
        if self.rcu.flush_o() {
            return true;
        }
        let pick = self.commit_choice();
        let happens = pick.0 && self.rcu.commit_rdy();
        let done = Instr { done: true, ..pick.1 };
        let h = self.rcu.commit_head_after((happens, done));
        proof {
            assert(commit_inputs(v) == commit_inputs(self.view()));
            assert(h == fifo_resp(fifo_tik(after_commit(v).rcu.commit)));
        }
        if h.0 && h.1.exception_vld {
            return false;
        }
        let q = self.issue_after_commit(req, arf, pick);
        let ok = self.dispatch_check(q);
        proof {
            assert(dispatch_ok(after_commit(v), q) == dispatch_ok(self.view(), q));
        }
        ok
    }

    /// Whether the back end asks for a flush.
    pub fn flush_o(&self) -> (r: bool)
        ensures
            r == self.view().rcu.flush,
    {
        self.rcu.flush_o()
    }

    /// The redirect the back end reports.
    pub fn branch_o(&self) -> (r: (bool, u64))
        ensures
            r == self.view().rcu.branch,
    {
        self.rcu.branch_o()
    }

    /// Offers an instruction to the issue queue.
    pub fn req_i(&mut self, req: (bool, Instr))
        requires
            old(self).wf(),
            reg_fields_ok(req.1),
        ensures
            final(self).wf(),
            final(self).view() == (BackendView {
                rcu: RcuView {
                    output: crate::buffers::fifo::fifo_req(old(self).view().rcu.output, req),
                    ..old(self).view().rcu
                },
                ..old(self).view()
            }),
    {
        self.rcu.req_i(req);
    }

    fn commit_stage(&mut self, arf: &mut ARF)
        requires
            old(self).wf(),
            old(arf).wf(),
        ensures
            final(self).wf(),
            final(arf).wf(),
            final(self).view() == after_commit(old(self).view()),
            final(arf).regs_view() == commit_regs(
                old(self).view().rcu,
                commit_inputs(old(self).view()),
                old(arf).regs_view(),
            ),
            final(arf).busy_view() == commit_busy(
                old(self).view().rcu,
                commit_inputs(old(self).view()),
                old(arf).busy_view(),
            ),
    {
        let bru_resp = self.bru.resp_o();
        let lsu_resp = self.lsu.resp_o();
        let csr_resp = self.csr.resp_o();
        let alu_resp = self.alu.resp_o();
        let ghost comm = commit_inputs(old(self).view());
        let v = vec![bru_resp, lsu_resp, csr_resp, alu_resp];
        proof {
            assert(v@ == comm);
            let w = old(self).view();
            if w.bru.items.len() > 0 { assert(reg_fields_ok(w.bru.items[0])); }
            if w.lsu.items.len() > 0 { assert(reg_fields_ok(w.lsu.items[0])); }
            if w.csr.items.len() > 0 { assert(reg_fields_ok(w.csr.items[0])); }
            if w.alu.items.len() > 0 { assert(reg_fields_ok(w.alu.items[0])); }
        }
        let rdy = self.rcu.commit(v, arf);
        self.bru.rdy_i(rdy[0]);
        self.lsu.rdy_i(rdy[1]);
        self.csr.rdy_i(rdy[2]);
        self.alu.rdy_i(rdy[3]);
        proof {
            lemma_pop_keeps_regs_ok(old(self).view().bru, commit_taken(comm, 0));
            lemma_pop_keeps_regs_ok(old(self).view().lsu, commit_taken(comm, 1));
            lemma_pop_keeps_regs_ok(old(self).view().csr, commit_taken(comm, 2));
            lemma_pop_keeps_regs_ok(old(self).view().alu, commit_taken(comm, 3));
        }
    }

    fn issue_stage(&mut self, mem: &mut Memory, arf: &mut ARF)
        requires
            old(self).wf(),
            old(arf).wf(),
            old(mem).wf(),
            dispatch_ok(
                old(self).view(),
                rcu_issue(old(self).view().rcu, old(arf).regs_view(), old(arf).busy_view()),
            ),
        ensures
            final(self).wf(),
            final(arf).wf(),
            final(mem).wf(),
            final(arf).regs_view() == old(arf).regs_view(),
            final(mem).done_flag() == old(mem).done_flag(),
            ({
                let req = rcu_issue(old(self).view().rcu, old(arf).regs_view(), old(arf).busy_view());
                let r = dispatch(old(self).view(), req, old(arf).busy_view(), old(mem).bytes());
                &&& final(self).view() == r.0
                &&& final(arf).busy_view() == r.1
                &&& final(mem).bytes() == r.2
            }),
    {
        let rcu_req = self.rcu.resp_o(arf);
        if rcu_req.1.decoded.is_alu {
            self.alu.req_i(rcu_req);
            proof { lemma_push_keeps_regs_ok(old(self).view().alu, (true, crate::backend::alu::alu_exec(rcu_req.1))); }
            let r = self.alu.rdy_o();
            self.rcu.rdy_i(r, arf);
        } else if rcu_req.1.decoded.is_csr || rcu_req.1.decoded.is_syscall {
            self.csr.req_i(rcu_req);
            proof {
                lemma_push_keeps_regs_ok(old(self).view().csr, (true, rcu_req.1));
                lemma_push_keeps_regs_ok(old(self).view().csr, (true, crate::backend::csr::csr_exec(rcu_req.1)));
            }
            let r = self.csr.rdy_o();
            self.rcu.rdy_i(r, arf);
        } else if rcu_req.1.decoded.is_ld || rcu_req.1.decoded.is_st {
            self.lsu.req_i(rcu_req, mem);
            proof { lemma_push_keeps_regs_ok(old(self).view().lsu, (true, crate::backend::fake_lsu::lsu_exec(rcu_req.1, old(mem).bytes()))); }
            let r = self.lsu.rdy_o();
            self.rcu.rdy_i(r, arf);
        } else if rcu_req.1.decoded.is_branch {
            self.bru.req_i(rcu_req);
            proof { lemma_push_keeps_regs_ok(old(self).view().bru, (true, crate::backend::bru::bru_exec(rcu_req.1))); }
            let r = self.bru.rdy_o();
            self.rcu.rdy_i(r, arf);
        }
    }

    fn clock(&mut self)
        requires
            old(self).wf(),
            ({
                let h = fifo_resp(fifo_tik(old(self).view().rcu.commit));
                h.0 ==> !h.1.exception_vld
            }),
        ensures
            final(self).wf(),
            final(self).view() == backend_clock(old(self).view()),
    {
        self.alu.tik();
        self.lsu.tik();
        self.bru.tik();
        self.csr.tik();
        self.rcu.tik();
        proof {
            let v = old(self).view();
            assert(fifo_tik(v.alu).items == v.alu.items);
            assert(fifo_tik(v.lsu).items == v.lsu.items);
            assert(fifo_tik(v.bru).items == v.bru.items);
            assert(fifo_tik(v.csr).items == v.csr.items);
        }
    }

    /// One cycle. When a redirect was reported the back end is flushed; otherwise
    /// the first ready result (branch, load-store, control-status, arithmetic) is
    /// committed to `arf`, and the oldest waiting instruction whose sources are free
    /// is issued to its unit, a load or store acting on `mem` at once. Then every
    /// unit's clock ticks.
    pub fn tik(&mut self, mem: &mut Memory, arf: &mut ARF)
        requires
            old(self).wf(),
            old(arf).wf(),
            old(mem).wf(),
            backend_step_ok(old(self).view(), old(arf).regs_view(), old(arf).busy_view()),
        ensures
            final(self).wf(),
            final(arf).wf(),
            final(mem).wf(),
            final(mem).done_flag() == old(mem).done_flag(),
            (final(self).view(), final(arf).regs_view(), final(arf).busy_view(), final(mem).bytes())
                == backend_step(
                old(self).view(),
                old(arf).regs_view(),
                old(arf).busy_view(),
                old(mem).bytes(),
            ),
    {
        if self.rcu.flush_o() {
            self.flush(true);
        } else {
            self.commit_stage(arf);
            self.issue_stage(mem, arf);
        }
        self.clock();
    }

    /// Resets every unit when `rst` holds.
    pub fn rst(&mut self, rst: bool)
        requires
            old(self).wf(),
        ensures
            final(self).wf(),
            final(self).view() == backend_flush(old(self).view(), rst),
    {
        self.alu.rst(rst);
        self.lsu.rst(rst);
        self.rcu.rst(rst);
        self.bru.rst(rst);
        self.csr.rst(rst);
    }

    /// Flushes every unit when `rst` holds.
    pub fn flush(&mut self, rst: bool)
        requires
            old(self).wf(),
        ensures
            final(self).wf(),
            final(self).view() == backend_flush(old(self).view(), rst),
    {
        self.alu.flush(rst);
        self.lsu.flush(rst);
        self.rcu.flush(rst);
        self.bru.flush(rst);
        self.csr.flush(rst);
    }

    /// Whether the issue queue last reported room.
    pub fn rdy_o(&self) -> (r: bool)
        requires
            self.wf(),
        ensures
            r == self.view().rcu.output.rdy,
    {
        self.rcu.rdy_o()
    }
}

} // verus!
