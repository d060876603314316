pub mod utils;
pub mod instr;
pub mod interface;
pub mod buffers;
pub mod cfg;
pub mod memory;
pub mod backend;
pub mod frontend;
pub mod bpu;

use vstd::prelude::*;
use crate::backend::BackendView;
use crate::backend::FakeBackend;
use crate::backend::backend_step;
use crate::backend::backend_step_ok;
use crate::backend::fake_rcu::RcuView;
use crate::buffers::fifo::fifo_req;
use crate::buffers::fifo::fifo_resp;
use crate::buffers::fifo::fifo_pop;
use crate::cfg::memory_cfg::ELF_START_PADDR;
use crate::cfg::memory_cfg::TOHOST_PADDR;
use crate::cfg::memory_cfg::MEMORY_SIZE;
use crate::cfg::regfile_cfg::APF_SIZE;
use crate::frontend::Frontend;
use crate::frontend::FrontendView;
use crate::frontend::frontend_flush;
use crate::frontend::frontend_step;
use crate::frontend::frontend_step_ok;
use crate::memory::memory::LoadError;
use crate::memory::memory::Memory;
use crate::memory::memory::le_val;
use crate::memory::memory::line_texts;
use crate::memory::memory::load_image;
use crate::memory::memory::image_written;
use crate::memory::memory::mem_index;
use crate::memory::regfiles::ARF;
use crate::memory::regfiles::CSRF;
use crate::interface::CtrlSignals;

verus! {

/// What the core holds: its front end, its back end, the register values and busy
/// flags, and the memory's bytes.
pub struct CoreView {
    pub fe: FrontendView,
    pub be: BackendView,
    pub regs: Seq<u64>,
    pub busy: Map<usize, bool>,
    pub mem: Seq<u8>,
    pub done: bool,
}

/// The back end after the front end's response is offered to its issue queue.
pub open spec fn core_issue(v: CoreView) -> BackendView {
    BackendView {
        rcu: RcuView { output: fifo_req(v.be.rcu.output, fifo_resp(v.fe.dec)), ..v.be.rcu },
        ..v.be
    }
}

/// The front end after it hears whether its response was taken, is flushed when the
/// back end asks for it, and is given the back end's redirect.
pub open spec fn core_redirect(v: CoreView) -> FrontendView {
    let be1 = core_issue(v);
    let fe1 = FrontendView { dec: fifo_pop(v.fe.dec, be1.rcu.output.rdy), ..v.fe };
    let fe2 = frontend_flush(fe1, be1.rcu.flush);
    FrontendView { branch_vld: be1.rcu.branch.0, branch_pc: be1.rcu.branch.1, ..fe2 }
}

/// One cycle of the core: the front end's response is offered to the back end,
/// the front end hears the answer, the back end's flush request and redirect; then
/// the back end takes its cycle, and the front end its own on the memory the back
/// end leaves.
pub open spec fn core_step(v: CoreView) -> CoreView {
    let be1 = core_issue(v);
    let fe3 = core_redirect(v);
    let (be2, regs2, busy2, m2) = backend_step(be1, v.regs, v.busy, v.mem);
    CoreView { fe: frontend_step(fe3, m2), be: be2, regs: regs2, busy: busy2, mem: m2, ..v }
}

/// The states from which a core cycle runs without failing: neither the back end
/// nor the front end fails on its cycle.
pub open spec fn core_step_ok(v: CoreView) -> bool {
    &&& backend_step_ok(core_issue(v), v.regs, v.busy)
    &&& frontend_step_ok(core_redirect(v))
}

/// The word a test program leaves at the host-communication address.
pub open spec fn tohost_word(m: Seq<u8>) -> u32 {
    le_val(m, mem_index(TOHOST_PADDR), 4) as u32
}

/// A whole core: front end, back end, memory and register files.
pub struct HeHeCore {
    frontend: Frontend,
    backend: FakeBackend,
    mem: Memory,
    arf: ARF,
    csrf: CSRF,
}

impl HeHeCore {
    pub closed spec fn view(&self) -> CoreView {
        CoreView {
            fe: self.frontend.view(),
            be: self.backend.view(),
            regs: self.arf.regs_view(),
            busy: self.arf.busy_view(),
            mem: self.mem.bytes(),
            done: self.mem.done_flag(),
        }
    }

    /// The core's invariant: every part is well formed.
    pub closed spec fn wf(&self) -> bool {
        &&& self.frontend.wf()
        &&& self.backend.wf()
        &&& self.mem.wf()
        &&& self.arf.wf()
        &&& self.csrf.wf()
    }

    /// A core with empty pipelines whose queues all report room, no redirect or
    /// flush pending, zeroed memory and registers, and no register busy.
    pub fn new() -> (r: Self)
        ensures
            r.wf(),
            r.view().fe.f1.items.len() == 0,
            r.view().fe.f1.delays.len() == 0,
            r.view().fe.f2.items.len() == 0,
            r.view().fe.f2.delays.len() == 0,
            r.view().fe.dec.items.len() == 0,
            r.view().fe.dec.delays.len() == 0,
            crate::frontend::frontend_reset(r.view().fe),
            !r.view().fe.branch_vld,
            r.view().fe.branch_pc == 0,
            r.view().fe.f1.rdy,
            r.view().fe.f2.rdy,
            r.view().fe.dec.rdy,
            r.view().fe.f1_reqs.len() == 4,
            forall|i: int| 0 <= i < 4 ==> !(#[trigger] r.view().fe.f1_reqs[i]).0,
            r.view().be.alu.rdy,
            r.view().be.lsu.rdy,
            r.view().be.bru.rdy,
            r.view().be.csr.rdy,
            r.view().be.rcu.output.rdy,
            r.view().be.rcu.commit.rdy,
            r.view().be.rcu.branch == (false, 0u64),
            r.view().fe.f1.options == seq![1u16],
            r.view().fe.f2.options == seq![1u16],
            r.view().fe.dec.options == seq![1u16],
            r.view().be.alu.options == seq![1u16],
            r.view().be.lsu.options == seq![1u16],
            r.view().be.bru.options == seq![1u16],
            r.view().be.csr.options == seq![1u16],
            r.view().be.rcu.output.options == seq![1u16],
            r.view().be.rcu.commit.options == seq![1u16],
            r.view().mem.len() == MEMORY_SIZE,
            r.view().regs.len() == APF_SIZE,
            forall|i: usize| i < APF_SIZE ==> !#[trigger] r.view().busy[i],
            r.view().be.alu.items.len() == 0,
            r.view().be.alu.delays.len() == 0,
            r.view().be.lsu.items.len() == 0,
            r.view().be.lsu.delays.len() == 0,
            r.view().be.bru.items.len() == 0,
            r.view().be.bru.delays.len() == 0,
            r.view().be.csr.items.len() == 0,
            r.view().be.csr.delays.len() == 0,
            r.view().be.rcu.output.items.len() == 0,
            r.view().be.rcu.output.delays.len() == 0,
            r.view().be.rcu.commit.items.len() == 0,
            r.view().be.rcu.commit.delays.len() == 0,
            !r.view().be.rcu.flush,
            !r.view().done,
            forall|i: int| 0 <= i < r.view().mem.len() ==> #[trigger] r.view().mem[i] == 0,
            forall|i: int| 0 <= i < r.view().regs.len() ==> #[trigger] r.view().regs[i] == 0,
    {
        let mem = Memory::new();
        let arf = ARF::new();
        let csrf = CSRF::new();
        let frontend = Frontend::new();
        let backend = FakeBackend::new();
        HeHeCore { frontend, backend, mem, arf, csrf }
    }

    /// Loads a hex image, given as its lines, at the start address of programs.
    pub fn load_hex(&mut self, lines: &Vec<String>) -> (r: Result<(), LoadError>)
        requires
            old(self).wf(),
        ensures
            final(self).wf(),
            match load_image(old(self).view().mem, line_texts(lines@), mem_index(ELF_START_PADDR), 0) {
                Ok(m) => r is Ok && final(self).view() == (CoreView { mem: m, ..old(self).view() }),
                Err(e) => r == Err::<(), LoadError>(e),
            },
            final(self).view() == (CoreView {
                mem: image_written(old(self).view().mem, line_texts(lines@), mem_index(ELF_START_PADDR)),
                ..old(self).view()
            }),
    {
        self.mem.load_hex_lines(lines, ELF_START_PADDR)
    }

    /// Whether the memory's test-done flag is set.
    pub fn test_done(&self) -> (r: bool)
        ensures
            r == self.view().done,
    {
        self.mem.test_done()
    }

    /// The word at the host-communication address: one when a test program passed,
    /// another non-zero value when it failed, zero while it runs.
    pub fn read_from_host(&self) -> (r: u32)
        requires
            self.wf(),
        ensures
            r == tohost_word(self.view().mem),
    {
        proof {
            crate::memory::memory::lemma_word_truncates(self.mem.bytes(), mem_index(TOHOST_PADDR));
        }
        self.mem.lw(TOHOST_PADDR) as u32
    }


    /// Whether the next clock cycle runs without failing: the instruction the back
    /// end would issue suits its unit, no committed instruction that becomes
    /// visible carries an exception, and, unless a redirect is pending, the word the
    /// front end reads next lies inside the memory.
    pub fn cycle_ok(&self) -> (r: bool)
        requires
            self.wf(),
        ensures
            r == core_step_ok(self.view()),
    {
        let ghost v = self.view();
        proof {
            self.backend.lemma_flush_iff_redirect();
        }
        let branch = self.backend.branch_o();
        let fe_ok = if branch.0 {
            true
        } else {
            let f1 = self.frontend.fetch1_resp();
            crate::backend::in_range_exec(f1.1.pc, 4)
        };
        proof {
            assert(core_redirect(v).f1 == v.fe.f1 || branch.0);
            assert(fe_ok == frontend_step_ok(core_redirect(v)));
        }
        if !fe_ok {
            return false;
        }
        let req = self.frontend.resp_o();
        let be_ok = self.backend.step_ok(req, &self.arf);
        proof {
            assert(core_issue(v) == crate::backend::backend_offered(v.be, req));
        }
        be_ok
    }
}

impl CtrlSignals for HeHeCore {
    open spec fn ctrl_inv(&self) -> bool {
        self.wf()
    }

    open spec fn tik_ok(&self) -> bool {
        core_step_ok(self.view())
    }

    /// One cycle: the front end's response is offered to the back end and the front
    /// end hears whether it was taken, is flushed when the back end asks and is given
    /// the back end's redirect; then the back end takes its cycle, and the front end
    /// its own.
    fn tik(&mut self)
        ensures
            final(self).view() == core_step(old(self).view()),
    {
        let req = self.frontend.resp_o();
        self.backend.req_i(req);
        let rdy = self.backend.rdy_o();
        self.frontend.rdy_i(rdy);
        let flush = self.backend.flush_o();
        self.frontend.flush(flush);
        let branch = self.backend.branch_o();
        self.frontend.branch_i(branch);
        self.backend.tik(&mut self.mem, &mut self.arf);
        self.frontend.tik(&self.mem);
    }

    /// Resets the front end and the back end when `rst` holds.
    fn rst(&mut self, rst: bool)
        ensures
            final(self).view() == (CoreView {
                fe: frontend_flush(old(self).view().fe, rst),
                be: crate::backend::backend_flush(old(self).view().be, rst),
                ..old(self).view()
            }),
    {
        self.frontend.rst(rst);
        self.backend.rst(rst);
    }

    /// Flushes the front end and the back end when `rst` holds.
    fn flush(&mut self, rst: bool)
        ensures
            final(self).view() == (CoreView {
                fe: frontend_flush(old(self).view().fe, rst),
                be: crate::backend::backend_flush(old(self).view().be, rst),
                ..old(self).view()
            }),
    {
        self.frontend.flush(rst);
        self.backend.flush(rst);
    }
}

} // verus!
