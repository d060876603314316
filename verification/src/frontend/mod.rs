pub mod fetch1;
pub mod fetch2;
pub mod decode;

use vstd::prelude::*;
use crate::backend::queue_regs_ok;
use crate::backend::lemma_pop_keeps_regs_ok;
use crate::backend::lemma_push_keeps_regs_ok;
use crate::buffers::fifo::FifoView;
use crate::buffers::fifo::fifo_resp;
use crate::buffers::fifo::fifo_pop;
use crate::buffers::fifo::fifo_tik;
use crate::buffers::fifo::fifo_rst;
use crate::frontend::decode::Decode;
use crate::frontend::decode::decode_req;
use crate::frontend::fetch1::Fetch1;
use crate::frontend::fetch1::fetch1_pc;
use crate::frontend::fetch2::Fetch2;
use crate::frontend::fetch2::fetch2_req;
use crate::instr::Instr;
use crate::instr::instr_default;
use crate::instr::instr_at;
use crate::instr::reg_fields_ok;
use crate::interface::CtrlSignals;
use crate::interface::Interface;
use crate::memory::memory::Memory;
use crate::utils::wrap_add;

verus! {

/// What the front end holds: the queues of its three stages, the program counters
/// last offered to the first stage, the redirect it was last given, whether the
/// decode stage has taken an instruction since power-on, and whether it rests in
/// the coming cycle.
pub struct FrontendView {
    pub f1: FifoView<Instr>,
    pub f1_reqs: Seq<(bool, u64)>,
    pub f2: FifoView<Instr>,
    pub dec: FifoView<Instr>,
    pub branch_vld: bool,
    pub branch_pc: u64,
    pub started: bool,
    pub hold: bool,
}

/// The address the first instruction is fetched from.
pub open spec fn start_pc() -> u64 {
    0x8000_0000
}

/// The program counters offered to the first stage, in priority order: the
/// redirect, the prediction carried by the instruction the first stage answers,
/// the address after that instruction, and the start address.
pub open spec fn next_pcs(branch: (bool, u64), r1: (bool, Instr)) -> Seq<(bool, u64)> {
    seq![
        branch,
        (r1.1.predicted_direction, r1.1.predicted_pc),
        (r1.0, wrap_add(r1.1.pc, 4)),
        (true, start_pc()),
    ]
}

/// The program counter the first stage takes next: a redirect wins over a
/// prediction, a prediction over the address after the instruction the first stage
/// answers, and that over the start address.
pub proof fn lemma_next_pc_priority(branch: (bool, u64), r1: (bool, Instr))
    ensures
        crate::frontend::fetch1::first_valid_pc(next_pcs(branch, r1)) == Some(
            if branch.0 {
                branch.1
            } else if r1.1.predicted_direction {
                r1.1.predicted_pc
            } else if r1.0 {
                wrap_add(r1.1.pc, 4)
            } else {
                start_pc()
            },
        ),
{
    let s = next_pcs(branch, r1);
    reveal_with_fuel(crate::buffers::mux::valid_reqs, 5);
    assert(s.drop_last() =~= seq![s[0], s[1], s[2]]);
    assert(s.drop_last().drop_last() =~= seq![s[0], s[1]]);
    assert(s.drop_last().drop_last().drop_last() =~= seq![s[0]]);
    assert(seq![s[0]].drop_last() =~= Seq::<(bool, u64)>::empty());
}

/// Every stage after a flush request.
pub open spec fn frontend_flush(v: FrontendView, rst: bool) -> FrontendView {
    FrontendView {
        f1: fifo_rst(v.f1, rst),
        f2: fifo_rst(v.f2, rst),
        dec: fifo_rst(v.dec, rst),
        ..v
    }
}

/// One cycle of the front end: a pending redirect flushes every stage first. Then,
/// from the last stage back, each stage offers its response to the next and hears
/// whether it was taken; the first stage is offered the next program counters; and
/// every stage's clock ticks. After power-on, the decode stage rests for the one
/// cycle after it first takes an instruction: it is offered nothing and the second
/// stage keeps its answer.
pub open spec fn frontend_step(v: FrontendView, m: Seq<u8>) -> FrontendView {
    let v1 = if v.branch_vld {
        frontend_flush(v, true)
    } else {
        v
    };
    let r2 = fifo_resp(v1.f2);
    let dec1 = decode_req(v1.dec, if v.hold { (false, r2.1) } else { r2 });
    let took = !v.hold && r2.0 && dec1.rdy;
    let f2a = fifo_pop(v1.f2, dec1.rdy && !v.hold);
    let r1 = fifo_resp(v1.f1);
    let f2b = fetch2_req(f2a, r1, m);
    let f1a = fifo_pop(v1.f1, f2b.rdy);
    let reqs = next_pcs((v.branch_vld, v.branch_pc), r1);
    FrontendView {
        f1: fifo_tik(fetch1_pc(f1a, reqs)),
        f1_reqs: reqs,
        f2: fifo_tik(f2b),
        dec: fifo_tik(dec1),
        started: v.started || took,
        hold: !v.started && took,
        ..v
    }
}

/// The states from which a front-end cycle runs without failing: the word the
/// second stage reads lies inside the memory.
pub open spec fn frontend_step_ok(v: FrontendView) -> bool {
    !v.branch_vld ==> Memory::in_range(fifo_resp(v.f1).1.pc, 4)
}

/// One cycle in which the consumer takes whatever the front end offers and gives
/// no redirect.
pub open spec fn frontend_free_round(v: FrontendView, m: Seq<u8>) -> FrontendView {
    frontend_step(FrontendView { dec: fifo_pop(v.dec, true), branch_vld: false, branch_pc: 0, ..v }, m)
}

/// Whether a front end is as `new` builds it.
pub open spec fn frontend_reset(v: FrontendView) -> bool {
    &&& v.f1.items.len() == 0 && v.f1.delays.len() == 0
    &&& v.f2.items.len() == 0 && v.f2.delays.len() == 0
    &&& v.dec.items.len() == 0 && v.dec.delays.len() == 0
    &&& v.f1.rdy && v.f2.rdy && v.dec.rdy
    &&& v.f1.cap == 1 && v.f2.cap == 8 && v.dec.cap == 8
    &&& v.f1.options == seq![1u16] && v.f2.options == seq![1u16] && v.dec.options == seq![1u16]
    &&& v.f1.idle == instr_default() && v.f2.idle == instr_default() && v.dec.idle == instr_default()
    &&& !v.started && !v.hold
}

/// An instruction at `pc` with the word read there from `m`.
pub open spec fn fetched_at(m: Seq<u8>, pc: u64) -> Instr {
    Instr { raw_vld: true, raw: crate::frontend::fetch2::word_at(m, pc), ..instr_at(pc) }
}

/// Timing from reset: when every answer is taken and no redirect comes, the front
/// end offers nothing for two cycles; on the third it offers the instruction at the
/// start address with its word read from memory, decoded; on the fourth the decode
/// stage rests and nothing is offered. Each of these cycles reads inside the
/// memory, and from then on the decode stage no longer rests.
pub proof fn lemma_first_instruction(v: FrontendView, m: Seq<u8>)
    requires
        frontend_reset(v),
    ensures
        Memory::in_range(fifo_resp(v.f1).1.pc, 4),
        !fifo_resp(frontend_free_round(v, m).dec).0,
        Memory::in_range(fifo_resp(frontend_free_round(v, m).f1).1.pc, 4),
        !fifo_resp(frontend_free_round(frontend_free_round(v, m), m).dec).0,
        Memory::in_range(fifo_resp(frontend_free_round(frontend_free_round(v, m), m).f1).1.pc, 4),
        fifo_resp(frontend_free_round(frontend_free_round(frontend_free_round(v, m), m), m).dec) == (
            true,
            crate::frontend::decode::decoded(fetched_at(m, start_pc())),
        ),
        Memory::in_range(
            fifo_resp(frontend_free_round(frontend_free_round(frontend_free_round(v, m), m), m).f1).1.pc,
            4,
        ),
        ({
            let r4 = frontend_free_round(
                frontend_free_round(frontend_free_round(frontend_free_round(v, m), m), m),
                m,
            );
            &&& !fifo_resp(r4.dec).0
            &&& r4.started
            &&& !r4.hold
            &&& frontend_shape(r4)
        }),
{
    let i0 = instr_at(start_pc());
    let r1 = frontend_free_round(v, m);
    lemma_next_pc_priority((false, 0), fifo_resp(v.f1));
    assert(r1.f1.items =~= seq![i0]);
    assert(r1.f1.delays =~= seq![0u16]);
    assert(fifo_resp(r1.f1) == (true, i0));
    assert(Memory::in_range(start_pc(), 4));
    let r2 = frontend_free_round(r1, m);
    lemma_next_pc_priority((false, 0), fifo_resp(r1.f1));
    assert(wrap_add(start_pc(), 4) == 0x8000_0004u64);
    assert(r2.f1.items =~= seq![instr_at(0x8000_0004u64)]);
    assert(r2.f1.delays =~= seq![0u16]);
    assert(Memory::in_range(0x8000_0004u64, 4));
    let r3 = frontend_free_round(r2, m);
    lemma_next_pc_priority((false, 0), fifo_resp(r2.f1));
    assert(wrap_add(0x8000_0004u64, 4) == 0x8000_0008u64);
    assert(r3.f1.items =~= seq![instr_at(0x8000_0008u64)]);
    assert(r3.f1.delays =~= seq![0u16]);
    assert(Memory::in_range(0x8000_0008u64, 4));
    assert(r3.hold);
    let r4 = frontend_free_round(r3, m);
}

/// One cycle with a redirect to `p` pending.
pub open spec fn frontend_redirect_round(v: FrontendView, p: u64, m: Seq<u8>) -> FrontendView {
    frontend_step(FrontendView { branch_vld: true, branch_pc: p, ..v }, m)
}

/// One cycle with no redirect, in which the consumer takes nothing.
pub open spec fn frontend_plain_round(v: FrontendView, m: Seq<u8>) -> FrontendView {
    frontend_step(FrontendView { branch_vld: false, branch_pc: 0, ..v }, m)
}

/// Whether the stages have the sizes and delays `new` gives them, whatever they
/// hold.
pub open spec fn frontend_shape(v: FrontendView) -> bool {
    &&& v.f1.cap == 1 && v.f2.cap == 8 && v.dec.cap == 8
    &&& v.f1.options == seq![1u16] && v.f2.options == seq![1u16] && v.dec.options == seq![1u16]
}

/// A redirect drops everything in flight: given a redirect to `p` and then two
/// cycles without one, the front end offers nothing until, on the third cycle, it
/// offers the instruction at `p` with its word read from memory, decoded; once that
/// is taken, the next cycle offers the one at `p + 4`. The first stage answers `p`,
/// `p + 4` and `p + 8` in turn, so these are the words read.
pub proof fn lemma_redirect(v: FrontendView, p: u64, m: Seq<u8>)
    requires
        frontend_shape(v),
        v.started,
        !v.hold,
    ensures
        ({
            let s1 = frontend_redirect_round(v, p, m);
            let s2 = frontend_plain_round(s1, m);
            let s3 = frontend_plain_round(s2, m);
            let s4 = frontend_free_round(s3, m);
            &&& !fifo_resp(s1.dec).0
            &&& !fifo_resp(s2.dec).0
            &&& fifo_resp(s3.dec) == (true, crate::frontend::decode::decoded(fetched_at(m, p)))
            &&& fifo_resp(s4.dec) == (
                true,
                crate::frontend::decode::decoded(fetched_at(m, wrap_add(p, 4))),
            )
            &&& fifo_resp(s1.f1) == (true, instr_at(p))
            &&& fifo_resp(s2.f1) == (true, instr_at(wrap_add(p, 4)))
            &&& fifo_resp(s3.f1) == (true, instr_at(wrap_add(wrap_add(p, 4), 4)))
        }),
{
    let v0 = FrontendView { branch_vld: true, branch_pc: p, ..v };
    let s1 = frontend_redirect_round(v, p, m);
    lemma_next_pc_priority((true, p), fifo_resp(frontend_flush(v0, true).f1));
    assert(s1.f1.items =~= seq![instr_at(p)]);
    assert(s1.f1.delays =~= seq![0u16]);
    let s2 = frontend_plain_round(s1, m);
    lemma_next_pc_priority((false, 0), fifo_resp(s1.f1));
    assert(s2.f1.items =~= seq![instr_at(wrap_add(p, 4))]);
    assert(s2.f1.delays =~= seq![0u16]);
    assert(s2.f2.items =~= seq![fetched_at(m, p)]);
    assert(s2.f2.delays =~= seq![0u16]);
    let s3 = frontend_plain_round(s2, m);
    lemma_next_pc_priority((false, 0), fifo_resp(s2.f1));
    assert(s3.f1.items =~= seq![instr_at(wrap_add(wrap_add(p, 4), 4))]);
    assert(s3.f1.delays =~= seq![0u16]);
    assert(s3.f2.items =~= seq![fetched_at(m, wrap_add(p, 4))]);
    assert(s3.f2.delays =~= seq![0u16]);
    assert(s3.dec.items =~= seq![crate::frontend::decode::decoded(fetched_at(m, p))]);
    assert(s3.dec.delays =~= seq![0u16]);
    let s4 = frontend_free_round(s3, m);
    assert(s4.dec.items =~= seq![crate::frontend::decode::decoded(fetched_at(m, wrap_add(p, 4)))]);
    assert(s4.dec.delays =~= seq![0u16]);
}

/// The front end: a first fetch stage that chooses program counters, a second that
/// reads instruction words, and a decode stage.
pub struct Frontend {
    fetch1: Fetch1,
    fetch2: Fetch2,
    decode: Decode,
    branch_vld: bool,
    branch_pc: u64,
    started: bool,
    hold: bool,
}

impl Frontend {
    pub closed spec fn view(&self) -> FrontendView {
        FrontendView {
            f1: self.fetch1.view(),
            f1_reqs: self.fetch1.pc_reqs(),
            f2: self.fetch2.view(),
            dec: self.decode.view(),
            branch_vld: self.branch_vld,
            branch_pc: self.branch_pc,
            started: self.started,
            hold: self.hold,
        }
    }

    /// The front end's invariant: its stages are well formed, the first has four
    /// program-counter inputs, and every queued instruction names registers in
    /// range.
    pub closed spec fn wf(&self) -> bool {
        &&& self.fetch1.wf()
        &&& self.fetch1.ports() == 4
        &&& self.fetch2.wf()
        &&& self.decode.wf()
        &&& queue_regs_ok(self.view().f1)
        &&& queue_regs_ok(self.view().f2)
        &&& queue_regs_ok(self.view().dec)
    }

    /// A well-formed front end has the stage sizes and delays `new` gives it.
    pub proof fn lemma_shape(&self)
        requires
            self.wf(),
        ensures
            frontend_shape(self.view()),
    {
    }

    /// An empty front end with no redirect pending.
    pub fn new() -> (r: Self)
        ensures
            r.wf(),
            r.view().f1.items.len() == 0,
            r.view().f1.delays.len() == 0,
            r.view().f2.items.len() == 0,
            r.view().f2.delays.len() == 0,
            r.view().dec.items.len() == 0,
            r.view().dec.delays.len() == 0,
            !r.view().branch_vld,
            r.view().branch_pc == 0,
            r.view().f1.rdy,
            r.view().f2.rdy,
            r.view().dec.rdy,
            r.view().f1_reqs.len() == 4,
            forall|i: int| 0 <= i < 4 ==> !(#[trigger] r.view().f1_reqs[i]).0,
            r.view().f1.cap == 1 && r.view().f1.options == seq![1u16],
            r.view().f2.cap == 8 && r.view().f2.options == seq![1u16],
            r.view().dec.cap == 8 && r.view().dec.options == seq![1u16],
            r.view().f1.idle == instr_default(),
            r.view().f2.idle == instr_default(),
            r.view().dec.idle == instr_default(),
            frontend_reset(r.view()),
    {
        Frontend {
            fetch1: Fetch1::new(4),
            fetch2: Fetch2::new(),
            decode: Decode::new(),
            branch_vld: false,
            branch_pc: 0,
            started: false,
            hold: false,
        }
    }

    /// Records the redirect for the next cycle.
    pub fn branch_i(&mut self, branch: (bool, u64))
        requires
            old(self).wf(),
        ensures
            final(self).wf(),
            final(self).view() == (FrontendView {
                branch_vld: branch.0,
                branch_pc: branch.1,
                ..old(self).view()
            }),
    {
        self.branch_vld = branch.0;
        self.branch_pc = branch.1;
    }

    /// The front end's response: the instruction at the head of the decode queue.
    pub fn resp_o(&self) -> (r: (bool, Instr))
        requires
            self.wf(),
        ensures
            r == fifo_resp(self.view().dec),
            reg_fields_ok(r.1),
    {
        self.decode.resp_o()
    }

    /// The first fetch stage's response: the program counter the second stage reads
    /// next.
    pub fn fetch1_resp(&self) -> (r: (bool, Instr))
        requires
            self.wf(),
        ensures
            r == fifo_resp(self.view().f1),
    {
        self.fetch1.resp_o()
    }

    /// Tells the front end whether its response is taken.
    pub fn rdy_i(&mut self, rdy: bool)
        requires
            old(self).wf(),
        ensures
            final(self).wf(),
            final(self).view() == (FrontendView {
                dec: fifo_pop(old(self).view().dec, rdy),
                ..old(self).view()
            }),
    {
        proof {
            lemma_pop_keeps_regs_ok(self.view().dec, rdy);
        }
        self.decode.rdy_i(rdy)
    }

    /// One cycle, reading instruction words from `mem`: a pending redirect flushes
    /// every stage; then each stage hands its response to the next, from the last
    /// back to the first, the first stage is offered the redirect, the prediction,
    /// the next sequential address and the start address, and every clock ticks.
    /// After power-on the decode stage rests for the one cycle after it first takes
    /// an instruction.
    pub fn tik(&mut self, mem: &Memory)
        requires
            old(self).wf(),
            mem.wf(),
            frontend_step_ok(old(self).view()),
        ensures
            final(self).wf(),
            final(self).view() == frontend_step(old(self).view(), mem.bytes()),
    {
        let ghost v = self.view();
        if self.branch_vld {
            self.flush(true);
        }
        let ghost v1 = self.view();
        let f2_resp = self.fetch2.resp_o();
        let offer = if self.hold {
            (false, f2_resp.1)
        } else {
            f2_resp
        };
        proof {
            crate::frontend::decode::lemma_decoded(offer.1);
            lemma_push_keeps_regs_ok(v1.dec, (offer.0, crate::frontend::decode::decoded(offer.1)));
            lemma_push_keeps_regs_ok(v1.dec, offer);
        }
        self.decode.req_i(offer);
        let d_rdy = self.decode.rdy_o();
        let take = d_rdy && !self.hold;
        proof {
            lemma_pop_keeps_regs_ok(v1.f2, take);
        }
        self.fetch2.rdy_i(take);
        let took = take && f2_resp.0;
        let was_started = self.started;
        self.started = was_started || took;
        self.hold = !was_started && took;
        let f1_resp = self.feed_fetch2(mem);
        self.feed_fetch1(f1_resp);
        self.fetch1.tik();
        self.fetch2.tik();
        self.decode.tik();
        proof {
            assert(self.view() == frontend_step(v, mem.bytes()));
        }
    }

    /// The first stage offers its response to the second, which reads the word at
    /// its program counter from `mem`, and hears whether it was taken. Gives the
    /// first stage's response.
    fn feed_fetch2(&mut self, mem: &Memory) -> (r: (bool, Instr))
        requires
            old(self).wf(),
            mem.wf(),
            Memory::in_range(fifo_resp(old(self).view().f1).1.pc, 4),
        ensures
            final(self).wf(),
            r == fifo_resp(old(self).view().f1),
            final(self).view() == ({
                let v = old(self).view();
                let f2b = fetch2_req(v.f2, r, mem.bytes());
                FrontendView { f1: fifo_pop(v.f1, f2b.rdy), f2: f2b, ..v }
            }),
    {
        let f1_resp = self.fetch1.resp_o();
        let ghost v = self.view();
        proof {
            lemma_push_keeps_regs_ok(v.f2, (f1_resp.0, Instr { raw_vld: true, raw: crate::frontend::fetch2::word_at(mem.bytes(), f1_resp.1.pc), ..f1_resp.1 }));
        }
        self.fetch2.req_i(f1_resp, mem);
        let f2_rdy = self.fetch2.rdy_o();
        proof {
            lemma_pop_keeps_regs_ok(v.f1, f2_rdy);
        }
        self.fetch1.rdy_i(f2_rdy);
        f1_resp
    }

    /// The first stage is offered the redirect, the prediction carried by `f1_resp`,
    /// the address after it and the start address.
    fn feed_fetch1(&mut self, f1_resp: (bool, Instr))
        requires
            old(self).wf(),
        ensures
            final(self).wf(),
            final(self).view() == ({
                let v = old(self).view();
                let reqs = next_pcs((v.branch_vld, v.branch_pc), f1_resp);
                FrontendView { f1: fetch1_pc(v.f1, reqs), f1_reqs: reqs, ..v }
            }),
    {
        let f1_pc_i: Vec<(bool, u64)> = vec![
            (self.branch_vld, self.branch_pc),
            (f1_resp.1.predicted_direction, f1_resp.1.predicted_pc),
            (f1_resp.0, f1_resp.1.pc.wrapping_add(4)),
            (true, 0x8000_0000),
        ];
        proof {
            assert(f1_pc_i@ =~= next_pcs((self.branch_vld, self.branch_pc), f1_resp));
            crate::frontend::fetch1::lemma_fetch1_pc_keeps_regs_ok(self.view().f1, f1_pc_i@);
        }
        let _f1_rdy_o = self.fetch1.pc_i(f1_pc_i);
    }

    /// Resets every stage when `rst` holds.
    pub fn rst(&mut self, rst: bool)
        requires
            old(self).wf(),
        ensures
            final(self).wf(),
            final(self).view() == frontend_flush(old(self).view(), rst),
    {
        self.fetch1.rst(rst);
        self.fetch2.rst(rst);
        self.decode.rst(rst);
    }

    /// Flushes every stage when `rst` holds.
    pub fn flush(&mut self, rst: bool)
        requires
            old(self).wf(),
        ensures
            final(self).wf(),
            final(self).view() == frontend_flush(old(self).view(), rst),
    {
        self.fetch1.flush(rst);
        self.fetch2.flush(rst);
        self.decode.flush(rst);
    }
}

} // verus!
