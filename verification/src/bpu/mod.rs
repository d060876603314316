pub mod pht;
pub mod btb;
pub mod gshare;

use vstd::prelude::*;
use crate::bpu::btb::BTB;
use crate::bpu::btb::BtbView;
use crate::bpu::btb::btb_lookup;
use crate::bpu::btb::btb_tag;
use crate::bpu::gshare::GShare;
use crate::bpu::gshare::GShareView;
use crate::bpu::gshare::gshare_branch;
use crate::bpu::gshare::cell;
use crate::bpu::gshare::cell_in_table;
use crate::bpu::pht::PFSM;
use crate::bpu::pht::pht_rst;
use crate::buffers::plru::plru_insert;
use crate::buffers::plru::plru_rst;
use crate::buffers::plru::insert_node;
use crate::buffers::plru::p2;
use crate::buffers::plru::log2_floor;
use crate::interface::CtrlSignals;

verus! {

/// What a branch prediction unit holds: its target buffer and its direction
/// predictor.
pub struct BpuView {
    pub btb: BtbView,
    pub gshare: GShareView,
}

/// A branch prediction unit: a target buffer and a global-history direction
/// predictor.
pub struct BPU {
    btb: BTB,
    gshare: GShare,
}

impl BPU {
    pub closed spec fn view(&self) -> BpuView {
        BpuView { btb: self.btb.view(), gshare: self.gshare.view() }
    }

    /// The number of target-buffer slots.
    pub closed spec fn btb_size(&self) -> nat {
        self.btb.size()
    }

    /// The invariant: both parts are well formed.
    pub closed spec fn wf(&self) -> bool {
        &&& self.btb.wf()
        &&& self.gshare.wf()
    }

    /// A unit whose target buffer has `btb_width` slots and tags of `btb_pc_low`
    /// bits from bit `btb_pc_width` up, and whose direction predictor is built from
    /// the remaining arguments.
    pub fn new(
        btb_pc_width: usize,
        btb_pc_low: usize,
        btb_width: usize,
        gshare_history_width: u32,
        gshare_pc_width: u32,
        gshare_pc_low: usize,
        gshare_pc_hash: bool,
        pfsm: PFSM,
    ) -> (r: Self)
        requires
            1 <= btb_width <= 0xffff,
            btb_pc_low < 64,
            btb_pc_width < 64,
            gshare_history_width < 64,
            gshare_pc_width < 64,
            gshare_pc_low < 64,
            gshare_history_width < usize::BITS,
            gshare_pc_width < usize::BITS,
        ensures
            r.wf(),
            r.btb_size() == btb_width,
            r.view().btb.pc_width == btb_pc_low,
            r.view().btb.pc_low == btb_pc_width,
            r.view().gshare.history == 0,
            r.view().gshare.history_width == gshare_history_width,
            r.view().gshare.pc_width == gshare_pc_width,
            r.view().gshare.pc_low == gshare_pc_low,
    {
        BPU {
            btb: BTB::new(btb_width, btb_pc_low, btb_pc_width),
            gshare: GShare::new(gshare_history_width, gshare_pc_width, gshare_pc_low, gshare_pc_hash, pfsm),
        }
    }

    /// When the target buffer's size is a power of two, its part of the `branch`
    /// precondition always holds.
    pub proof fn lemma_branch_ok(&self)
        requires
            self.wf(),
            p2(log2_floor(self.btb_size())) == self.btb_size(),
        ensures
            insert_node(self.view().btb.plru.tree, self.btb_size()) >= self.btb_size() - 1,
    {
        self.btb.lemma_branch_ok();
    }

    /// Records a resolved branch: its target in the target buffer and its
    /// direction in the direction predictor.
    pub fn branch(&mut self, pc: u64, direction: bool, target: u64)
        requires
            old(self).wf(),
            insert_node(old(self).view().btb.plru.tree, old(self).btb_size()) >= old(self).btb_size() - 1,
            cell_in_table(old(self).view().gshare, pc),
            cell(old(self).view().gshare, pc).jump.contains_key(cell(old(self).view().gshare, pc).state),
        ensures
            final(self).wf(),
            final(self).btb_size() == old(self).btb_size(),
            final(self).view() == (BpuView {
                btb: BtbView {
                    plru: plru_insert(old(self).view().btb.plru, (btb_tag(old(self).view().btb, pc), target)),
                    ..old(self).view().btb
                },
                gshare: gshare_branch(old(self).view().gshare, pc, direction),
            }),
    {
        self.btb.branch(pc, target);
        self.gshare.branch(pc, direction);
    }

    /// Predicts the branch at `pc`: taken when the direction predictor says taken
    /// and the target buffer holds a valid target, which is the predicted target.
    pub fn predict(&mut self, pc: u64) -> (r: (bool, u64))
        requires
            old(self).wf(),
            cell_in_table(old(self).view().gshare, pc),
        ensures
            final(self).wf(),
            final(self).btb_size() == old(self).btb_size(),
            final(self).view().gshare == old(self).view().gshare,
            ({
                let g = cell(old(self).view().gshare, pc);
                let taken = g.accept.contains(g.state);
                match btb_lookup(old(self).view().btb, pc) {
                    Some(hit) => r == (taken && hit.0, hit.1),
                    None => r == (false, 0u64),
                }
            }),
    {
        let btb_predict = self.btb.predict(pc);
        let gshare_predict = self.gshare.predict(pc);
        (gshare_predict && btb_predict.0, btb_predict.1)
    }
}

impl CtrlSignals for BPU {
    open spec fn ctrl_inv(&self) -> bool {
        self.wf()
    }

    open spec fn tik_ok(&self) -> bool {
        true
    }

    fn tik(&mut self)
        ensures
            final(self).view() == old(self).view(),
    {
    }

    fn rst(&mut self, rst: bool)
        ensures
            final(self).view() == (if rst {
                BpuView {
                    btb: BtbView { plru: plru_rst(old(self).view().btb.plru, true), ..old(self).view().btb },
                    gshare: GShareView { history: 0, table: pht_rst(old(self).view().gshare.table, true), ..old(self).view().gshare },
                }
            } else {
                old(self).view()
            }),
    {
        if rst {
            self.btb.rst(rst);
            self.gshare.rst(rst);
        }
    }

    fn flush(&mut self, rst: bool)
        ensures
            final(self).view() == (if rst {
                BpuView {
                    btb: BtbView { plru: plru_rst(old(self).view().btb.plru, true), ..old(self).view().btb },
                    gshare: GShareView { history: 0, table: pht_rst(old(self).view().gshare.table, true), ..old(self).view().gshare },
                }
            } else {
                old(self).view()
            }),
    {
        if rst {
            self.btb.flush(rst);
            self.gshare.flush(rst);
        }
    }
}

} // verus!
