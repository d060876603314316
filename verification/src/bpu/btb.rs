use vstd::prelude::*;
use crate::buffers::plru::BufPLRU;
use crate::buffers::plru::PlruView;
use crate::buffers::plru::plru_insert;
use crate::buffers::plru::plru_rst;
use crate::buffers::plru::insert_node;
use crate::buffers::plru::find_tag;
use crate::buffers::plru::lemma_insert_then_find;
use crate::buffers::plru::insert_slot;
use crate::buffers::plru::trace_walk;
use crate::buffers::plru::log2_floor;
use crate::buffers::plru::p2;
use crate::bpu::gshare::bit_field;
use crate::interface::CtrlSignals;

verus! {

/// What a branch target buffer holds: its pseudo-LRU buffer of tags and targets,
/// and which program-counter bits form a tag.
pub struct BtbView {
    pub plru: PlruView<u64, u64>,
    pub pc_low: usize,
    pub pc_width: usize,
}

/// The tag of `pc`: its `pc_width` bits from bit `pc_low` up.
pub open spec fn btb_tag(v: BtbView, pc: u64) -> u64 {
    bit_field(pc, v.pc_low as u64, v.pc_width as u64)
}

/// What a lookup of `pc` answers: the valid flag and target of the first slot
/// holding its tag, or nothing.
pub open spec fn btb_lookup(v: BtbView, pc: u64) -> Option<(bool, u64)> {
    match find_tag(v.plru.tags, btb_tag(v, pc)) {
        Some(i) => Some((v.plru.vld[i], v.plru.data[i])),
        None => None,
    }
}

/// A branch target buffer: program-counter tags mapped to branch targets.
pub struct BTB {
    plru: BufPLRU<u64, u64>,
    pc_low: usize,
    pc_width: usize,
}

impl BTB {
    pub closed spec fn view(&self) -> BtbView {
        BtbView { plru: self.plru.view(), pc_low: self.pc_low, pc_width: self.pc_width }
    }

    /// The number of slots.
    pub closed spec fn size(&self) -> nat {
        self.plru.size()
    }

    /// The invariant: a well-formed buffer and tag bits inside a 64-bit word.
    pub closed spec fn wf(&self) -> bool {
        &&& self.plru.wf()
        &&& self.pc_low < 64
        &&& self.pc_width < 64
    }

    /// A buffer of `width` empty slots whose tags are the `pc_width` program-counter
    /// bits from bit `pc_low` up.
    pub fn new(width: usize, pc_width: usize, pc_low: usize) -> (r: Self)
        requires
            1 <= width <= 0xffff,
            pc_width < 64,
            pc_low < 64,
        ensures
            r.wf(),
            r.size() == width,
            r.view().pc_low == pc_low,
            r.view().pc_width == pc_width,
            forall|i: int| 0 <= i < width ==> !#[trigger] r.view().plru.vld[i],
    {
        BTB { plru: BufPLRU::new(width as u16), pc_low: pc_low, pc_width: pc_width }
    }

    fn pc_cut(&self, pc: u64) -> (r: u64)
        requires
            self.wf(),
        ensures
            r == btb_tag(self.view(), pc),
    {
        let w = self.pc_width as u64;
        proof {
            crate::utils::lemma_low_mask(w);
        }
        (pc >> self.pc_low as u64) & ((1u64 << w) - 1)
    }

    /// Records `target` under the tag of `pc`, in the slot the replacement tree
    /// points to.
    pub fn branch(&mut self, pc: u64, target: u64)
        requires
            old(self).wf(),
            insert_node(old(self).view().plru.tree, old(self).size()) >= old(self).size() - 1,
        ensures
            final(self).wf(),
            final(self).size() == old(self).size(),
            final(self).view() == (BtbView {
                plru: plru_insert(old(self).view().plru, (btb_tag(old(self).view(), pc), target)),
                ..old(self).view()
            }),
    {
        let tag = self.pc_cut(pc);
        self.plru.insert((tag, target))
    }

    /// In a well-formed buffer whose size is a power of two, `branch` can always
    /// be called.
    pub proof fn lemma_branch_ok(&self)
        requires
            self.wf(),
            p2(log2_floor(self.size())) == self.size(),
        ensures
            insert_node(self.view().plru.tree, self.size()) >= self.size() - 1,
    {
        self.plru.lemma_insert_ok();
    }

    /// A branch recorded for a program counter is found by the next lookup of that
    /// program counter, valid and with its target, unless a slot before the one the
    /// branch replaces holds the same tag (the first matching slot answers).
    pub proof fn lemma_branch_then_predict(&self, pc: u64, target: u64)
        requires
            self.wf(),
            insert_node(self.view().plru.tree, self.size()) >= self.size() - 1,
            forall|j: int|
                0 <= j < insert_slot(self.view().plru.tree, self.size()) ==> #[trigger] self.view().plru.tags[j]
                    != btb_tag(self.view(), pc),
        ensures
            btb_lookup(
                BtbView { plru: plru_insert(self.view().plru, (btb_tag(self.view(), pc), target)), ..self.view() },
                pc,
            ) == Some((true, target)),
    {
        self.plru.lemma_dims();
        lemma_insert_then_find(self.view().plru, (btb_tag(self.view(), pc), target));
    }

    /// Looks the tag of `pc` up: a hit gives the slot's valid flag and target and
    /// marks the slot as just used; a miss gives an invalid answer.
    pub fn predict(&mut self, pc: u64) -> (r: (bool, u64))
        requires
            old(self).wf(),
        ensures
            final(self).wf(),
            final(self).size() == old(self).size(),
            match btb_lookup(old(self).view(), pc) {
                Some(hit) => {
                    &&& r == hit
                    &&& final(self).view() == (BtbView {
                        plru: PlruView {
                            tree: trace_walk(
                                old(self).view().plru.tree,
                                (find_tag(old(self).view().plru.tags, btb_tag(old(self).view(), pc))->0 + old(self).size() - 1) as nat,
                                log2_floor(old(self).size()),
                            ),
                            ..old(self).view().plru
                        },
                        ..old(self).view()
                    })
                },
                None => r == (false, 0u64) && final(self).view() == old(self).view(),
            },
    {
        let tag = self.pc_cut(pc);
        self.plru.get(tag)
    }

    /// Shows nothing.
    pub fn disaplay(&self) {
    }
}

impl CtrlSignals for BTB {
    open spec fn ctrl_inv(&self) -> bool {
        self.wf()
    }

    open spec fn tik_ok(&self) -> bool {
        true
    }

    fn tik(&mut self)
        ensures
            final(self).view() == old(self).view(),
            final(self).size() == old(self).size(),
    {
    }

    fn rst(&mut self, rst: bool)
        ensures
            final(self).view() == (BtbView { plru: plru_rst(old(self).view().plru, rst), ..old(self).view() }),
            final(self).size() == old(self).size(),
    {
        if rst {
            self.plru.rst(rst);
        }
    }

    fn flush(&mut self, rst: bool)
        ensures
            final(self).view() == (BtbView { plru: plru_rst(old(self).view().plru, rst), ..old(self).view() }),
            final(self).size() == old(self).size(),
    {
        if rst {
            self.plru.flush(rst);
        }
    }
}

} // verus!
