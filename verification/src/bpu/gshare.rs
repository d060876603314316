use vstd::prelude::*;
use crate::bpu::pht::PFSM;
use crate::bpu::pht::PHT;
use crate::bpu::pht::PfsmView;
use crate::bpu::pht::pfsm_next;
use crate::bpu::pht::counter_at;
use crate::bpu::pht::counter_jump;
use crate::bpu::pht::lemma_counter_saturates;
use crate::bpu::pht::pht_rst;
use crate::interface::CtrlSignals;

verus! {

/// The `width` bits of `pc` from bit `low` up.
pub open spec fn bit_field(pc: u64, low: u64, width: u64) -> u64 {
    (pc >> low) & (((1u64 << width) as u64 - 1) as u64)
}

/// What a global-history predictor holds: the branch history (newest outcome in
/// the lowest bit), how many of its bits and of the program counter's bits index
/// the table, where the program-counter bits start, and the table.
pub struct GShareView {
    pub history: u64,
    pub history_width: u32,
    pub pc_width: u32,
    pub pc_low: usize,
    pub table: Seq<Seq<PfsmView>>,
}

/// The history bits that index the table.
pub open spec fn history_bits(v: GShareView) -> u64 {
    bit_field(v.history, 0, v.history_width as u64)
}

/// The program-counter bits that index the table.
pub open spec fn pc_bits(v: GShareView, pc: u64) -> u64 {
    bit_field(pc, v.pc_low as u64, v.pc_width as u64)
}

/// Whether the cell that `pc` and the history select lies inside the table: rows
/// are chosen by the program-counter bits and columns by the history bits.
pub open spec fn cell_in_table(v: GShareView, pc: u64) -> bool {
    &&& pc_bits(v, pc) < v.table.len()
    &&& history_bits(v) < v.table[pc_bits(v, pc) as int].len()
}

/// The state machine that `pc` and the history select.
pub open spec fn cell(v: GShareView, pc: u64) -> PfsmView {
    v.table[pc_bits(v, pc) as int][history_bits(v) as int]
}

/// The predictor after a branch at `pc` in direction `direction`: the selected
/// machine moves, and the outcome is shifted into the history.
pub open spec fn gshare_branch(v: GShareView, pc: u64, direction: bool) -> GShareView {
    let r = pc_bits(v, pc) as int;
    let c = history_bits(v) as int;
    GShareView {
        history: (((v.history << 1u64) as u64) + if direction { 1u64 } else { 0u64 }) as u64,
        table: v.table.update(r, v.table[r].update(c, PfsmView { state: pfsm_next(v.table[r][c], direction), ..v.table[r][c] })),
        ..v
    }
}

/// The history is a shift register: after a branch, the bits that index the table
/// are the previous ones moved up by one place, the outcome in the lowest place,
/// and the oldest dropped.
pub proof fn lemma_history_shifts(v: GShareView, pc: u64, direction: bool)
    requires
        v.history_width < 64,
    ensures
        history_bits(gshare_branch(v, pc, direction)) == bit_field(
            ((history_bits(v) << 1u64) | (if direction { 1u64 } else { 0u64 })) as u64,
            0,
            v.history_width as u64,
        ),
{
    let h = v.history;
    let w = v.history_width as u64;
    let b: u64 = if direction { 1 } else { 0 };
    assert(b <= 1 ==> ((((h << 1u64) as u64) + b) as u64 >> 0u64) & (((1u64 << w) as u64 - 1) as u64)
        == ((((h >> 0u64) & (((1u64 << w) as u64 - 1) as u64)) << 1u64) | b) >> 0u64 & (((1u64 << w) as u64 - 1) as u64))
        by (bit_vector);
}

/// Training: a branch at `pc` moves only the state machine that `pc` and the
/// history select, along the transition for the branch's outcome, keeping its
/// start state, transitions and accepting states; every other machine and the
/// table's shape stay as they were. For a two-bit saturating counter this is one
/// state up for a taken branch and one down for a not-taken one, so a counter in
/// its start state that sees one taken branch predicts taken.
pub proof fn lemma_gshare_trains(v: GShareView, pc: u64, direction: bool)
    requires
        cell_in_table(v, pc),
    ensures
        ({
            let w = gshare_branch(v, pc, direction);
            let r = pc_bits(v, pc) as int;
            let c = history_bits(v) as int;
            let old_cell = cell(v, pc);
            &&& w.table.len() == v.table.len()
            &&& forall|i: int| 0 <= i < v.table.len() ==> (#[trigger] w.table[i]).len() == v.table[i].len()
            &&& w.table[r][c].state == pfsm_next(old_cell, direction)
            &&& w.table[r][c].start == old_cell.start
            &&& w.table[r][c].jump == old_cell.jump
            &&& w.table[r][c].accept == old_cell.accept
            &&& forall|i: int, j: int|
                0 <= i < v.table.len() && 0 <= j < v.table[i].len() && (i != r || j != c)
                    ==> #[trigger] w.table[i][j] == v.table[i][j]
            &&& old_cell.jump == counter_jump() && old_cell.state < 4 ==> w.table[r][c].state == (
                if direction {
                    if old_cell.state == 3 { 3 } else { (old_cell.state + 1) as usize }
                } else {
                    if old_cell.state == 0 { 0 } else { (old_cell.state - 1) as usize }
                })
            &&& old_cell == counter_at(1) && direction ==> w.table[r][c].accept.contains(
                w.table[r][c].state,
            )
        }),
{
    let old_cell = cell(v, pc);
    if old_cell.state < 4 && old_cell.jump == counter_jump() {
        lemma_counter_saturates(old_cell.state, direction);
        assert(pfsm_next(old_cell, direction) == pfsm_next(counter_at(old_cell.state), direction));
    }
    lemma_counter_saturates(2, true);
}

/// A global-history branch direction predictor.
pub struct GShare {
    history: u64,
    history_width: u32,
    pc_width: u32,
    pc_low: usize,
    _pc_hash: bool,
    pht: PHT,
}

impl GShare {
    pub closed spec fn view(&self) -> GShareView {
        GShareView {
            history: self.history,
            history_width: self.history_width,
            pc_width: self.pc_width,
            pc_low: self.pc_low,
            table: self.pht.view(),
        }
    }

    /// The widths and the start bit name bits of a 64-bit word.
    pub open spec fn wf(&self) -> bool {
        &&& self.view().history_width < 64
        &&& self.view().pc_width < 64
        &&& self.view().pc_low < 64
    }

    /// A predictor with an empty history and a table of `2^history_width` rows of
    /// `2^pc_width` copies of `pfsm`.
    pub fn new(history_width: u32, pc_width: u32, pc_low: usize, pc_hash: bool, pfsm: PFSM) -> (r: Self)
        requires
            history_width < 64,
            pc_width < 64,
            pc_low < 64,
            history_width < usize::BITS,
            pc_width < usize::BITS,
        ensures
            r.wf(),
            r.view().history == 0,
            r.view().history_width == history_width,
            r.view().pc_width == pc_width,
            r.view().pc_low == pc_low,
            r.view().table.len() == (1usize << history_width),
            forall|i: int| 0 <= i < r.view().table.len() ==> (#[trigger] r.view().table[i]).len() == (1usize << pc_width),
            forall|i: int, j: int| 0 <= i < r.view().table.len() && 0 <= j < r.view().table[i].len() ==> #[trigger] r.view().table[i][j] == pfsm.view(),
    {
        let w: usize = 1usize << history_width;
        let l: usize = 1usize << pc_width;
        GShare {
            history: 0u64,
            history_width: history_width,
            pc_width: pc_width,
            pc_low: pc_low,
            _pc_hash: pc_hash,
            pht: PHT::new(w, l, pfsm),
        }
    }

    /// Trains the machine that `pc` and the history select with the branch outcome
    /// and shifts the outcome into the history.
    pub fn branch(&mut self, pc: u64, direction: bool)
        requires
            old(self).wf(),
            cell_in_table(old(self).view(), pc),
            cell(old(self).view(), pc).jump.contains_key(cell(old(self).view(), pc).state),
        ensures
            final(self).wf(),
            final(self).view() == gshare_branch(old(self).view(), pc, direction),
    {
        let pc_cut = self.pc_cut(pc);
        let history_cut = self.history_cut();
        proof {
            self.pht.lemma_dims();
        }
        self.pht.branch(pc_cut as usize, history_cut as usize, direction);
        let h = self.history;
        proof {
            assert((h << 1u64) < 0xffff_ffff_ffff_ffffu64) by (bit_vector);
        }
        if direction {
            self.history = (self.history << 1u64) + 1;
        } else {
            self.history = (self.history << 1u64) + 0;
        }
    }

    /// The prediction of the machine that `pc` and the history select.
    pub fn predict(&self, pc: u64) -> (r: bool)
        requires
            self.wf(),
            cell_in_table(self.view(), pc),
        ensures
            r == cell(self.view(), pc).accept.contains(cell(self.view(), pc).state),
    {
        let pc_cut = self.pc_cut(pc);
        let history_cut = self.history_cut();
        proof {
            self.pht.lemma_dims();
        }
        self.pht.predict(pc_cut as usize, history_cut as usize)
    }

    fn pc_cut(&self, pc: u64) -> (r: u64)
        requires
            self.wf(),
        ensures
            r == pc_bits(self.view(), pc),
    {
        let w = self.pc_width as u64;
        proof {
            crate::utils::lemma_low_mask(w);
        }
        (pc >> self.pc_low as u64) & ((1u64 << w) - 1)
    }

    /// The history bits that index the table.
    pub fn history_cut(&self) -> (r: u64)
        requires
            self.wf(),
        ensures
            r == history_bits(self.view()),
    {
        let w = self.history_width as u64;
        let h = self.history;
        proof {
            crate::utils::lemma_low_mask(w);
            assert(h >> 0u64 == h) by (bit_vector);
        }
        self.history & ((1u64 << w) - 1)
    }
}

impl CtrlSignals for GShare {
    open spec fn ctrl_inv(&self) -> bool {
        self.wf()
    }

    open spec fn tik_ok(&self) -> bool {
        true
    }

    fn tik(&mut self)
        ensures
            final(self).view() == old(self).view(),
    {
    }

    fn rst(&mut self, rst: bool)
        ensures
            final(self).view() == (if rst {
                GShareView { history: 0, table: pht_rst(old(self).view().table, true), ..old(self).view() }
            } else {
                old(self).view()
            }),
    {
        if rst {
            self.history = 0;
            self.pht.rst(rst);
        }
    }

    fn flush(&mut self, rst: bool)
        ensures
            final(self).view() == (if rst {
                GShareView { history: 0, table: pht_rst(old(self).view().table, true), ..old(self).view() }
            } else {
                old(self).view()
            }),
    {
        if rst {
            self.history = 0;
            self.pht.flush(rst);
        }
    }
}

} // verus!
