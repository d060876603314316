use vstd::prelude::*;
use std::collections::HashMap;
use crate::cfg::regfile_cfg::APF_SIZE;
use crate::cfg::regfile_cfg::CSRF_SIZE;

verus! {

broadcast use vstd::std_specs::hash::group_hash_axioms;

/// The value register `r` reads as, given the stored values: register 0 reads
/// as zero.
pub open spec fn reg_value(regs: Seq<u64>, r: u8) -> u64 {
    if r == 0 {
        0
    } else {
        regs[r as int]
    }
}

/// Whether register `r` reads as busy, given the busy flags: register 0 never is.
pub open spec fn busy_value(busy: Map<usize, bool>, r: u8) -> bool {
    if r == 0 {
        false
    } else {
        busy[r as usize]
    }
}

/// The stored values after writing `data` to register `rd`: a write to register 0
/// is dropped.
pub open spec fn reg_write(regs: Seq<u64>, rd: u8, data: u64) -> Seq<u64> {
    if rd != 0 {
        regs.update(rd as int, data)
    } else {
        regs
    }
}

/// The busy flags after setting register `rd`'s flag to `busy`: register 0 is left
/// alone.
pub open spec fn busy_write(busy_flags: Map<usize, bool>, rd: u8, busy: bool) -> Map<usize, bool> {
    if rd != 0 {
        busy_flags.insert(rd as usize, busy)
    } else {
        busy_flags
    }
}

/// A read gives back what the last write to the same register wrote, except that
/// register 0 always reads as zero; a write leaves every other register's value
/// unchanged.
pub proof fn lemma_reg_read_after_write(regs: Seq<u64>, rd: u8, data: u64, r: u8)
    requires
        rd < regs.len(),
        r < regs.len(),
    ensures
        reg_value(reg_write(regs, rd, data), r) == (if r == rd {
            if r == 0 { 0 } else { data }
        } else {
            reg_value(regs, r)
        }),
{
}

/// Reading the busy flag gives back what the last flag write to the same register
/// set, except that register 0 is never busy; other registers keep their flags.
pub proof fn lemma_busy_read_after_write(busy_flags: Map<usize, bool>, rd: u8, busy: bool, r: u8)
    ensures
        busy_value(busy_write(busy_flags, rd, busy), r) == (if r == rd {
            r != 0 && busy
        } else {
            busy_value(busy_flags, r)
        }),
{
}

/// The architectural register file: 32 general registers and one more slot, with a
/// busy flag per register. Register 0 reads as zero and is never busy.
pub struct ARF {
    regs: Vec<u64>,
    busy_table: HashMap<usize, bool>,
}

impl ARF {
    /// The stored register values.
    pub closed spec fn regs_view(&self) -> Seq<u64> {
        self.regs@
    }

    /// The busy flags, keyed by register number.
    pub closed spec fn busy_view(&self) -> Map<usize, bool> {
        self.busy_table@
    }

    /// The value register `r` reads as.
    pub open spec fn reg(&self, r: u8) -> u64 {
        reg_value(self.regs_view(), r)
    }

    /// Whether register `r` reads as busy.
    pub open spec fn busy(&self, r: u8) -> bool {
        busy_value(self.busy_view(), r)
    }

    /// The internal invariant: one value and one busy flag per register slot.
    pub open spec fn wf(&self) -> bool {
        &&& self.regs_view().len() == APF_SIZE
        &&& forall|i: usize| #[trigger] self.busy_view().contains_key(i) <==> i < APF_SIZE
    }

    /// All registers zero and free.
    pub fn new() -> (r: Self)
        ensures
            r.wf(),
            forall|i: int| 0 <= i < APF_SIZE ==> #[trigger] r.regs_view()[i] == 0,
            forall|i: usize| i < APF_SIZE ==> !#[trigger] r.busy_view()[i],
    {
        let mut tmp = HashMap::<usize, bool>::new();
        let mut i: usize = 0;
        while i < APF_SIZE
            invariant
                0 <= i <= APF_SIZE,
                forall|j: usize| #[trigger] tmp@.contains_key(j) <==> j < i,
                forall|j: usize| j < i ==> !#[trigger] tmp@[j],
            decreases APF_SIZE - i,
        {
            tmp.insert(i, false);
            i = i + 1;
        }
        ARF { regs: vec![0u64; APF_SIZE], busy_table: tmp }
    }

    /// The value of register `rd` (zero for register 0).
    pub fn get(&self, rd: u8) -> (r: u64)
        requires
            self.wf(),
            rd < APF_SIZE,
        ensures
            r == self.reg(rd),
    {
        if rd == 0 {
            0
        } else {
            self.regs[rd as usize]
        }
    }

    /// Writes register `rd`; writes to register 0 are dropped.
    pub fn set(&mut self, rd: u8, data: u64)
        requires
            old(self).wf(),
            rd < APF_SIZE,
        ensures
            final(self).wf(),
            final(self).regs_view() == reg_write(old(self).regs_view(), rd, data),
            final(self).busy_view() == old(self).busy_view(),
    {
        if rd != 0 {
            self.regs.set(rd as usize, data);
        }
        assert(self.busy_table@ == old(self).busy_table@);
        assert(self.busy_view() == old(self).busy_view());
    }

    /// Whether register `rd` is busy (never for register 0).
    pub fn get_busy(&self, rd: u8) -> (r: bool)
        requires
            self.wf(),
            rd < APF_SIZE,
        ensures
            r == self.busy(rd),
    {
        if rd != 0 {
            assert(self.busy_view().contains_key(rd as usize));
            *self.busy_table.get(&(rd as usize)).unwrap()
        } else {
            false
        }
    }

    /// Sets the busy flag of register `rd`; register 0 is left alone.
    pub fn set_busy(&mut self, rd: u8, busy: bool)
        requires
            old(self).wf(),
            rd < APF_SIZE,
        ensures
            final(self).wf(),
            final(self).regs_view() == old(self).regs_view(),
            final(self).busy_view() == busy_write(old(self).busy_view(), rd, busy),
    {
        if rd == 0 {
            return;
        }
        self.busy_table.insert(rd as usize, busy);
        assert forall|i: usize| #[trigger] self.busy_view().contains_key(i) <==> i < APF_SIZE by {
            assert(old(self).busy_view().contains_key(i) <==> i < APF_SIZE);
        }
    }
}

/// The control and status register file: 4096 registers with a busy flag each.
pub struct CSRF {
    regs: Vec<u64>,
    busy_table: HashMap<usize, bool>,
}

impl CSRF {
    /// The stored register values.
    pub closed spec fn regs_view(&self) -> Seq<u64> {
        self.regs@
    }

    /// The busy flags, keyed by register number.
    pub closed spec fn busy_view(&self) -> Map<usize, bool> {
        self.busy_table@
    }

    /// The internal invariant: one value and one busy flag per register.
    pub open spec fn wf(&self) -> bool {
        &&& self.regs_view().len() == CSRF_SIZE
        &&& forall|i: usize| #[trigger] self.busy_view().contains_key(i) <==> i < CSRF_SIZE
    }

    /// All registers zero and free.
    pub fn new() -> (r: Self)
        ensures
            r.wf(),
            forall|i: int| 0 <= i < CSRF_SIZE ==> #[trigger] r.regs_view()[i] == 0,
            forall|i: usize| i < CSRF_SIZE ==> !#[trigger] r.busy_view()[i],
    {
        let mut tmp = HashMap::<usize, bool>::new();
        let mut i: usize = 0;
        while i < CSRF_SIZE
            invariant
                0 <= i <= CSRF_SIZE,
                forall|j: usize| #[trigger] tmp@.contains_key(j) <==> j < i,
                forall|j: usize| j < i ==> !#[trigger] tmp@[j],
            decreases CSRF_SIZE - i,
        {
            tmp.insert(i, false);
            i = i + 1;
        }
        CSRF { regs: vec![0u64; CSRF_SIZE], busy_table: tmp }
    }

    /// The value of register `rd`.
    pub fn get(&self, rd: u16) -> (r: u64)
        requires
            self.wf(),
            rd < CSRF_SIZE,
        ensures
            r == self.regs_view()[rd as int],
    {
        self.regs[rd as usize]
    }

    /// Writes register `rd`.
    pub fn set(&mut self, rd: u16, data: u64)
        requires
            old(self).wf(),
            rd < CSRF_SIZE,
        ensures
            final(self).wf(),
            final(self).regs_view() == old(self).regs_view().update(rd as int, data),
            final(self).busy_view() == old(self).busy_view(),
    {
        self.regs.set(rd as usize, data);
        assert(self.busy_view() == old(self).busy_view());
    }

    /// Whether register `rd` is busy.
    pub fn get_busy(&self, rd: u16) -> (r: bool)
        requires
            self.wf(),
            rd < CSRF_SIZE,
        ensures
            r == self.busy_view()[rd as usize],
    {
        assert(self.busy_view().contains_key(rd as usize));
        *self.busy_table.get(&(rd as usize)).unwrap()
    }

    /// Sets the busy flag of register `rd`.
    pub fn set_busy(&mut self, rd: u16, busy: bool)
        requires
            old(self).wf(),
            rd < CSRF_SIZE,
        ensures
            final(self).wf(),
            final(self).regs_view() == old(self).regs_view(),
            final(self).busy_view() == old(self).busy_view().insert(rd as usize, busy),
    {
        self.busy_table.insert(rd as usize, busy);
        assert forall|i: usize| #[trigger] self.busy_view().contains_key(i) <==> i < CSRF_SIZE by {
            assert(old(self).busy_view().contains_key(i) <==> i < CSRF_SIZE);
        }
    }
}

} // verus!
