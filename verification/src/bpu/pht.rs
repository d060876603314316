use vstd::prelude::*;
use std::collections::HashMap;
use std::collections::HashSet;
use crate::interface::CtrlSignals;

verus! {

broadcast use vstd::std_specs::hash::group_hash_axioms;

/// What a prediction state machine holds: its state, the state it starts and
/// resets to, its transitions (next state when not taken, when taken), and the
/// states in which it predicts taken.
pub struct PfsmView {
    pub state: usize,
    pub start: usize,
    pub jump: Map<usize, (usize, usize)>,
    pub accept: Set<usize>,
}

/// The state after a branch in direction `direction`.
pub open spec fn pfsm_next(v: PfsmView, direction: bool) -> usize {
    if direction {
        v.jump[v.state].1
    } else {
        v.jump[v.state].0
    }
}

/// The transitions of a two-bit saturating counter.
pub open spec fn counter_jump() -> Map<usize, (usize, usize)> {
    map![0usize => (0usize, 1usize), 1usize => (0usize, 2usize), 2usize => (1usize, 3usize), 3usize => (2usize, 3usize)]
}

/// A two-bit saturating counter in state `state` that predicts taken in its two
/// upper states and starts weakly not taken.
pub open spec fn counter_at(state: usize) -> PfsmView {
    PfsmView { state, start: 1, jump: counter_jump(), accept: set![3usize, 2usize] }
}

/// The default state machine is a saturating counter: a taken branch moves it one
/// state up and a not-taken one one state down, never past the ends, and it
/// predicts taken exactly in its two upper states.
pub proof fn lemma_counter_saturates(s: usize, direction: bool)
    requires
        s < 4,
    ensures
        pfsm_next(counter_at(s), direction) == (if direction {
            if s == 3 { 3 } else { s + 1 }
        } else {
            if s == 0 { 0 } else { s - 1 }
        }),
        counter_at(s).accept.contains(s) <==> s >= 2,
{
}

/// A table-driven branch prediction state machine.
pub struct PFSM {
    state: usize,
    start: usize,
    jump_map: HashMap<usize, (usize, usize)>,
    accept_set: HashSet<usize>,
}

/// Copies a set of states.
#[verifier::external_body]
fn clone_states(s: &HashSet<usize>) -> (r: HashSet<usize>)
    ensures
        r@ == s@,
{
    s.clone()
}

impl PFSM {
    pub closed spec fn view(&self) -> PfsmView {
        PfsmView {
            state: self.state,
            start: self.start,
            jump: self.jump_map@,
            accept: self.accept_set@,
        }
    }

    /// A machine in state `start` with the given transitions and accepting states.
    pub fn new(start: usize, jump_map: HashMap<usize, (usize, usize)>, accept_set: HashSet<usize>) -> (r: Self)
        ensures
            r.view() == (PfsmView { state: start, start, jump: jump_map@, accept: accept_set@ }),
    {
        PFSM { state: start, start: start, jump_map: jump_map, accept_set: accept_set }
    }

    /// Follows the transition for a branch in direction `direction`.
    pub fn branch(&mut self, direction: bool)
        requires
            old(self).view().jump.contains_key(old(self).view().state),
        ensures
            final(self).view() == (PfsmView { state: pfsm_next(old(self).view(), direction), ..old(self).view() }),
    {
        let next = match self.jump_map.get(&self.state) {
            Some(p) => *p,
            None => (self.state, self.state),
        };
        if direction {
            self.state = next.1;
        } else {
            self.state = next.0;
        }
    }

    /// Whether the machine predicts taken: its state is an accepting one.
    pub fn predict(&self) -> (r: bool)
        ensures
            r == self.view().accept.contains(self.view().state),
    {
        self.accept_set.contains(&self.state)
    }
}

impl Clone for PFSM {
    fn clone(&self) -> (r: Self)
        ensures
            r.view() == self.view(),
    {
        PFSM {
            state: self.state,
            start: self.start,
            jump_map: self.jump_map.clone(),
            accept_set: clone_states(&self.accept_set),
        }
    }
}

impl Default for PFSM {
    /// A two-bit saturating counter, starting weakly not taken.
    fn default() -> (r: Self)
        ensures
            r.view() == counter_at(1),
    {
        let start: usize = 0b01;
        let mut jump_map = HashMap::<usize, (usize, usize)>::new();
        jump_map.insert(0b00, (0b00, 0b01));
        jump_map.insert(0b01, (0b00, 0b10));
        jump_map.insert(0b10, (0b01, 0b11));
        jump_map.insert(0b11, (0b10, 0b11));
        let mut accept_set = HashSet::<usize>::new();
        accept_set.insert(0b11);
        accept_set.insert(0b10);
        proof {
            assert(jump_map@ =~= counter_jump());
            assert(accept_set@ =~= set![3usize, 2usize]);
        }
        PFSM { start: start, state: start, jump_map: jump_map, accept_set: accept_set }
    }
}

impl CtrlSignals for PFSM {
    open spec fn ctrl_inv(&self) -> bool {
        true
    }

    open spec fn tik_ok(&self) -> bool {
        true
    }

    fn tik(&mut self)
        ensures
            final(self).view() == old(self).view(),
    {
    }

    fn rst(&mut self, rst: bool)
        ensures
            final(self).view() == (if rst {
                PfsmView { state: old(self).view().start, ..old(self).view() }
            } else {
                old(self).view()
            }),
    {
        if rst {
            self.state = self.start;
        }
    }

    fn flush(&mut self, rst: bool)
        ensures
            final(self).view() == (if rst {
                PfsmView { state: old(self).view().start, ..old(self).view() }
            } else {
                old(self).view()
            }),
    {
        if rst {
            self.state = self.start;
        }
    }
}

/// A pattern history table: a grid of prediction state machines.
pub struct PHT {
    pfsm_table: Vec<Vec<PFSM>>,
}

impl PHT {
    /// The machines, by row and column.
    pub closed spec fn view(&self) -> Seq<Seq<PfsmView>> {
        Seq::new(self.pfsm_table@.len(), |i: int| Seq::new(self.pfsm_table@[i]@.len(), |j: int| self.pfsm_table@[i]@[j].view()))
    }

    /// A table of `w` rows of `l` copies of `pfsm`.
    pub fn new(w: usize, l: usize, pfsm: PFSM) -> (r: Self)
        ensures
            r.view().len() == w,
            forall|i: int| 0 <= i < w ==> (#[trigger] r.view()[i]).len() == l,
            forall|i: int, j: int| 0 <= i < w && 0 <= j < l ==> #[trigger] r.view()[i][j] == pfsm.view(),
    {
        let mut table: Vec<Vec<PFSM>> = Vec::new();
        let mut i: usize = 0;
        while i < w
            invariant
                i <= w,
                table@.len() == i,
                forall|a: int| 0 <= a < i ==> (#[trigger] table@[a])@.len() == l,
                forall|a: int, b: int| 0 <= a < i && 0 <= b < l ==> (#[trigger] table@[a]@[b]).view() == pfsm.view(),
            decreases w - i,
        {
            let mut row: Vec<PFSM> = Vec::new();
            let mut j: usize = 0;
            while j < l
                invariant
                    j <= l,
                    row@.len() == j,
                    forall|b: int| 0 <= b < j ==> (#[trigger] row@[b]).view() == pfsm.view(),
                decreases l - j,
            {
                row.push(pfsm.clone());
                j = j + 1;
            }
            table.push(row);
            i = i + 1;
        }
        PHT { pfsm_table: table }
    }

    /// Moves the machine at row `w`, column `l` for a branch in direction
    /// `direction`.
    pub fn branch(&mut self, w: usize, l: usize, direction: bool)
        requires
            w < old(self).view().len(),
            l < old(self).view()[w as int].len(),
            old(self).view()[w as int][l as int].jump.contains_key(old(self).view()[w as int][l as int].state),
        ensures
            final(self).view() == old(self).view().update(
                w as int,
                old(self).view()[w as int].update(
                    l as int,
                    PfsmView { state: pfsm_next(old(self).view()[w as int][l as int], direction), ..old(self).view()[w as int][l as int] },
                ),
            ),
    {
        let ghost old_view = self.view();
        self.pfsm_table[w][l].branch(direction);
        proof {
            let nv = self.view();
            let expected = old_view.update(
                w as int,
                old_view[w as int].update(
                    l as int,
                    PfsmView { state: pfsm_next(old_view[w as int][l as int], direction), ..old_view[w as int][l as int] },
                ),
            );
            assert forall|i: int| 0 <= i < nv.len() implies nv[i] =~= expected[i] by {}
            assert(nv =~= expected);
        }
    }

    /// The table's dimensions fit in a `usize`.
    pub proof fn lemma_dims(&self)
        ensures
            self.view().len() <= usize::MAX,
            forall|i: int| 0 <= i < self.view().len() ==> (#[trigger] self.view()[i]).len() <= usize::MAX,
    {
        assert(self.view().len() == self.pfsm_table.len());
        assert forall|i: int| 0 <= i < self.view().len() implies (#[trigger] self.view()[i]).len() <= usize::MAX by {
            assert(self.view()[i].len() == self.pfsm_table@[i].len());
            assert(self.pfsm_table@[i]@.len() == self.pfsm_table@[i].len());
        }
    }

    /// The prediction of the machine at row `w`, column `l`.
    pub fn predict(&self, w: usize, l: usize) -> (r: bool)
        requires
            w < self.view().len(),
            l < self.view()[w as int].len(),
        ensures
            r == self.view()[w as int][l as int].accept.contains(self.view()[w as int][l as int].state),
    {
        self.pfsm_table[w][l].predict()
    }
}

/// The table with, when `rst` holds, every machine back in its start state.
pub open spec fn pht_rst(t: Seq<Seq<PfsmView>>, rst: bool) -> Seq<Seq<PfsmView>> {
    if rst {
        Seq::new(t.len(), |i: int| Seq::new(t[i].len(), |j: int| PfsmView { state: t[i][j].start, ..t[i][j] }))
    } else {
        t
    }
}

impl PHT {
    fn reset_all(&mut self, rst: bool)
        ensures
            final(self).view() == pht_rst(old(self).view(), rst),
    {
        let ghost t = self.view();
        let n = self.pfsm_table.len();
        let mut i: usize = 0;
        while i < n
            invariant
                i <= n,
                n == self.pfsm_table@.len(),
                self.view().len() == t.len(),
                forall|a: int| 0 <= a < t.len() ==> (#[trigger] self.view()[a]).len() == t[a].len(),
                forall|a: int| 0 <= a < i ==> (#[trigger] self.view()[a]) == pht_rst(t, rst)[a],
                forall|a: int| i <= a < t.len() ==> (#[trigger] self.view()[a]) == t[a],
            decreases n - i,
        {
            let m = self.pfsm_table[i].len();
            let mut j: usize = 0;
            while j < m
                invariant
                    i < n,
                    j <= m,
                    n == self.pfsm_table@.len(),
                    m == self.pfsm_table@[i as int]@.len(),
                    self.view().len() == t.len(),
                    forall|a: int| 0 <= a < t.len() ==> (#[trigger] self.view()[a]).len() == t[a].len(),
                    forall|a: int| 0 <= a < i ==> (#[trigger] self.view()[a]) == pht_rst(t, rst)[a],
                    forall|a: int| i < a < t.len() ==> (#[trigger] self.view()[a]) == t[a],
                    forall|b: int| 0 <= b < j ==> (#[trigger] self.view()[i as int][b]) == pht_rst(t, rst)[i as int][b],
                    forall|b: int| j <= b < m ==> (#[trigger] self.view()[i as int][b]) == t[i as int][b],
                decreases m - j,
            {
                let ghost before = self.view();
                assert(before[i as int][j as int] == t[i as int][j as int]);
                let ghost cell = self.pfsm_table[i as int][j as int].view();
                assert(cell == before[i as int][j as int]);
                self.pfsm_table[i][j].rst(rst);
                proof {
                    let after = self.view();
                    assert forall|a: int| 0 <= a < t.len() && a != i implies after[a] =~= before[a] by {}
                    assert forall|b: int| 0 <= b < m && b != j implies after[i as int][b] == before[i as int][b] by {}
                    assert(after[i as int][j as int] == self.pfsm_table[i as int][j as int].view());
                    assert(after[i as int][j as int] == pht_rst(t, rst)[i as int][j as int]);
                }
                j = j + 1;
            }
            proof {
                assert(self.view()[i as int] =~= pht_rst(t, rst)[i as int]);
            }
            i = i + 1;
        }
        proof {
            assert(self.view() =~= pht_rst(t, rst));
        }
    }
}

impl CtrlSignals for PHT {
    open spec fn ctrl_inv(&self) -> bool {
        true
    }

    open spec fn tik_ok(&self) -> bool {
        true
    }

    fn tik(&mut self)
        ensures
            final(self).view() == old(self).view(),
    {
    }

    fn rst(&mut self, rst: bool)
        ensures
            final(self).view() == pht_rst(old(self).view(), rst),
    {
        self.reset_all(rst);
    }

    fn flush(&mut self, rst: bool)
        ensures
            final(self).view() == pht_rst(old(self).view(), rst),
    {
        self.reset_all(rst);
    }
}

} // verus!
