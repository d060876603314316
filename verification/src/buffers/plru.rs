use vstd::prelude::*;
use vstd::std_specs::cmp::PartialEqSpec;
use crate::interface::CtrlSignals;

verus! {

/// What a pseudo-LRU buffer holds: per slot a tag, a valid flag and a datum, and
/// the bits of its replacement tree, stored as a heap (the children of node `p`
/// are `2p + 1` and `2p + 2`; `true` points left).
pub struct PlruView<T, D> {
    pub tags: Seq<T>,
    pub vld: Seq<bool>,
    pub data: Seq<D>,
    pub tree: Seq<bool>,
}

/// `2^k`
pub open spec fn p2(k: nat) -> nat
    decreases k,
{
    if k == 0 {
        1
    } else {
        2 * p2((k - 1) as nat)
    }
}

/// `floor(log2(n))`, the depth of the replacement tree of an `n`-slot buffer.
pub open spec fn log2_floor(n: nat) -> nat
    decreases n,
{
    if n <= 1 {
        0
    } else {
        1 + log2_floor(n / 2)
    }
}

/// The walk an insertion makes from node `pt`, `steps` levels down: each node it
/// passes is flipped and the walk goes the way the node pointed before. Gives the
/// tree and the node reached.
pub open spec fn insert_walk(tree: Seq<bool>, pt: nat, steps: nat) -> (Seq<bool>, nat)
    decreases steps,
{
    if steps == 0 {
        (tree, pt)
    } else {
        let d = tree[pt as int];
        insert_walk(tree.update(pt as int, !d), if d { 2 * pt + 1 } else { 2 * pt + 2 }, (steps - 1) as nat)
    }
}

/// The walk an access makes from node `pt`, `steps` levels up: each parent it
/// reaches is set to whether the walk came from node 1.
pub open spec fn trace_walk(tree: Seq<bool>, pt: nat, steps: nat) -> Seq<bool>
    decreases steps,
{
    if steps == 0 || pt == 0 {
        tree
    } else {
        let parent = ((pt - 1) / 2) as nat;
        trace_walk(tree.update(parent as int, pt == 1), parent, (steps - 1) as nat)
    }
}

/// The slot an insertion into an `n`-slot buffer with tree `tree` fills, given as
/// the tree node its walk reaches; the slot is that node less `n - 1`.
pub open spec fn insert_node(tree: Seq<bool>, n: nat) -> nat {
    insert_walk(tree, 0, log2_floor(n)).1
}

/// The buffer after inserting `val`.
pub open spec fn plru_insert<T, D>(v: PlruView<T, D>, val: (T, D)) -> PlruView<T, D> {
    let n = v.tags.len();
    let (t, pt) = insert_walk(v.tree, 0, log2_floor(n));
    let i = pt - (n - 1);
    PlruView {
        tags: v.tags.update(i, val.0),
        vld: v.vld.update(i, true),
        data: v.data.update(i, val.1),
        tree: t,
    }
}

/// Whether slot `i` is the first whose tag equals `tag`.
pub open spec fn first_match<T: PartialEqSpec>(tags: Seq<T>, tag: T, i: int) -> bool {
    &&& 0 <= i < tags.len()
    &&& tags[i].eq_spec(&tag)
    &&& forall|j: int| 0 <= j < i ==> !(#[trigger] tags[j]).eq_spec(&tag)
}

proof fn lemma_log2_bounds(n: nat)
    requires
        n >= 1,
    ensures
        p2(log2_floor(n)) <= n < p2(log2_floor(n) + 1),
    decreases n,
{
    if n > 1 {
        lemma_log2_bounds(n / 2);
        let l = log2_floor(n / 2);
        assert(log2_floor(n) == l + 1);
        assert(p2(l + 1) == 2 * p2(l));
        assert(p2(l + 2) == 2 * p2(l + 1));
    } else {
        assert(p2(1) == 2 * p2(0));
    }
}

/// A fixed-size buffer with tree-based pseudo-LRU replacement.
pub struct BufPLRU<T, D> {
    max_size: u16,
    tag: Vec<T>,
    vld: Vec<bool>,
    data: Vec<D>,
    tree: Vec<bool>,
}

impl<T: Copy + PartialEq + Default, D: Copy + Default> BufPLRU<T, D> {
    pub closed spec fn view(&self) -> PlruView<T, D> {
        PlruView { tags: self.tag@, vld: self.vld@, data: self.data@, tree: self.tree@ }
    }

    /// The number of slots.
    pub closed spec fn size(&self) -> nat {
        self.max_size as nat
    }

    /// The invariant: at least one slot, one tag, flag and datum per slot, and a
    /// tree of one node fewer.
    pub closed spec fn wf(&self) -> bool {
        &&& self.max_size >= 1
        &&& self.tag@.len() == self.max_size
        &&& self.vld@.len() == self.max_size
        &&& self.data@.len() == self.max_size
        &&& self.tree@.len() == self.max_size - 1
    }

    /// A well-formed buffer has one tag, flag and datum per slot, at least one slot,
    /// and a tree of one node fewer.
    pub proof fn lemma_dims(&self)
        requires
            self.wf(),
        ensures
            self.size() >= 1,
            self.view().tags.len() == self.size(),
            self.view().vld.len() == self.size(),
            self.view().data.len() == self.size(),
            self.view().tree.len() == self.size() - 1,
    {
    }

    /// In a well-formed buffer whose size is a power of two, an insertion replaces a
    /// slot inside the buffer, as `insert` requires.
    pub proof fn lemma_insert_ok(&self)
        requires
            self.wf(),
            p2(log2_floor(self.size())) == self.size(),
        ensures
            insert_node(self.view().tree, self.size()) >= self.size() - 1,
    {
        lemma_insert_slot_in_range(self.view().tree, self.size());
    }

    /// A buffer of `size` empty slots whose tree points left everywhere.
    pub fn new(size: u16) -> (r: Self)
        requires
            size >= 1,
        ensures
            r.wf(),
            r.size() == size,
            r.view().tags.len() == size,
            forall|i: int| 0 <= i < size ==> !#[trigger] r.view().vld[i],
            forall|i: int| 0 <= i < size - 1 ==> #[trigger] r.view().tree[i],
    {
        let n = size as usize;
        let t = T::default();
        let d = D::default();
        let mut tag: Vec<T> = Vec::new();
        let mut vld: Vec<bool> = Vec::new();
        let mut data: Vec<D> = Vec::new();
        let mut i: usize = 0;
        while i < n
            invariant
                i <= n,
                tag@.len() == i,
                vld@.len() == i,
                data@.len() == i,
                forall|j: int| 0 <= j < i ==> !#[trigger] vld@[j],
            decreases n - i,
        {
            tag.push(t);
            vld.push(false);
            data.push(d);
            i = i + 1;
        }
        let tree = Self::fresh_tree(size);
        BufPLRU { max_size: size, vld, tag, data, tree }
    }

    fn fresh_tree(size: u16) -> (r: Vec<bool>)
        requires
            size >= 1,
        ensures
            r@.len() == size - 1,
            forall|i: int| 0 <= i < size - 1 ==> #[trigger] r@[i],
    {
        let m = (size - 1) as usize;
        let mut tree: Vec<bool> = Vec::new();
        let mut i: usize = 0;
        while i < m
            invariant
                i <= m,
                tree@.len() == i,
                forall|j: int| 0 <= j < i ==> #[trigger] tree@[j],
            decreases m - i,
        {
            tree.push(true);
            i = i + 1;
        }
        tree
    }

    fn levels(&self) -> (r: usize)
        requires
            self.wf(),
        ensures
            r == log2_floor(self.size()),
            p2(r as nat) <= self.size(),
    {
        let n = self.max_size as usize;
        let mut k: usize = 0;
        let mut m: usize = n;
        proof {
            lemma_log2_bounds(n as nat);
        }
        while m > 1
            invariant
                1 <= m <= n,
                n <= 0xffff,
                k + log2_floor(m as nat) == log2_floor(n as nat),
                k <= 16,
            decreases m,
        {
            m = m / 2;
            k = k + 1;
            proof {
                lemma_log2_bounds(m as nat);
                lemma_log2_bounds(n as nat);
                assert(k <= 16) by {
                    assert(p2(log2_floor(n as nat)) <= 0xffff);
                    reveal_with_fuel(p2, 17);
                    if log2_floor(n as nat) >= 16 {
                        lemma_p2_mono(16, log2_floor(n as nat));
                    }
                }
            }
        }
        proof {
            lemma_log2_bounds(n as nat);
        }
        k
    }

    /// Puts `val` in the slot the replacement tree points to, flipping every tree
    /// node on the way there.
    pub fn insert(&mut self, val: (T, D))
        requires
            old(self).wf(),
            insert_node(old(self).view().tree, old(self).size()) >= old(self).size() - 1,
        ensures
            final(self).wf(),
            final(self).size() == old(self).size(),
            final(self).view() == plru_insert(old(self).view(), val),
    {
        let n = self.max_size as usize;
        let k = self.levels();
        let ghost t0 = self.tree@;
        let mut pt: usize = 0;
        let mut lvl: usize = 0;
        assert(p2(1) == 2 * p2(0));
        while lvl < k
            invariant
                self.wf(),
                n == self.max_size,
                k == log2_floor(n as nat),
                p2(k as nat) <= n,
                lvl <= k,
                self.tag@ == old(self).tag@,
                self.vld@ == old(self).vld@,
                self.data@ == old(self).data@,
                pt + 2 <= p2((lvl + 1) as nat),
                insert_walk(t0, 0, k as nat) == insert_walk(self.tree@, pt as nat, (k - lvl) as nat),
            decreases k - lvl,
        {
            proof {
                lemma_p2_mono((lvl + 1) as nat, k as nat);
            }
            let direction = self.tree[pt];
            self.tree.set(pt, !direction);
            if direction {
                pt = 2 * pt + 1;
            } else {
                pt = 2 * pt + 2;
            }
            lvl = lvl + 1;
        }
        pt = pt - (n - 1);
        self.vld.set(pt, true);
        self.tag.set(pt, val.0);
        self.data.set(pt, val.1);
    }

    /// Looks `tag` up: when a slot holds it, the first such slot is marked as just
    /// used in the replacement tree and its valid flag and datum are given;
    /// otherwise an invalid default.
    pub fn get(&mut self, tag: T) -> (r: (bool, D))
        requires
            old(self).wf(),
        ensures
            final(self).wf(),
            final(self).size() == old(self).size(),
            T::obeys_eq_spec() ==> match find_tag(old(self).view().tags, tag) {
                Some(i) => {
                    &&& r == (old(self).view().vld[i as int], old(self).view().data[i as int])
                    &&& final(self).view() == (PlruView {
                        tree: trace_walk(old(self).view().tree, (i + old(self).size() - 1) as nat, log2_floor(old(self).size())),
                        ..old(self).view()
                    })
                },
                None => {
                    &&& !r.0
                    &&& call_ensures(D::default, (), r.1)
                    &&& final(self).view() == old(self).view()
                },
            },
    {
        let n = self.tag.len();
        let mut i: usize = 0;
        while i < n
            invariant_except_break
                i <= n,
                n == self.tag@.len(),
                T::obeys_eq_spec() ==> forall|j: int| 0 <= j < i ==> !(#[trigger] self.tag@[j]).eq_spec(&tag),
            ensures
                i <= n,
                T::obeys_eq_spec() ==> forall|j: int| 0 <= j < i ==> !(#[trigger] self.tag@[j]).eq_spec(&tag),
                i < n ==> (T::obeys_eq_spec() ==> self.tag@[i as int].eq_spec(&tag)),
            decreases n - i,
        {
            if self.tag[i] == tag {
                break;
            }
            i = i + 1;
        }
        if i < n {
            proof {
                if T::obeys_eq_spec() {
                    lemma_find_tag_first(self.tag@, tag, i as int);
                }
            }
            self.trace_back(i);
            (self.vld[i], self.data[i])
        } else {
            proof {
                if T::obeys_eq_spec() {
                    lemma_find_tag_none(self.tag@, tag);
                }
            }
            (false, D::default())
        }
    }

    /// Shows nothing.
    pub fn display(&self) {
    }

    fn trace_back(&mut self, id: usize)
        requires
            old(self).wf(),
            id < old(self).size(),
        ensures
            final(self).wf(),
            final(self).view() == (PlruView {
                tree: trace_walk(old(self).view().tree, (id + old(self).size() - 1) as nat, log2_floor(old(self).size())),
                ..old(self).view()
            }),
    {
        let n = self.max_size as usize;
        let k = self.levels();
        let ghost t0 = self.tree@;
        let mut pt: usize = id + n - 1;
        let mut lvl: usize = k;
        proof {
            lemma_log2_bounds(n as nat);
        }
        while lvl > 0
            invariant
                self.wf(),
                n == self.max_size,
                lvl <= k,
                pt < 2 * n - 1,
                pt + 1 >= p2(lvl as nat),
                self.tag@ == old(self).tag@,
                self.vld@ == old(self).vld@,
                self.data@ == old(self).data@,
                trace_walk(t0, (id + n - 1) as nat, k as nat) == trace_walk(self.tree@, pt as nat, lvl as nat),
            decreases lvl,
        {
            assert(p2(lvl as nat) == 2 * p2((lvl - 1) as nat));
            assert(p2((lvl - 1) as nat) >= 1) by {
                lemma_p2_mono(0, (lvl - 1) as nat);
            }
            let ghost before = self.tree@;
            let direction: bool = pt == 1;
            pt = (pt - 1) / 2;
            if direction != self.tree[pt] {
                let b = self.tree[pt];
                self.tree.set(pt, !b);
            }
            proof {
                assert(self.tree@ =~= before.update(pt as int, direction));
            }
            lvl = lvl - 1;
        }
    }
}

/// The buffer after a reset request: when `rst` holds every slot is invalid and
/// every tree node points left; tags and data stay.
pub open spec fn plru_rst<T, D>(v: PlruView<T, D>, rst: bool) -> PlruView<T, D> {
    if rst {
        PlruView {
            vld: Seq::new(v.vld.len(), |i: int| false),
            tree: Seq::new(v.tree.len(), |i: int| true),
            ..v
        }
    } else {
        v
    }
}

impl<T: Copy + PartialEq + Default, D: Copy + Default> BufPLRU<T, D> {
    fn clear(&mut self, rst: bool)
        requires
            old(self).wf(),
        ensures
            final(self).wf(),
            final(self).size() == old(self).size(),
            final(self).view() == plru_rst(old(self).view(), rst),
    {
        if rst {
            let n = self.max_size as usize;
            let mut vld: Vec<bool> = Vec::new();
            let mut i: usize = 0;
            while i < n
                invariant
                    i <= n,
                    vld@.len() == i,
                    forall|j: int| 0 <= j < i ==> !#[trigger] vld@[j],
                decreases n - i,
            {
                vld.push(false);
                i = i + 1;
            }
            self.vld = vld;
            self.tree = Self::fresh_tree(self.max_size);
            proof {
                assert(self.view().vld =~= plru_rst(old(self).view(), rst).vld);
                assert(self.view().tree =~= plru_rst(old(self).view(), rst).tree);
            }
        }
    }
}

impl<T: Copy + PartialEq + Default, D: Copy + Default> CtrlSignals for BufPLRU<T, D> {
    open spec fn ctrl_inv(&self) -> bool {
        self.wf()
    }

    open spec fn tik_ok(&self) -> bool {
        true
    }

    fn tik(&mut self)
        ensures
            final(self).view() == old(self).view(),
            final(self).size() == old(self).size(),
    {
    }

    fn rst(&mut self, rst: bool)
        ensures
            final(self).view() == plru_rst(old(self).view(), rst),
            final(self).size() == old(self).size(),
    {
        self.clear(rst);
    }

    fn flush(&mut self, rst: bool)
        ensures
            final(self).view() == plru_rst(old(self).view(), rst),
            final(self).size() == old(self).size(),
    {
        self.clear(rst);
    }
}

/// After a reset every slot is invalid, so no lookup hits a valid entry; tags and
/// data stay where they were.
pub proof fn lemma_reset_invalidates<T, D>(v: PlruView<T, D>)
    ensures
        forall|i: int| 0 <= i < v.vld.len() ==> !#[trigger] plru_rst(v, true).vld[i],
        plru_rst(v, true).tags == v.tags,
        plru_rst(v, true).data == v.data,
{
}

/// The first slot whose tag equals `tag`, if any.
pub open spec fn find_tag<T: PartialEqSpec>(tags: Seq<T>, tag: T) -> Option<int> {
    if exists|i: int| first_match(tags, tag, i) {
        Some(choose|i: int| first_match(tags, tag, i))
    } else {
        None
    }
}

proof fn lemma_find_tag_first<T: PartialEqSpec>(tags: Seq<T>, tag: T, i: int)
    requires
        first_match(tags, tag, i),
    ensures
        find_tag(tags, tag) == Some(i),
{
    let j = choose|j: int| first_match(tags, tag, j);
    assert(first_match(tags, tag, j));
    if j < i {
        assert(!tags[j].eq_spec(&tag));
    }
    if i < j {
        assert(!tags[i].eq_spec(&tag));
    }
}

proof fn lemma_find_tag_none<T: PartialEqSpec>(tags: Seq<T>, tag: T)
    requires
        forall|j: int| 0 <= j < tags.len() ==> !(#[trigger] tags[j]).eq_spec(&tag),
    ensures
        find_tag(tags, tag) == None::<int>,
{
}

proof fn lemma_walk_bounds(tree: Seq<bool>, pt: nat, steps: nat, l: nat)
    requires
        p2(l) - 1 <= pt <= p2(l + 1) - 2,
    ensures
        p2(l + steps) - 1 <= insert_walk(tree, pt, steps).1 <= p2(l + steps + 1) - 2,
    decreases steps,
{
    assert(p2(l + 1) == 2 * p2(l));
    assert(p2(l + 2) == 2 * p2(l + 1));
    if steps > 0 {
        let d = tree[pt as int];
        let next: nat = if d { 2 * pt + 1 } else { 2 * pt + 2 };
        lemma_walk_bounds(tree.update(pt as int, !d), next, (steps - 1) as nat, l + 1);
    }
}

/// The slot an insertion replaces.
pub open spec fn insert_slot(tree: Seq<bool>, n: nat) -> int {
    insert_node(tree, n) - (n - 1)
}

/// In a buffer whose size is a power of two, every tree state makes an insertion
/// replace a slot inside the buffer.
pub proof fn lemma_insert_slot_in_range(tree: Seq<bool>, n: nat)
    requires
        n >= 1,
        p2(log2_floor(n)) == n,
    ensures
        insert_node(tree, n) >= n - 1,
        0 <= insert_slot(tree, n) < n,
{
    let k = log2_floor(n);
    assert(p2(1) == 2 * p2(0));
    lemma_walk_bounds(tree, 0, k, 0);
    assert(p2(k + 1) == 2 * p2(k));
}

/// A tag that no slot before the one an insertion replaces holds is found right
/// after it is inserted, valid and with the inserted datum.
pub proof fn lemma_insert_then_find<T: PartialEqSpec, D>(v: PlruView<T, D>, val: (T, D))
    requires
        v.tags.len() >= 1,
        v.vld.len() == v.tags.len(),
        v.data.len() == v.tags.len(),
        insert_node(v.tree, v.tags.len()) >= v.tags.len() - 1,
        val.0.eq_spec(&val.0),
        forall|j: int|
            0 <= j < insert_slot(v.tree, v.tags.len()) ==> !(#[trigger] v.tags[j]).eq_spec(&val.0),
    ensures
        ({
            let w = plru_insert(v, val);
            match find_tag(w.tags, val.0) {
                Some(i) => w.vld[i] && w.data[i] == val.1,
                None => false,
            }
        }),
{
    let n = v.tags.len();
    let k = log2_floor(n);
    lemma_log2_bounds(n);
    assert(p2(1) == 2 * p2(0));
    lemma_walk_bounds(v.tree, 0, k, 0);
    let pt = insert_node(v.tree, n);
    assert(p2(k + 1) == 2 * p2(k));
    let i = pt - (n - 1);
    assert(0 <= i < n);
    let w = plru_insert(v, val);
    assert(first_match(w.tags, val.0, i)) by {
        assert forall|j: int| 0 <= j < i implies !(#[trigger] w.tags[j]).eq_spec(&val.0) by {
            assert(w.tags[j] == v.tags[j]);
        }
    }
    lemma_find_tag_first(w.tags, val.0, i);
}

proof fn lemma_p2_mono(a: nat, b: nat)
    requires
        a <= b,
    ensures
        p2(a) <= p2(b),
    decreases b,
{
    if a < b {
        lemma_p2_mono(a, (b - 1) as nat);
    }
}

} // verus!
