use vstd::prelude::*;
use crate::interface::Interface;
use crate::interface::CtrlSignals;

verus! {

/// What a delay FIFO holds: its entries from oldest to newest, the cycles each
/// entry still waits before it may leave, the ready flag it last reported, its
/// capacity, the delays it may give an entry, and what it answers when empty.
pub struct FifoView<T> {
    pub items: Seq<T>,
    pub delays: Seq<u16>,
    pub rdy: bool,
    pub cap: nat,
    pub options: Seq<u16>,
    pub idle: T,
}

/// A bounded queue in which every entry waits a fixed number of cycles before it
/// can be taken out.
pub struct DelayFIFO<T> {
    max_size: u16,
    delay_options: Vec<u16>,
    data: Vec<T>,
    delays: Vec<u16>,
    empty: bool,
    full: bool,
    head: u16,
    tail: u16,
    rdy_o: bool,
    resp_o: (bool, T),
}

/// The view after offering `req`: the ready flag tells whether there was room, and
/// a valid request that found room is appended with the first delay option.
pub open spec fn fifo_req<T>(v: FifoView<T>, req: (bool, T)) -> FifoView<T> {
    let room = v.items.len() < v.cap;
    if room && req.0 {
        FifoView {
            items: v.items.push(req.1),
            delays: v.delays.push(v.options[0]),
            rdy: room,
            ..v
        }
    } else {
        FifoView { rdy: room, ..v }
    }
}

/// The response: the oldest entry, valid once its delay has run out; the idle value
/// when the queue is empty.
pub open spec fn fifo_resp<T>(v: FifoView<T>) -> (bool, T) {
    if v.items.len() > 0 {
        (v.delays[0] == 0, v.items[0])
    } else {
        (false, v.idle)
    }
}

/// The view after the consumer answers `rdy`: a valid response that is taken leaves.
pub open spec fn fifo_pop<T>(v: FifoView<T>, rdy: bool) -> FifoView<T> {
    if fifo_resp(v).0 && rdy {
        FifoView { items: v.items.drop_first(), delays: v.delays.drop_first(), ..v }
    } else {
        v
    }
}

/// A delay that has not run out yet counts down by one.
pub open spec fn count_down(d: u16) -> u16 {
    if d > 0 {
        (d - 1) as u16
    } else {
        0
    }
}

/// The view after one cycle: every delay counts down.
pub open spec fn fifo_tik<T>(v: FifoView<T>) -> FifoView<T> {
    FifoView { delays: v.delays.map_values(|d: u16| count_down(d)), ..v }
}

/// The view after a reset request: when `rst` holds the queue is emptied and ready.
pub open spec fn fifo_rst<T>(v: FifoView<T>, rst: bool) -> FifoView<T> {
    if rst {
        FifoView { items: Seq::empty(), delays: Seq::empty(), rdy: true, ..v }
    } else {
        v
    }
}

/// The view after `n` clock cycles.
pub open spec fn fifo_tik_n<T>(v: FifoView<T>, n: nat) -> FifoView<T>
    decreases n,
{
    if n == 0 {
        v
    } else {
        fifo_tik(fifo_tik_n(v, (n - 1) as nat))
    }
}

proof fn lemma_tik_n_counts_down<T>(v: FifoView<T>, n: nat)
    requires
        v.delays.len() > 0,
    ensures
        fifo_tik_n(v, n).items == v.items,
        fifo_tik_n(v, n).delays.len() == v.delays.len(),
        fifo_tik_n(v, n).delays[0] == (if v.delays[0] >= n { (v.delays[0] - n) as u16 } else { 0u16 }),
    decreases n,
{
    if n > 0 {
        lemma_tik_n_counts_down(v, (n - 1) as nat);
    }
}

/// One cycle counted by `fifo_tik_n` is one `fifo_tik`.
pub proof fn lemma_tik_n_one<T>(v: FifoView<T>)
    ensures
        fifo_tik_n(v, 1) == fifo_tik(v),
{
    reveal_with_fuel(fifo_tik_n, 2);
}

/// An entry offered to an empty queue with room waits exactly the first delay
/// option: it is not shown for fewer cycles than that, and shown, at the head,
/// from then on.
pub proof fn lemma_fifo_delay<T>(v: FifoView<T>, x: T, n: nat)
    requires
        v.items.len() == 0,
        v.delays.len() == 0,
        v.cap > 0,
        v.options.len() > 0,
    ensures
        fifo_resp(fifo_tik_n(fifo_req(v, (true, x)), n)) == (n >= v.options[0], x),
{
    let w = fifo_req(v, (true, x));
    assert(w.items =~= seq![x]);
    lemma_tik_n_counts_down(w, n);
}

/// Entries leave in the order they came: of two entries offered to an empty queue
/// with room for both, the first is shown once its delay has run out, and after it
/// is taken only the second remains.
pub proof fn lemma_fifo_order<T>(v: FifoView<T>, a: T, b: T)
    requires
        v.items.len() == 0,
        v.delays.len() == 0,
        v.cap >= 2,
        v.options.len() > 0,
    ensures
        ({
            let w = fifo_tik_n(fifo_req(fifo_req(v, (true, a)), (true, b)), v.options[0] as nat);
            &&& fifo_resp(w) == (true, a)
            &&& fifo_pop(w, true).items == seq![b]
        }),
{
    let w0 = fifo_req(fifo_req(v, (true, a)), (true, b));
    assert(w0.items =~= seq![a, b]);
    lemma_tik_n_counts_down(w0, v.options[0] as nat);
    let w = fifo_tik_n(w0, v.options[0] as nat);
    assert(fifo_pop(w, true).items =~= seq![b]);
}

/// The valid-ready handshake between two queues neither loses nor duplicates an
/// entry: when the first shows a valid head and the second is offered it and
/// answers with its ready flag, the head moves from the first to the end of the
/// second if there was room, and nothing moves otherwise.
pub proof fn lemma_fifo_handshake<T>(v1: FifoView<T>, v2: FifoView<T>)
    requires
        v1.items.len() > 0,
        v1.delays.len() == v1.items.len(),
        v1.delays[0] == 0,
    ensures
        ({
            let v2b = fifo_req(v2, fifo_resp(v1));
            let v1b = fifo_pop(v1, v2b.rdy);
            if v2.items.len() < v2.cap {
                &&& v1b.items == v1.items.drop_first()
                &&& v2b.items == v2.items.push(v1.items[0])
            } else {
                &&& v1b.items == v1.items
                &&& v2b.items == v2.items
            }
        }),
{
}

proof fn lemma_mod_once(a: int, m: int)
    requires
        m > 0,
        0 <= a < 2 * m,
    ensures
        a % m == (if a < m { a } else { a - m }),
{
    if a < m {
        vstd::arithmetic::div_mod::lemma_small_mod(a as nat, m as nat);
    } else {
        vstd::arithmetic::div_mod::lemma_small_mod((a - m) as nat, m as nat);
        vstd::arithmetic::div_mod::lemma_mod_add_multiples_vanish(a - m, m);
    }
}

impl<T: Copy> DelayFIFO<T> {
    /// The number of entries in the queue.
    pub closed spec fn count(&self) -> int {
        if self.full {
            self.max_size as int
        } else if self.tail >= self.head {
            self.tail - self.head
        } else {
            self.tail + self.max_size - self.head
        }
    }

    /// The storage slot of the `i`-th entry.
    pub closed spec fn slot(&self, i: int) -> int {
        (self.head + i) % (self.max_size as int)
    }

    pub closed spec fn view(&self) -> FifoView<T> {
        FifoView {
            items: Seq::new(self.count() as nat, |i: int| self.data@[self.slot(i)]),
            delays: Seq::new(self.count() as nat, |i: int| self.delays@[self.slot(i)]),
            rdy: self.rdy_o,
            cap: self.max_size as nat,
            options: self.delay_options@,
            idle: self.resp_o.1,
        }
    }

    /// The internal invariant.
    pub closed spec fn wf(&self) -> bool {
        &&& self.max_size > 0
        &&& self.data@.len() == self.delays@.len()
        &&& self.data@.len() <= self.max_size
        &&& self.head < self.max_size
        &&& self.tail < self.max_size
        &&& self.tail <= self.data@.len()
        &&& (self.data@.len() < self.max_size ==> self.head <= self.tail && !self.full)
        &&& !(self.empty && self.full)
        &&& (self.head == self.tail <==> (self.empty || self.full))
        &&& self.resp_o.0 == false
    }

    proof fn lemma_slots(&self)
        requires
            self.wf(),
        ensures
            0 <= self.count() <= self.max_size,
            self.empty <==> self.count() == 0,
            self.full <==> self.count() == self.max_size,
            forall|i: int|
                0 <= i < self.max_size ==> #[trigger] self.slot(i) == (if self.head + i
                    < self.max_size {
                    self.head + i
                } else {
                    self.head + i - self.max_size
                }),
            forall|i: int| 0 <= i < self.count() ==> 0 <= #[trigger] self.slot(i) < self.data@.len(),
            self.count() < self.max_size ==> self.slot(self.count()) == self.tail,
    {
        let m = self.max_size as int;
        assert forall|i: int| 0 <= i < self.max_size implies #[trigger] self.slot(i) == (if self.head
            + i < self.max_size {
            self.head + i
        } else {
            self.head + i - self.max_size
        }) by {
            lemma_mod_once(self.head + i, m);
        }
    }

    /// A queue of capacity `size` whose entries wait `delay_options[0]` cycles.
    pub fn new(size: u16, delay_options: Vec<u16>) -> (r: Self)
        where T: Default
        requires
            size != 0,
        ensures
            r.wf(),
            r.view().items.len() == 0,
            r.view().delays.len() == 0,
            r.view().rdy,
            r.view().cap == size,
            r.view().options == delay_options@,
            call_ensures(T::default, (), r.view().idle),
    {
        let idle = T::default();
        let r = DelayFIFO {
            max_size: size,
            delay_options: delay_options,
            data: Vec::with_capacity(size as usize),
            delays: Vec::with_capacity(size as usize),
            empty: true,
            full: false,
            head: 0,
            tail: 0,
            rdy_o: true,
            resp_o: (false, idle),
        };
        proof {
            r.lemma_slots();
        }
        r
    }
}

impl<T: Copy> Interface for DelayFIFO<T> {
    type Input = T;

    type Output = T;

    open spec fn inv(&self) -> bool {
        self.wf()
    }

    open spec fn accepts(&self, req: (bool, T)) -> bool {
        req.0 && self.view().items.len() < self.view().cap ==> self.view().options.len() > 0
    }

    /// Takes a valid request when there is room; remembers whether there was room.
    fn req_i(&mut self, req: (bool, T))
        ensures
            final(self).view() == fifo_req(old(self).view(), req),
    {
        proof {
            self.lemma_slots();
        }
        self.rdy_o = !self.full;
        if self.rdy_o && req.0 {
            let d = self.delay_options[0];
            if self.data.len() < self.max_size as usize && (self.tail as usize >= self.data.len()) {
                self.data.push(req.1);
                self.delays.push(d);
            } else {
                self.data.set(self.tail as usize, req.1);
                self.delays.set(self.tail as usize, d);
            }
            self.tail = self.tail + 1;
            self.tail = self.tail % self.max_size;
            if self.empty {
                self.empty = false;
            }
            if self.tail == self.head {
                self.full = true;
            }
            proof {
                let o = old(self);
                let c = o.count();
                lemma_mod_once(o.tail + 1, o.max_size as int);
                self.lemma_slots();
                assert(self.count() == c + 1);
                assert forall|i: int| 0 <= i < c implies #[trigger] self.slot(i) != o.tail by {}
                assert(self.view().items =~= o.view().items.push(req.1));
                assert(self.view().delays =~= o.view().delays.push(o.view().options[0]));
            }
        } else {
            proof {
                assert(self.view().items =~= old(self).view().items);
                assert(self.view().delays =~= old(self).view().delays);
            }
        }
    }

    fn rdy_o(&self) -> (r: bool)
        ensures
            r == self.view().rdy,
    {
        self.rdo_o_field()
    }

    fn resp_o(&self) -> (r: (bool, T))
        ensures
            r == fifo_resp(self.view()),
    {
        proof {
            self.lemma_slots();
        }
        if !self.empty {
            (self.delays[self.head as usize] == 0, self.data[self.head as usize])
        } else {
            (false, self.resp_o.1)
        }
    }

    fn rdy_i(&mut self, rdy: bool)
        ensures
            final(self).view() == fifo_pop(old(self).view(), rdy),
    {
        proof {
            self.lemma_slots();
        }
        if self.resp_o().0 && rdy {
            self.head = self.head + 1;
            self.head = self.head % self.max_size;
            if self.full {
                self.full = false;
            }
            if self.head == self.tail {
                self.empty = true;
            }
            proof {
                let o = old(self);
                let c = o.count();
                lemma_mod_once(o.head + 1, o.max_size as int);
                self.lemma_slots();
                assert(self.count() == c - 1);
                assert forall|i: int| 0 <= i < c - 1 implies #[trigger] self.slot(i) == o.slot(i + 1) by {}
                assert(self.view().items =~= o.view().items.drop_first());
                assert(self.view().delays =~= o.view().delays.drop_first());
            }
        }
    }
}

impl<T: Copy> CtrlSignals for DelayFIFO<T> {
    open spec fn ctrl_inv(&self) -> bool {
        self.wf()
    }

    open spec fn tik_ok(&self) -> bool {
        true
    }

    /// One cycle: every waiting delay counts down by one.
    fn tik(&mut self)
        ensures
            final(self).view() == fifo_tik(old(self).view()),
    {
        let n = self.delays.len();
        let mut i: usize = 0;
        while i < n
            invariant
                n == self.delays@.len(),
                0 <= i <= n,
                self.data@ == old(self).data@,
                self.delays@.len() == old(self).delays@.len(),
                forall|j: int| 0 <= j < i ==> #[trigger] self.delays@[j] == count_down(old(self).delays@[j]),
                forall|j: int| i <= j < n ==> #[trigger] self.delays@[j] == old(self).delays@[j],
                self.max_size == old(self).max_size,
                self.delay_options == old(self).delay_options,
                self.empty == old(self).empty,
                self.full == old(self).full,
                self.head == old(self).head,
                self.tail == old(self).tail,
                self.rdy_o == old(self).rdy_o,
                self.resp_o == old(self).resp_o,
            decreases n - i,
        {
            if self.delays[i] > 0 {
                let d = self.delays[i] - 1;
                self.delays.set(i, d);
            }
            i = i + 1;
        }
        proof {
            old(self).lemma_slots();
            assert(self.count() == old(self).count());
            assert(self.view().items =~= old(self).view().items);
            assert(self.view().delays =~= old(self).view().delays.map_values(|d: u16| count_down(d)));
        }
    }

    /// When `rst` holds, empties the queue and makes it ready.
    fn rst(&mut self, rst: bool)
        ensures
            final(self).view() == fifo_rst(old(self).view(), rst),
    {
        if rst {
            self.head = 0;
            self.tail = 0;
            self.empty = true;
            self.full = false;
            self.rdy_o = true;
            proof {
                assert(self.view().items =~= Seq::<T>::empty());
                assert(self.view().delays =~= Seq::<u16>::empty());
            }
        }
    }

    /// The same as a reset.
    fn flush(&mut self, rst: bool)
        ensures
            final(self).view() == fifo_rst(old(self).view(), rst),
    {
        self.rst(rst);
    }
}

impl<T: Copy> DelayFIFO<T> {
    /// The response the queue would give after `req` is offered.
    pub fn resp_after_req(&self, req: (bool, T)) -> (r: (bool, T))
        requires
            self.wf(),
            self.view().options.len() > 0,
        ensures
            r == fifo_resp(fifo_req(self.view(), req)),
    {
        proof {
            self.lemma_slots();
        }
        if !self.empty {
            (self.delays[self.head as usize] == 0, self.data[self.head as usize])
        } else if req.0 {
            (self.delay_options[0] == 0, req.1)
        } else {
            (false, self.resp_o.1)
        }
    }

    /// The response the queue would give after `req` is offered and one clock
    /// cycle passes.
    pub fn resp_after_req_tik(&self, req: (bool, T)) -> (r: (bool, T))
        requires
            self.wf(),
            self.view().options.len() > 0,
        ensures
            r == fifo_resp(fifo_tik(fifo_req(self.view(), req))),
    {
        proof {
            self.lemma_slots();
        }
        if !self.empty {
            (self.delays[self.head as usize] <= 1, self.data[self.head as usize])
        } else if req.0 {
            (self.delay_options[0] <= 1, req.1)
        } else {
            (false, self.resp_o.1)
        }
    }
}

impl<T: Copy> DelayFIFO<T> {
    fn rdo_o_field(&self) -> (r: bool)
        ensures
            r == self.rdy_o,
    {
        self.rdy_o
    }
}

} // verus!
