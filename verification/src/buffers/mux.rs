use vstd::prelude::*;

verus! {

/// The valid requests of `s`, in order.
pub open spec fn valid_reqs<T>(s: Seq<(bool, T)>) -> Seq<(bool, T)>
    decreases s.len(),
{
    if s.len() == 0 {
        Seq::empty()
    } else if s.last().0 {
        valid_reqs(s.drop_last()).push(s.last())
    } else {
        valid_reqs(s.drop_last())
    }
}

proof fn lemma_valid_reqs_step<T>(s: Seq<(bool, T)>, i: int)
    requires
        0 <= i < s.len(),
    ensures
        valid_reqs(s.take(i + 1)) == (if s[i].0 {
            valid_reqs(s.take(i)).push(s[i])
        } else {
            valid_reqs(s.take(i))
        }),
{
    assert(s.take(i + 1).drop_last() =~= s.take(i));
}

/// Every request that `valid_reqs` keeps is valid.
pub proof fn lemma_valid_reqs_valid<T>(s: Seq<(bool, T)>)
    ensures
        forall|k: int| 0 <= k < valid_reqs(s).len() ==> (#[trigger] valid_reqs(s)[k]).0,
    decreases s.len(),
{
    if s.len() > 0 {
        lemma_valid_reqs_valid(s.drop_last());
        let p = valid_reqs(s.drop_last());
        if s.last().0 {
            assert forall|k: int| 0 <= k < valid_reqs(s).len() implies (#[trigger] valid_reqs(s)[k]).0 by {
                if k < p.len() {
                    assert(valid_reqs(s)[k] == p[k]);
                }
            }
        }
    }
}

proof fn lemma_valid_reqs_len<T>(s: Seq<(bool, T)>)
    ensures
        valid_reqs(s).len() <= s.len(),
    decreases s.len(),
{
    if s.len() > 0 {
        lemma_valid_reqs_len(s.drop_last());
    }
}

/// An n-to-m arbiter: of the requests on its inputs it passes on the first `m`
/// valid ones, in input order.
pub struct Mux<T> {
    input_num: u8,
    output_num: u8,
    req_i: Vec<(bool, T)>,
    rdy_i: Vec<bool>,
}

impl<T: Copy + Default> Mux<T> {
    /// The requests last offered.
    pub closed spec fn reqs(&self) -> Seq<(bool, T)> {
        self.req_i@
    }

    /// The ready flags last received from the consumers.
    pub closed spec fn rdys(&self) -> Seq<bool> {
        self.rdy_i@
    }

    /// The number of inputs.
    pub closed spec fn inputs(&self) -> nat {
        self.input_num as nat
    }

    /// The number of outputs.
    pub closed spec fn outputs(&self) -> nat {
        self.output_num as nat
    }

    /// The internal invariant: one request per input and one ready flag per output.
    pub closed spec fn wf(&self) -> bool {
        &&& self.req_i@.len() == self.input_num
        &&& self.rdy_i@.len() == self.output_num
    }

    /// An arbiter with `input_num` inputs, none valid, and `output_num` outputs,
    /// none ready.
    pub fn new(input_num: u8, output_num: u8) -> (r: Self)
        ensures
            r.wf(),
            r.inputs() == input_num,
            r.outputs() == output_num,
            r.reqs().len() == input_num,
            r.rdys().len() == output_num,
            forall|i: int| 0 <= i < input_num ==> !(#[trigger] r.reqs()[i]).0,
            forall|i: int| 0 <= i < output_num ==> !(#[trigger] r.rdys()[i]),
    {
        let d = T::default();
        let mut req_i: Vec<(bool, T)> = Vec::new();
        let mut k: u8 = 0;
        while k < input_num
            invariant
                k <= input_num,
                req_i@.len() == k,
                forall|i: int| 0 <= i < k ==> !(#[trigger] req_i@[i]).0,
            decreases input_num - k,
        {
            req_i.push((false, d));
            k = k + 1;
        }
        let mut rdy_i: Vec<bool> = Vec::new();
        let mut k: u8 = 0;
        while k < output_num
            invariant
                k <= output_num,
                rdy_i@.len() == k,
                forall|i: int| 0 <= i < k ==> !#[trigger] rdy_i@[i],
            decreases output_num - k,
        {
            rdy_i.push(false);
            k = k + 1;
        }
        Mux { input_num, output_num, req_i, rdy_i }
    }

    /// Offers one request per input.
    pub fn req_i(&mut self, req: Vec<(bool, T)>)
        requires
            old(self).wf(),
            req@.len() == old(self).inputs(),
        ensures
            final(self).wf(),
            final(self).reqs() == req@,
            final(self).rdys() == old(self).rdys(),
            final(self).inputs() == old(self).inputs(),
            final(self).outputs() == old(self).outputs(),
    {
        self.req_i = req;
    }

    /// For each input, whether its request is passed on: it is valid and fewer than
    /// `outputs()` valid requests come before it.
    pub fn rdy_o(&self) -> (r: Vec<bool>)
        requires
            self.wf(),
        ensures
            r@.len() == self.inputs(),
            forall|i: int|
                0 <= i < self.inputs() ==> #[trigger] r@[i] == (self.reqs()[i].0 && valid_reqs(
                    self.reqs().take(i),
                ).len() < self.outputs()),
    {
        let n = self.input_num as usize;
        let mut rdy_v: Vec<bool> = Vec::new();
        let mut k: usize = 0;
        while k < n
            invariant
                k <= n,
                n == self.req_i@.len(),
                rdy_v@.len() == k,
                forall|i: int| 0 <= i < k ==> !#[trigger] rdy_v@[i],
            decreases n - k,
        {
            rdy_v.push(false);
            k = k + 1;
        }
        let ghost s = self.req_i@;
        let mut tmp: u8 = self.output_num;
        let mut i: usize = 0;
        while i < n
            invariant_except_break
                0 <= i <= n,
                n == s.len(),
                s == self.req_i@,
                rdy_v@.len() == n,
                tmp as int == self.output_num - valid_reqs(s.take(i as int)).len(),
                tmp > 0 || (i == 0 && self.output_num == 0),
                forall|j: int|
                    0 <= j < i ==> #[trigger] rdy_v@[j] == (s[j].0 && valid_reqs(s.take(j)).len()
                        < self.output_num),
                forall|j: int| i <= j < n ==> !#[trigger] rdy_v@[j],
            invariant
                0 <= i <= n,
                n == s.len(),
                s == self.req_i@,
                rdy_v@.len() == n,
            ensures
                forall|j: int|
                    0 <= j < n ==> #[trigger] rdy_v@[j] == (s[j].0 && valid_reqs(s.take(j)).len()
                        < self.output_num),
            decreases n - i,
        {
            proof {
                lemma_valid_reqs_step(s, i as int);
            }
            if tmp > 0 && self.req_i[i].0 {
                rdy_v.set(i, true);
                tmp = tmp - 1;
            }
            if tmp == 0 {
                proof {
                    assert forall|j: int| i < j < n implies !(s[j].0 && valid_reqs(s.take(j)).len()
                        < self.output_num) by {
                        lemma_valid_reqs_prefix_mono(s, i + 1, j);
                    }
                }
                break;
            }
            i = i + 1;
        }
        proof {
            if self.output_num == 0 {
                assert forall|j: int| 0 <= j < n implies !(s[j].0 && valid_reqs(s.take(j)).len()
                    < self.output_num) by {}
            }
        }
        rdy_v
    }

    /// Records whether each output is taken.
    pub fn rdy_i(&mut self, rdy: Vec<bool>)
        requires
            old(self).wf(),
            rdy@.len() == old(self).outputs(),
        ensures
            final(self).wf(),
            final(self).rdys() == rdy@,
            final(self).reqs() == old(self).reqs(),
            final(self).inputs() == old(self).inputs(),
            final(self).outputs() == old(self).outputs(),
    {
        self.rdy_i = rdy;
    }

    /// One response per output: the `j`-th valid request, or an invalid response
    /// carrying the default value when there are fewer valid requests.
    pub fn resp_o(&self) -> (r: Vec<(bool, T)>)
        requires
            self.wf(),
            self.outputs() > 0 || valid_reqs(self.reqs()).len() == 0,
        ensures
            r@.len() == self.outputs(),
            forall|j: int|
                0 <= j < self.outputs() && j < valid_reqs(self.reqs()).len() ==> #[trigger] r@[j]
                    == valid_reqs(self.reqs())[j],
            forall|j: int|
                0 <= j < self.outputs() && j >= valid_reqs(self.reqs()).len() ==> !(
                #[trigger] r@[j]).0 && call_ensures(T::default, (), r@[j].1),
    {
        let d = T::default();
        let m = self.output_num as usize;
        let n = self.input_num as usize;
        let mut resp_v: Vec<(bool, T)> = Vec::new();
        let mut k: usize = 0;
        while k < m
            invariant
                k <= m,
                resp_v@.len() == k,
                forall|i: int| 0 <= i < k ==> #[trigger] resp_v@[i] == (false, d),
            decreases m - k,
        {
            resp_v.push((false, d));
            k = k + 1;
        }
        let ghost s = self.req_i@;
        proof {
            assert(s.take(s.len() as int) =~= s);
        }
        let mut pt: usize = 0;
        let mut i: usize = 0;
        while i < n
            invariant_except_break
                0 <= i <= n,
                n == s.len(),
                s == self.req_i@,
                m == self.output_num,
                resp_v@.len() == m,
                pt == valid_reqs(s.take(i as int)).len(),
                pt < m || (m == 0 && pt == 0),
                forall|j: int| 0 <= j < pt ==> #[trigger] resp_v@[j] == valid_reqs(s.take(i as int))[j],
                forall|j: int| pt <= j < m ==> #[trigger] resp_v@[j] == (false, d),
            invariant
                s.take(s.len() as int) == s,
                resp_v@.len() == m,
                n == s.len(),
                s == self.req_i@,
                m == self.output_num,
                self.outputs() > 0 || valid_reqs(s).len() == 0,
            ensures
                forall|j: int|
                    0 <= j < m && j < valid_reqs(s).len() ==> #[trigger] resp_v@[j] == valid_reqs(
                        s,
                    )[j],
                forall|j: int| 0 <= j < m && j >= valid_reqs(s).len() ==> #[trigger] resp_v@[j] == (
                    false,
                    d,
                ),
            decreases n - i,
        {
            proof {
                lemma_valid_reqs_step(s, i as int);
            }
            if self.req_i[i].0 {
                proof {
                    if m == 0 {
                        lemma_valid_reqs_prefix_mono(s, i + 1, n as int);
                        assert(s.take(n as int) =~= s);
                    }
                }
                resp_v.set(pt, self.req_i[i]);
                pt = pt + 1;
                if pt == m {
                    proof {
                        assert forall|j: int| 0 <= j < m implies #[trigger] resp_v@[j]
                            == valid_reqs(s)[j] by {
                            lemma_valid_reqs_prefix(s, i + 1, n as int, j);
                            assert(s.take(n as int) =~= s);
                        }
                        lemma_valid_reqs_prefix_mono(s, i + 1, n as int);
                        assert(s.take(n as int) =~= s);
                    }
                    break;
                }
            }
            i = i + 1;
        }
        proof {
            assert(s.take(n as int) =~= s);
        }
        resp_v
    }
}

/// The inputs an arbiter marks as taken are exactly the ones whose requests it
/// passes on: a taken input's request is the response at the position given by
/// the number of valid requests before it.
pub proof fn lemma_taken_is_passed_on<T>(s: Seq<(bool, T)>, m: nat, i: int)
    requires
        0 <= i < s.len(),
        s[i].0,
        valid_reqs(s.take(i)).len() < m,
    ensures
        valid_reqs(s.take(i)).len() < valid_reqs(s).len(),
        valid_reqs(s)[valid_reqs(s.take(i)).len() as int] == s[i],
{
    let k = valid_reqs(s.take(i)).len() as int;
    lemma_valid_reqs_step(s, i);
    assert(valid_reqs(s.take(i + 1))[k] == s[i]);
    lemma_valid_reqs_prefix(s, i + 1, s.len() as int, k);
    assert(s.take(s.len() as int) =~= s);
}

proof fn lemma_valid_reqs_prefix_mono<T>(s: Seq<(bool, T)>, i: int, j: int)
    requires
        0 <= i <= j <= s.len(),
    ensures
        valid_reqs(s.take(i)).len() <= valid_reqs(s.take(j)).len(),
    decreases j - i,
{
    if i < j {
        lemma_valid_reqs_step(s, j - 1);
        lemma_valid_reqs_prefix_mono(s, i, j - 1);
    }
}

proof fn lemma_valid_reqs_prefix<T>(s: Seq<(bool, T)>, i: int, j: int, k: int)
    requires
        0 <= i <= j <= s.len(),
        0 <= k < valid_reqs(s.take(i)).len(),
    ensures
        k < valid_reqs(s.take(j)).len(),
        valid_reqs(s.take(j))[k] == valid_reqs(s.take(i))[k],
    decreases j - i,
{
    if i < j {
        lemma_valid_reqs_step(s, j - 1);
        lemma_valid_reqs_prefix(s, i, j - 1, k);
    }
}

} // verus!
