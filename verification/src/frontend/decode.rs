use vstd::prelude::*;
use crate::buffers::fifo::DelayFIFO;
use crate::buffers::fifo::FifoView;
use crate::buffers::fifo::fifo_req;
use crate::buffers::fifo::fifo_resp;
use crate::buffers::fifo::fifo_pop;
use crate::buffers::fifo::fifo_tik;
use crate::buffers::fifo::fifo_rst;
use crate::buffers::fifo::fifo_tik_n;
use crate::buffers::fifo::lemma_fifo_delay;
use crate::interface::CtrlSignals;
use crate::interface::Interface;
use crate::instr::Instr;
use crate::instr::instr_default;
use crate::instr::decoded_instr::DecodedInstr;
use crate::instr::decoded_instr::decode_spec;

verus! {

/// The instruction with its word decoded.
pub closed spec fn decoded(i: Instr) -> Instr {
    Instr { decoded_vld: true, decoded: decode_spec(i.raw), ..i }
}

/// What `decoded` is: the decoding of the word is recorded, and its register
/// numbers are in range.
pub proof fn lemma_decoded(i: Instr)
    ensures
        decoded(i) == (Instr { decoded_vld: true, decoded: decode_spec(i.raw), ..i }),
        crate::instr::reg_fields_ok(decoded(i)),
{
    let raw = i.raw;
    assert(((raw >> 7u32) & 0x1f) < 32 && ((raw >> 15u32) & 0x1f) < 32 && ((raw >> 20u32) & 0x1f)
        < 32) by (bit_vector);
}

/// The output queue after `req` is offered: a valid instruction offered while the
/// queue last reported room is decoded first; the instruction is then offered to
/// the queue.
pub open spec fn decode_req(v: FifoView<Instr>, req: (bool, Instr)) -> FifoView<Instr> {
    if req.0 && v.rdy {
        fifo_req(v, (req.0, decoded(req.1)))
    } else {
        fifo_req(v, req)
    }
}

/// Timing from reset: a stage that is empty and ready, as `new` builds it, takes a
/// valid instruction and shows it, decoded, exactly its delay later, and from then
/// on until it is taken.
pub proof fn lemma_decode_delay(v: FifoView<Instr>, req: (bool, Instr), n: nat)
    requires
        v.items.len() == 0,
        v.delays.len() == 0,
        v.cap > 0,
        v.options.len() > 0,
        v.rdy,
        req.0,
    ensures
        fifo_resp(fifo_tik_n(decode_req(v, req), n)) == (n >= v.options[0], decoded(req.1)),
{
    lemma_fifo_delay(v, decoded(req.1), n);
}

/// The decode stage.
pub struct Decode {
    output: DelayFIFO<Instr>,
}

impl Decode {
    /// The stage's output queue.
    pub closed spec fn view(&self) -> FifoView<Instr> {
        self.output.view()
    }

    /// The output queue is well formed.
    pub closed spec fn queue_wf(&self) -> bool {
        self.output.wf()
    }

    /// The stage's invariant: an eight-entry queue with a one-cycle delay that
    /// answers the default instruction when empty.
    pub open spec fn wf(&self) -> bool {
        &&& self.queue_wf()
        &&& self.view().cap == 8
        &&& self.view().options == seq![1u16]
        &&& self.view().idle == instr_default()
    }

    /// An empty stage.
    pub fn new() -> (r: Self)
        ensures
            r.wf(),
            r.view().items.len() == 0,
            r.view().delays.len() == 0,
            r.view().rdy,
    {
        let options = vec![1u16];
        assert(options@ =~= seq![1u16]);
        Decode { output: DelayFIFO::new(8, options) }
    }
}

impl Interface for Decode {
    type Input = Instr;

    type Output = Instr;

    open spec fn inv(&self) -> bool {
        self.wf()
    }

    open spec fn accepts(&self, req: (bool, Instr)) -> bool {
        true
    }

    /// Decodes a valid instruction offered while the queue last reported room, then
    /// offers it to the queue.
    fn req_i(&mut self, req: (bool, Instr))
        ensures
            final(self).view() == decode_req(old(self).view(), req),
    {
        let mut instr = req.1;
        if req.0 && self.rdy_o() {
            let decoded = DecodedInstr::new(instr.raw);
            instr.decoded_vld = true;
            instr.decoded = decoded;
        }
        self.output.req_i((req.0, instr));
    }

    fn rdy_o(&self) -> (r: bool)
        ensures
            r == self.view().rdy,
    {
        self.output.rdy_o()
    }

    fn resp_o(&self) -> (r: (bool, Instr))
        ensures
            r == fifo_resp(self.view()),
    {
        self.output.resp_o()
    }

    fn rdy_i(&mut self, rdy: bool)
        ensures
            final(self).view() == fifo_pop(old(self).view(), rdy),
    {
        self.output.rdy_i(rdy);
    }
}

impl CtrlSignals for Decode {
    open spec fn ctrl_inv(&self) -> bool {
        self.wf()
    }

    open spec fn tik_ok(&self) -> bool {
        true
    }

    fn tik(&mut self)
        ensures
            final(self).view() == fifo_tik(old(self).view()),
    {
        self.output.tik();
    }

    fn rst(&mut self, rst: bool)
        ensures
            final(self).view() == fifo_rst(old(self).view(), rst),
    {
        self.output.rst(rst);
    }

    fn flush(&mut self, rst: bool)
        ensures
            final(self).view() == fifo_rst(old(self).view(), rst),
    {
        self.output.flush(rst)
    }
}

} // verus!
