use vstd::prelude::*;

verus! {

/// A pipeline unit with a valid-ready handshake on its input and its output.
pub trait Interface: Sized {
    type Input;

    type Output;

    /// The unit's internal invariant.
    spec fn inv(&self) -> bool;

    /// The requests the unit can take without failing.
    spec fn accepts(&self, req: (bool, Self::Input)) -> bool;

    /// Offers a request (valid flag and payload) to the unit.
    fn req_i(&mut self, req: (bool, Self::Input))
        requires
            old(self).inv(),
            old(self).accepts(req),
        ensures
            final(self).inv(),
    ;

    /// Whether the unit can take a request.
    fn rdy_o(&self) -> bool
        requires
            self.inv(),
    ;

    /// The unit's response (valid flag and payload).
    fn resp_o(&self) -> (bool, Self::Output)
        requires
            self.inv(),
    ;

    /// Tells the unit whether its response is taken.
    fn rdy_i(&mut self, rdy: bool)
        requires
            old(self).inv(),
        ensures
            final(self).inv(),
    ;
}

/// A unit driven by a clock, a reset and a flush.
pub trait CtrlSignals: Sized {
    /// The unit's internal invariant.
    spec fn ctrl_inv(&self) -> bool;

    /// The states in which a clock cycle can be taken without failing.
    spec fn tik_ok(&self) -> bool;

    /// One clock cycle.
    fn tik(&mut self)
        requires
            old(self).ctrl_inv(),
            old(self).tik_ok(),
        ensures
            final(self).ctrl_inv(),
    ;

    /// Resets the unit when `rst` holds.
    fn rst(&mut self, rst: bool)
        requires
            old(self).ctrl_inv(),
        ensures
            final(self).ctrl_inv(),
    ;

    /// Flushes the unit when `rst` holds.
    fn flush(&mut self, rst: bool)
        requires
            old(self).ctrl_inv(),
        ensures
            final(self).ctrl_inv(),
    ;
}

} // verus!
