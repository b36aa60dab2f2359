//! One direction of a bidirectional forward: a pure byte relay that neither
//! frames nor interprets the payload.
//!
//! The surrounding binary reads a chunk from one stream and writes what
//! `relay_chunk` hands back to the other; the forwarder's invariant is that
//! the bytes handed onward are exactly the bytes taken in, unmodified, in
//! order, with nothing dropped or duplicated — and that a close ends the
//! direction without touching what was already in flight.

use vstd::prelude::*;

verus! {

/// One direction of a forward, with the ghost history of what it has taken
/// in and handed onward.
pub struct Forwarder {
    active: bool,
    taken_in: Ghost<Seq<u8>>,
    handed_on: Ghost<Seq<u8>>,
}

impl Forwarder {
    /// Everything handed onward is exactly everything taken in.
    pub open spec fn wf(self) -> bool {
        self.spec_handed_on() == self.spec_taken_in()
    }

    /// Whether the direction is still open.
    pub closed spec fn is_active(self) -> bool {
        self.active
    }

    /// All bytes read from the source so far, in order.
    pub closed spec fn spec_taken_in(self) -> Seq<u8> {
        self.taken_in@
    }

    /// All bytes passed to the sink so far, in order.
    pub closed spec fn spec_handed_on(self) -> Seq<u8> {
        self.handed_on@
    }

    /// A fresh direction with nothing in flight.
    pub fn new() -> (r: Forwarder)
        ensures
            r.wf(),
            r.is_active(),
            r.spec_taken_in() == Seq::<u8>::empty(),
    {
        Forwarder { active: true, taken_in: Ghost(Seq::empty()), handed_on: Ghost(Seq::empty()) }
    }

    /// Whether the direction is still open.
    pub fn active(&self) -> (b: bool)
        ensures
            b == self.is_active(),
    {
        self.active
    }

    /// Relays one chunk: what goes to the sink is the chunk itself,
    /// untouched.
    pub fn relay_chunk(&mut self, chunk: Vec<u8>) -> (out: Vec<u8>)
        requires
            old(self).wf(),
            old(self).is_active(),
        ensures
            final(self).wf(),
            final(self).is_active(),
            out@ == chunk@,
            final(self).spec_taken_in() == old(self).spec_taken_in() + chunk@,
            final(self).spec_handed_on() == old(self).spec_handed_on() + out@,
    {
        proof {
            self.taken_in@ = self.taken_in@ + chunk@;
            self.handed_on@ = self.handed_on@ + chunk@;
        }
        chunk
    }

    /// Ends the direction on end-of-stream or error: nothing already relayed
    /// is touched, and nothing more will be.
    pub fn close(&mut self)
        ensures
            !final(self).is_active(),
            final(self).spec_taken_in() == old(self).spec_taken_in(),
            final(self).spec_handed_on() == old(self).spec_handed_on(),
            old(self).wf() ==> final(self).wf(),
    {
        self.active = false;
    }
}

/// A forward is faithful: at every point, the bytes that have reached the
/// sink are exactly the bytes the source produced — unmodified, in order,
/// none lost, none duplicated.
pub proof fn lemma_forward_faithful(f: Forwarder)
    requires
        f.wf(),
    ensures
        f.spec_handed_on() == f.spec_taken_in(),
{
}

} // verus!
