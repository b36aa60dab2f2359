//! The relay's port allocator: tracks which ports of the configured range are
//! bound, hands out a specific or an arbitrary free port per tunnel request,
//! and releases a port when its session ends.

use vstd::prelude::*;
use vstd::pervasive::VecAdditionalExecFns;
use crate::TunnelError;
use crate::auth::random_u128;

verus! {

/// An inclusive range of TCP ports the relay may hand out.
#[derive(Clone, Copy, Debug, PartialEq, Eq, Structural)]
pub struct PortRange {
    pub min: u16,
    pub max: u16,
}

impl PortRange {
    /// A range is usable when it is not inverted.
    pub open spec fn wf(self) -> bool {
        self.min <= self.max
    }

    /// Whether `p` lies inside the range.
    pub open spec fn has(self, p: u16) -> bool {
        self.min <= p <= self.max
    }

    /// How many ports the range holds.
    pub open spec fn size(self) -> int {
        self.max - self.min + 1
    }

    /// Validates a configured range before the relay starts listening: an
    /// empty (inverted) range is a configuration error, refused up front.
    pub fn new(min: u16, max: u16) -> (r: Result<PortRange, TunnelError>)
        ensures
            min <= max ==> r == Ok::<PortRange, TunnelError>(PortRange { min, max }),
            min > max ==> r == Err::<PortRange, TunnelError>(TunnelError::Configuration),
    {
        if min <= max {
            Ok(PortRange { min, max })
        } else {
            Err(TunnelError::Configuration)
        }
    }
}

/// How many slots of `s[a..b)` are free, a slot being free when it is false.
pub closed spec fn count_free_between(s: Seq<bool>, a: int, b: int) -> nat
    decreases b - a,
{
    if a < 0 || b > s.len() || a >= b {
        0
    } else {
        (if s[a] {
            0nat
        } else {
            1nat
        }) + count_free_between(s, a + 1, b)
    }
}

/// Unfolds one step of the count.
proof fn lemma_count_step(s: Seq<bool>, a: int, b: int)
    requires
        0 <= a < b <= s.len(),
    ensures
        count_free_between(s, a, b) == (if s[a] {
            0nat
        } else {
            1nat
        }) + count_free_between(s, a + 1, b),
{
}

/// When every slot of `s[a..b)` is taken, the count is zero, and conversely.
proof fn lemma_count_zero(s: Seq<bool>, a: int, b: int)
    requires
        0 <= a <= b <= s.len(),
    ensures
        count_free_between(s, a, b) == 0 <==> (forall|i: int| a <= i < b ==> s[i]),
    decreases b - a,
{
    if a < b {
        lemma_count_zero(s, a + 1, b);
    }
}

/// When every slot of `s[a..b)` is free, the count is the width.
proof fn lemma_count_all_free(s: Seq<bool>, a: int, b: int)
    requires
        0 <= a <= b <= s.len(),
        forall|i: int| a <= i < b ==> !s[i],
    ensures
        count_free_between(s, a, b) == b - a,
    decreases b - a,
{
    if a < b {
        lemma_count_all_free(s, a + 1, b);
    }
}

/// The count never exceeds the width of the scanned span.
proof fn lemma_count_width(s: Seq<bool>, a: int, b: int)
    requires
        0 <= a <= b <= s.len(),
    ensures
        count_free_between(s, a, b) <= b - a,
    decreases b - a,
{
    if a < b {
        lemma_count_width(s, a + 1, b);
    }
}

/// Updating one slot changes the count by the difference at that slot and
/// nowhere else.
proof fn lemma_count_update(s: Seq<bool>, a: int, b: int, i: int, v: bool)
    requires
        0 <= a <= b <= s.len(),
        0 <= i < s.len(),
    ensures
        a <= i < b ==> count_free_between(s.update(i, v), a, b) == count_free_between(s, a, b) + (
        if s[i] {
            1nat
        } else {
            0nat
        }) - (if v {
            1nat
        } else {
            0nat
        }),
        !(a <= i < b) ==> count_free_between(s.update(i, v), a, b) == count_free_between(s, a, b),
    decreases b - a,
{
    if a < b {
        lemma_count_update(s, a + 1, b, i, v);
    }
}

/// The relay's record of which ports in its range are bound. At most one live
/// session binds a given port at a time; a port is released exactly when its
/// session terminates.
pub struct PortAllocator {
    range: PortRange,
    taken: Vec<bool>,
    n_free: usize,
}

impl PortAllocator {
    /// The allocator's invariant: the slot vector covers the range exactly,
    /// and the free counter counts the free slots.
    pub closed spec fn wf(self) -> bool {
        &&& self.range.wf()
        &&& self.taken@.len() == self.range.size()
        &&& self.n_free as int == count_free_between(
            self.taken@,
            0,
            self.taken@.len() as int,
        )
    }

    /// The range this allocator was configured with.
    pub closed spec fn spec_range(self) -> PortRange {
        self.range
    }

    /// Whether `p` lies in the configured range.
    pub open spec fn in_range(self, p: u16) -> bool {
        self.spec_range().has(p)
    }

    /// Whether `p` is currently bound. Only ports of the range can be.
    pub closed spec fn is_bound(self, p: u16) -> bool {
        self.in_range(p) && self.taken@[p - self.range.min]
    }

    /// Whether a request for exactly `p` would be honoured.
    pub open spec fn can_bind(self, p: u16) -> bool {
        self.in_range(p) && !self.is_bound(p)
    }

    /// A fresh allocator: the whole range is free.
    pub fn new(range: PortRange) -> (r: PortAllocator)
        requires
            range.wf(),
        ensures
            r.wf(),
            r.spec_range() == range,
            forall|p: u16| !r.is_bound(p),
    {
        let size: usize = (range.max - range.min) as usize + 1;
        let mut taken: Vec<bool> = Vec::new();
        let mut i: usize = 0;
        while i < size
            invariant
                i <= size,
                taken@.len() == i,
                forall|j: int| 0 <= j < i ==> !taken@[j],
            decreases size - i,
        {
            taken.push(false);
            i += 1;
        }
        proof {
            lemma_count_all_free(taken@, 0, size as int);
        }
        PortAllocator { range, taken, n_free: size }
    }

    /// Whether `p` is currently bound.
    pub fn bound(&self, p: u16) -> (b: bool)
        requires
            self.wf(),
        ensures
            b == self.is_bound(p),
    {
        p >= self.range.min && p <= self.range.max && self.taken[(p - self.range.min) as usize]
    }

    /// The configured range.
    pub fn range(&self) -> (r: PortRange)
        ensures
            r == self.spec_range(),
    {
        self.range
    }

    /// Marks the free slot `i` bound.
    fn mark(&mut self, i: usize)
        requires
            old(self).wf(),
            i < old(self).taken@.len(),
            !old(self).taken@[i as int],
        ensures
            final(self).wf(),
            final(self).range == old(self).range,
            final(self).taken@ == old(self).taken@.update(i as int, true),
    {
        proof {
            lemma_count_update(self.taken@, 0, self.taken@.len() as int, i as int, true);
            lemma_count_step(self.taken@, i as int, self.taken@.len() as int);
        }
        self.taken.set(i, true);
        self.n_free = self.n_free - 1;
    }

    /// Binds a port for a new tunnel. A request for a specific free port of
    /// the range is honoured exactly; otherwise some free port of the range
    /// is picked at random. Fails exactly when the range is exhausted.
    #[verifier::loop_isolation(false)]
    pub fn try_bind(&mut self, requested: Option<u16>) -> (r: Result<u16, TunnelError>)
        requires
            old(self).wf(),
        ensures
            final(self).wf(),
            final(self).spec_range() == old(self).spec_range(),
            match r {
                Ok(p) => old(self).can_bind(p) && final(self).is_bound(p) && (forall|q: u16|
                    q != p ==> final(self).is_bound(q) == old(self).is_bound(q)) && (match requested {
                    Some(rp) => old(self).can_bind(rp) ==> p == rp,
                    None => true,
                }),
                Err(e) => e == TunnelError::Allocation && *final(self) == *old(self) && forall|
                    q: u16,
                |
                    old(self).in_range(q) ==> old(self).is_bound(q),
            },
            (r is Ok) <==> exists|q: u16| old(self).can_bind(q),
    {
        let ghost pre = *self;
        if let Some(rp) = requested {
            if rp >= self.range.min && rp <= self.range.max {
                let i = (rp - self.range.min) as usize;
                if !self.taken[i] {
                    self.mark(i);
                    proof {
                        assert(forall|q: u16|
                            q != rp && pre.in_range(q) ==> self.taken@[q - pre.range.min]
                                == pre.taken@[q - pre.range.min]);
                        assert(exists|q: u16| pre.can_bind(q)) by {
                            assert(pre.can_bind(rp));
                        }
                    }
                    return Ok(rp);
                }
            }
        }
        // The request was absent, out of range or already bound: pick a free
        // port of the range at random, taking the k-th free slot.
        if self.n_free == 0 {
            proof {
                lemma_count_zero(self.taken@, 0, self.taken@.len() as int);
                assert(forall|q: u16|
                    pre.in_range(q) ==> pre.taken@[q - pre.range.min] && pre.is_bound(q));
            }
            return Err(TunnelError::Allocation);
        }
        let mut k: usize = (random_u128() % (self.n_free as u128)) as usize;
        let size: usize = self.taken.len();
        let mut i: usize = 0;
        while i < size
            invariant
                *self == pre,
                pre.wf(),
                size == pre.taken@.len(),
                i <= size,
                (k as nat) < count_free_between(pre.taken@, i as int, size as int),
            decreases size - i,
        {
            proof {
                lemma_count_step(pre.taken@, i as int, size as int);
            }
            if !self.taken[i] {
                if k == 0 {
                    let p = self.range.min + (i as u16);
                    self.mark(i);
                    proof {
                        assert(pre.in_range(p) && !pre.is_bound(p));
                        assert(forall|q: u16|
                            q != p && pre.in_range(q) ==> self.taken@[q - pre.range.min]
                                == pre.taken@[q - pre.range.min]);
                        assert(exists|q: u16| pre.can_bind(q)) by {
                            assert(pre.can_bind(p));
                        }
                    }
                    return Ok(p);
                }
                k = k - 1;
            }
            i += 1;
        }
        proof {
            // The scan cannot fall off the end: the count of free slots past
            // `size` is zero, yet `k` stayed below it.
            assert(count_free_between(pre.taken@, size as int, size as int) == 0);
        }
        Err(TunnelError::Allocation)
    }

    /// Releases a port when its session terminates. Idempotent, and safe to
    /// call even for a port that was never bound: afterwards the port is
    /// free, and no other port has changed.
    pub fn release(&mut self, p: u16)
        requires
            old(self).wf(),
        ensures
            final(self).wf(),
            final(self).spec_range() == old(self).spec_range(),
            !final(self).is_bound(p),
            forall|q: u16| q != p ==> final(self).is_bound(q) == old(self).is_bound(q),
    {
        let ghost pre = *self;
        if p >= self.range.min && p <= self.range.max {
            let i = (p - self.range.min) as usize;
            if self.taken[i] {
                proof {
                    lemma_count_update(self.taken@, 0, self.taken@.len() as int, i as int, false);
                    lemma_count_step(self.taken@, i as int, self.taken@.len() as int);
                    lemma_count_width(
                        self.taken@.update(i as int, false),
                        0,
                        self.taken@.len() as int,
                    );
                }
                self.taken.set(i, false);
                self.n_free = self.n_free + 1;
                proof {
                    assert(forall|q: u16|
                        q != p && pre.in_range(q) ==> self.taken@[q - pre.range.min]
                            == pre.taken@[q - pre.range.min]);
                }
            }
        }
    }
}

/// Releasing a port makes it immediately eligible for reuse: whatever state a
/// release of `p` leaves the allocator in, a request for exactly `p` is again
/// inside `try_bind`'s guaranteed-success case.
pub proof fn lemma_release_enables_rebind(pre: PortAllocator, post: PortAllocator, p: u16)
    requires
        pre.wf(),
        pre.in_range(p),
        post.wf(),
        post.spec_range() == pre.spec_range(),
        !post.is_bound(p),
    ensures
        post.can_bind(p),
{
}

/// The allocator never assigns a port outside its configured range: a bound
/// port is always a port of the range.
pub proof fn lemma_assigned_ports_in_range(a: PortAllocator, p: u16)
    requires
        a.is_bound(p),
    ensures
        a.in_range(p),
{
}

} // verus!
