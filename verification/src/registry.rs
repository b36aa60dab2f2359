//! The pending-connection registry: inbound public connections that have been
//! announced to a client but not yet claimed, keyed by a one-time identifier.
//!
//! A claim (`take`) is exactly-once: once an identifier has been claimed, or
//! its entry has expired or its session was torn down, every later claim of
//! the same identifier misses. The registry also remembers every identifier
//! it has ever accepted, so an identifier can never be announced twice; the
//! price is one small tombstone per connection ever announced.

use vstd::prelude::*;

verus! {

/// One announced connection: its one-time identifier, the session that
/// announced it, when it was announced, and — while it is still pending —
/// the accepted stream itself.
struct Entry<S> {
    id: u128,
    session: u64,
    announced_at: u64,
    stream: Option<S>,
}

/// The registry of pending connections of one relay instance.
pub struct Registry<S> {
    entries: Vec<Entry<S>>,
    expiry: u64,
}

impl<S> Registry<S> {
    /// The expiry window: a pending connection not claimed within this many
    /// time units of its announcement can no longer be claimed.
    pub closed spec fn spec_expiry(self) -> u64 {
        self.expiry
    }

    /// The registry's invariant: the window is positive and no two entries
    /// share an identifier.
    pub closed spec fn wf(self) -> bool {
        &&& self.expiry >= 1
        &&& forall|i: int, j: int|
            0 <= i < j < self.entries@.len() ==> self.entries@[i].id != self.entries@[j].id
    }

    /// Whether `id` has ever been accepted by this registry.
    pub closed spec fn has_id(self, id: u128) -> bool {
        exists|i: int| 0 <= i < self.entries@.len() && self.entries@[i].id == id
    }

    /// The position of `id`'s entry.
    spec fn idx_of(self, id: u128) -> int {
        choose|i: int| 0 <= i < self.entries@.len() && self.entries@[i].id == id
    }

    /// Whether `id`'s connection is still pending (unclaimed, not purged).
    pub closed spec fn pending(self, id: u128) -> bool {
        self.has_id(id) && self.entries@[self.idx_of(id)].stream is Some
    }

    /// The stream still held for `id`, if any.
    pub closed spec fn stream_of(self, id: u128) -> Option<S> {
        if self.has_id(id) {
            self.entries@[self.idx_of(id)].stream
        } else {
            None
        }
    }

    /// The session that announced `id` (zero for an unknown id).
    pub closed spec fn session_of(self, id: u128) -> u64 {
        if self.has_id(id) {
            self.entries@[self.idx_of(id)].session
        } else {
            0
        }
    }

    /// When `id` was announced (zero for an unknown id).
    pub closed spec fn announced_of(self, id: u128) -> u64 {
        if self.has_id(id) {
            self.entries@[self.idx_of(id)].announced_at
        } else {
            0
        }
    }

    /// Whether `id`'s expiry deadline has passed at time `now`.
    pub open spec fn expired(self, id: u128, now: u64) -> bool {
        self.announced_of(id) + self.spec_expiry() <= now
    }

    /// Whether a claim of `id` at time `now` would succeed: the connection is
    /// pending and its deadline has not passed.
    pub open spec fn live(self, id: u128, now: u64) -> bool {
        self.pending(id) && !self.expired(id, now)
    }
}

/// A well-formed registry has a positive expiry window.
pub proof fn lemma_wf_expiry<S>(r: Registry<S>)
    requires
        r.wf(),
    ensures
        r.spec_expiry() >= 1,
{
}

/// A connection is pending exactly when a stream is still held for it.
pub proof fn lemma_pending_iff_stream<S>(r: Registry<S>, id: u128)
    ensures
        r.pending(id) <==> r.stream_of(id) is Some,
{
}

/// An entry at position `i` is found by its own identifier: under the
/// invariant, identifiers determine positions.
proof fn lemma_lookup<S>(r: Registry<S>, i: int)
    requires
        r.wf(),
        0 <= i < r.entries@.len(),
    ensures
        r.has_id(r.entries@[i].id),
        r.idx_of(r.entries@[i].id) == i,
{
    let id = r.entries@[i].id;
    assert(r.has_id(id));
    let j = r.idx_of(id);
    assert(0 <= j < r.entries@.len() && r.entries@[j].id == id);
    if i < j {
        assert(r.entries@[i].id != r.entries@[j].id);
    } else if j < i {
        assert(r.entries@[j].id != r.entries@[i].id);
    }
}

/// What `insert` does: a fresh identifier is accepted together with its
/// stream; a known one is refused and the stream handed back. No other
/// identifier's state moves.
pub open spec fn insert_rel<S>(
    pre: Registry<S>,
    post: Registry<S>,
    id: u128,
    session: u64,
    now: u64,
    stream: S,
    r: Result<(), S>,
) -> bool {
    &&& post.wf()
    &&& post.spec_expiry() == pre.spec_expiry()
    &&& if pre.has_id(id) {
        r == Err::<(), S>(stream) && post == pre
    } else {
        &&& r == Ok::<(), S>(())
        &&& post.has_id(id)
        &&& post.stream_of(id) == Some(stream)
        &&& post.session_of(id) == session
        &&& post.announced_of(id) == now
    }
    &&& forall|x: u128|
        x != id ==> post.has_id(x) == pre.has_id(x) && post.stream_of(x) == pre.stream_of(x)
            && post.session_of(x) == pre.session_of(x) && post.announced_of(x)
            == pre.announced_of(x)
}

/// What `take` does: a claim succeeds exactly when the connection is live,
/// hands out the stored stream, and leaves a tombstone that keeps the
/// identifier known. A miss changes nothing. No other identifier's state
/// moves.
pub open spec fn take_rel<S>(
    pre: Registry<S>,
    post: Registry<S>,
    id: u128,
    now: u64,
    r: Option<S>,
) -> bool {
    &&& post.wf()
    &&& post.spec_expiry() == pre.spec_expiry()
    &&& (r is Some <==> pre.live(id, now))
    &&& match r {
        Some(s) => {
            &&& pre.stream_of(id) == Some(s)
            &&& post.has_id(id)
            &&& !post.pending(id)
            &&& post.session_of(id) == pre.session_of(id)
            &&& post.announced_of(id) == pre.announced_of(id)
        },
        None => post == pre,
    }
    &&& forall|x: u128|
        x != id ==> post.has_id(x) == pre.has_id(x) && post.stream_of(x) == pre.stream_of(x)
            && post.session_of(x) == pre.session_of(x) && post.announced_of(x)
            == pre.announced_of(x)
}

/// Which entries a purge pass removes: the pending entries of one session
/// when a session is torn down, or the pending entries past their deadline
/// when the expiry sweep runs.
pub open spec fn doomed<S>(
    r: Registry<S>,
    x: u128,
    by_session: bool,
    session: u64,
    now: u64,
) -> bool {
    r.pending(x) && (if by_session {
        r.session_of(x) == session
    } else {
        r.expired(x, now)
    })
}

/// What a purge pass does: every doomed connection stops being pending and
/// its stream is in the returned vector, every returned stream came from a
/// doomed connection, and nothing else moves.
pub open spec fn purge_rel<S>(
    pre: Registry<S>,
    post: Registry<S>,
    by_session: bool,
    session: u64,
    now: u64,
    dead: Seq<S>,
) -> bool {
    &&& post.wf()
    &&& post.spec_expiry() == pre.spec_expiry()
    &&& forall|x: u128|
        #![trigger post.has_id(x)]
        post.has_id(x) == pre.has_id(x) && post.session_of(x) == pre.session_of(x)
            && post.announced_of(x) == pre.announced_of(x)
    &&& forall|x: u128|
        post.stream_of(x) == (if doomed(pre, x, by_session, session, now) {
            None
        } else {
            pre.stream_of(x)
        })
    &&& forall|x: u128|
        doomed(pre, x, by_session, session, now) ==> exists|j: int|
            0 <= j < dead.len() && pre.stream_of(x) == Some(dead[j])
}

impl<S> Registry<S> {
    /// A fresh registry with the given expiry window.
    pub fn new(expiry: u64) -> (r: Registry<S>)
        requires
            expiry >= 1,
        ensures
            r.wf(),
            r.spec_expiry() == expiry,
            forall|x: u128| !r.has_id(x),
    {
        Registry { entries: Vec::new(), expiry }
    }

    /// Whether `id` has ever been accepted.
    #[verifier::loop_isolation(false)]
    pub fn contains(&self, id: u128) -> (b: bool)
        requires
            self.wf(),
        ensures
            b == self.has_id(id),
    {
        let mut i: usize = 0;
        let n = self.entries.len();
        while i < n
            invariant
                i <= n,
                n == self.entries@.len(),
                forall|j: int| 0 <= j < i ==> self.entries@[j].id != id,
            decreases n - i,
        {
            if self.entries[i].id == id {
                return true;
            }
            i += 1;
        }
        false
    }

    /// Accepts a fresh identifier with its stream, or refuses a known one and
    /// hands the stream back.
    pub fn insert(&mut self, id: u128, session: u64, now: u64, stream: S) -> (r: Result<(), S>)
        requires
            old(self).wf(),
        ensures
            insert_rel(*old(self), *final(self), id, session, now, stream, r),
    {
        let ghost pre = *self;
        if self.contains(id) {
            return Err(stream);
        }
        let e = Entry { id, session, announced_at: now, stream: Some(stream) };
        self.entries.push(e);
        proof {
            let n = pre.entries@.len() as int;
            assert(self.entries@ =~= pre.entries@.push(e));
            assert forall|i: int, j: int|
                0 <= i < j < self.entries@.len() implies self.entries@[i].id
                != self.entries@[j].id by {
                if j < n {
                    assert(pre.entries@[i].id != pre.entries@[j].id);
                } else {
                    assert(self.entries@[j].id == id);
                    lemma_lookup(pre, i);
                }
            }
            lemma_lookup(*self, n);
            assert forall|x: u128|
                x != id implies self.has_id(x) == pre.has_id(x) && self.stream_of(x)
                == pre.stream_of(x) && self.session_of(x) == pre.session_of(x)
                && self.announced_of(x) == pre.announced_of(x) by {
                if pre.has_id(x) {
                    let i = pre.idx_of(x);
                    lemma_lookup(pre, i);
                    lemma_lookup(*self, i);
                } else if self.has_id(x) {
                    let i = self.idx_of(x);
                    assert(self.entries@[i].id == x);
                    if i < n {
                        lemma_lookup(pre, i);
                    }
                }
            }
        }
        Ok(())
    }

    /// Claims the connection `id` at time `now`. Succeeds exactly when the
    /// connection is live; afterwards the same identifier can never be
    /// claimed again.
    #[verifier::loop_isolation(false)]
    pub fn take(&mut self, id: u128, now: u64) -> (r: Option<S>)
        requires
            old(self).wf(),
        ensures
            take_rel(*old(self), *final(self), id, now, r),
    {
        let ghost pre = *self;
        let n = self.entries.len();
        let mut i: usize = 0;
        while i < n
            invariant
                i <= n,
                *self == pre,
                n == self.entries@.len(),
                forall|j: int| 0 <= j < i ==> self.entries@[j].id != id,
            decreases n - i,
        {
            if self.entries[i].id == id {
                proof {
                    lemma_lookup(pre, i as int);
                }
                let ann = self.entries[i].announced_at;
                let alive = self.entries[i].stream.is_some() && (ann > now || now - ann
                    < self.expiry);
                if !alive {
                    proof {
                        assert(!pre.live(id, now));
                    }
                    return None;
                }
                let mut e = self.entries.remove(i);
                let s = e.stream;
                e.stream = None;
                let ghost e_spec = e;
                self.entries.insert(i, e);
                proof {
                    assert(self.entries@ =~= pre.entries@.update(i as int, e_spec));
                    assert forall|a: int, b: int|
                        0 <= a < b < self.entries@.len() implies self.entries@[a].id
                        != self.entries@[b].id by {
                        assert(pre.entries@[a].id != pre.entries@[b].id);
                    }
                    lemma_lookup(*self, i as int);
                    assert forall|x: u128|
                        x != id implies self.has_id(x) == pre.has_id(x) && self.stream_of(x)
                        == pre.stream_of(x) && self.session_of(x) == pre.session_of(x)
                        && self.announced_of(x) == pre.announced_of(x) by {
                        if pre.has_id(x) {
                            let j = pre.idx_of(x);
                            lemma_lookup(pre, j);
                            lemma_lookup(*self, j);
                        } else if self.has_id(x) {
                            let j = self.idx_of(x);
                            lemma_lookup(pre, j);
                        }
                    }
                }
                return s;
            }
            i += 1;
        }
        proof {
            assert(!pre.has_id(id));
        }
        None
    }

    /// Removes every entry a purge pass dooms, returning their streams so the
    /// caller can close them.
    #[verifier::loop_isolation(false)]
    #[verifier::rlimit(60)]
    fn purge(&mut self, by_session: bool, session: u64, now: u64) -> (dead: Vec<S>)
        requires
            old(self).wf(),
        ensures
            purge_rel(*old(self), *final(self), by_session, session, now, dead@),
    {
        let ghost pre = *self;
        let n = self.entries.len();
        let mut dead: Vec<S> = Vec::new();
        let mut i: usize = 0;
        while i < n
            invariant
                i <= n,
                n == self.entries@.len(),
                self.expiry == pre.expiry,
                forall|j: int|
                    0 <= j < n ==> self.entries@[j].id == pre.entries@[j].id
                        && self.entries@[j].session == pre.entries@[j].session
                        && self.entries@[j].announced_at == pre.entries@[j].announced_at,
                forall|j: int| i <= j < n ==> self.entries@[j].stream == pre.entries@[j].stream,
                forall|j: int|
                    0 <= j < i ==> self.entries@[j].stream == (if entry_doomed(
                        pre.entries@[j],
                        pre.expiry,
                        by_session,
                        session,
                        now,
                    ) {
                        None::<S>
                    } else {
                        pre.entries@[j].stream
                    }),
                forall|j: int|
                    0 <= j < i && entry_doomed(
                        pre.entries@[j],
                        pre.expiry,
                        by_session,
                        session,
                        now,
                    ) ==> exists|k: int|
                        0 <= k < dead@.len() && pre.entries@[j].stream == Some(dead@[k]),
            decreases n - i,
        {
            let hit = self.entries[i].stream.is_some() && (if by_session {
                self.entries[i].session == session
            } else {
                self.entries[i].announced_at <= now && now - self.entries[i].announced_at
                    >= self.expiry
            });
            if hit {
                let ghost dead_pre = dead@;
                let ghost self_pre = self.entries@;
                let mut e = self.entries.remove(i);
                let s = e.stream;
                e.stream = None;
                let ghost e_spec = e;
                self.entries.insert(i, e);
                proof {
                    assert(self.entries@ =~= self_pre.update(i as int, e_spec));
                    assert(entry_doomed(pre.entries@[i as int], pre.expiry, by_session, session, now));
                }
                if let Some(x) = s {
                    dead.push(x);
                    proof {
                        assert forall|j: int|
                            0 <= j < i + 1 && entry_doomed(
                                pre.entries@[j],
                                pre.expiry,
                                by_session,
                                session,
                                now,
                            ) implies exists|k: int|
                            0 <= k < dead@.len() && pre.entries@[j].stream == Some(dead@[k]) by {
                            if j < i {
                                let k = choose|k: int|
                                    0 <= k < dead_pre.len() && pre.entries@[j].stream == Some(
                                        dead_pre[k],
                                    );
                                assert(dead@[k] == dead_pre[k]);
                            } else {
                                assert(pre.entries@[i as int].stream == Some(
                                    dead@[dead@.len() - 1],
                                ));
                            }
                        }
                    }
                }
            }
            i += 1;
        }
        proof {
            lemma_purge_rel(pre, *self, by_session, session, now, dead@);
        }
        dead
    }

    /// Removes every pending entry whose deadline has passed at `now`,
    /// returning the streams for the caller to close. Afterwards a claim of
    /// any removed identifier misses.
    pub fn sweep(&mut self, now: u64) -> (dead: Vec<S>)
        requires
            old(self).wf(),
        ensures
            purge_rel(*old(self), *final(self), false, 0, now, dead@),
    {
        self.purge(false, 0, now)
    }

    /// Removes every pending entry of the session being torn down, returning
    /// the streams for the caller to close.
    pub fn drop_session(&mut self, session: u64) -> (dead: Vec<S>)
        requires
            old(self).wf(),
        ensures
            purge_rel(*old(self), *final(self), true, session, 0, dead@),
    {
        self.purge(true, session, 0)
    }
}

/// The per-entry form of `doomed`.
spec fn entry_doomed<S>(e: Entry<S>, expiry: u64, by_session: bool, session: u64, now: u64) -> bool {
    e.stream is Some && (if by_session {
        e.session == session
    } else {
        e.announced_at + expiry <= now
    })
}

/// Lifts the entry-wise facts the purge loop establishes to the id-based
/// purge relation.
#[verifier::rlimit(100)]
proof fn lemma_purge_rel<S>(
    pre: Registry<S>,
    post: Registry<S>,
    by_session: bool,
    session: u64,
    now: u64,
    dead: Seq<S>,
)
    requires
        pre.wf(),
        post.expiry == pre.expiry,
        post.entries@.len() == pre.entries@.len(),
        forall|j: int|
            0 <= j < pre.entries@.len() ==> post.entries@[j].id == pre.entries@[j].id
                && post.entries@[j].session == pre.entries@[j].session
                && post.entries@[j].announced_at == pre.entries@[j].announced_at,
        forall|j: int|
            0 <= j < pre.entries@.len() ==> post.entries@[j].stream == (if entry_doomed(
                pre.entries@[j],
                pre.expiry,
                by_session,
                session,
                now,
            ) {
                None::<S>
            } else {
                pre.entries@[j].stream
            }),
        forall|j: int|
            0 <= j < pre.entries@.len() && entry_doomed(
                pre.entries@[j],
                pre.expiry,
                by_session,
                session,
                now,
            ) ==> exists|k: int| 0 <= k < dead.len() && pre.entries@[j].stream == Some(dead[k]),
    ensures
        purge_rel(pre, post, by_session, session, now, dead),
{
    assert forall|a: int, b: int|
        0 <= a < b < post.entries@.len() implies post.entries@[a].id != post.entries@[b].id by {
        assert(pre.entries@[a].id != pre.entries@[b].id);
    }
    assert forall|x: u128|
        #![trigger post.has_id(x)]
        post.has_id(x) == pre.has_id(x) && post.session_of(x) == pre.session_of(x)
            && post.announced_of(x) == pre.announced_of(x) by {
        if pre.has_id(x) {
            let j = pre.idx_of(x);
            lemma_lookup(pre, j);
            lemma_lookup(post, j);
        } else if post.has_id(x) {
            let j = post.idx_of(x);
            lemma_lookup(pre, j);
        }
    }
    assert forall|x: u128|
        post.stream_of(x) == (if doomed(pre, x, by_session, session, now) {
            None::<S>
        } else {
            pre.stream_of(x)
        }) by {
        if pre.has_id(x) {
            let j = pre.idx_of(x);
            lemma_lookup(pre, j);
            lemma_lookup(post, j);
            assert(doomed(pre, x, by_session, session, now) == entry_doomed(
                pre.entries@[j],
                pre.expiry,
                by_session,
                session,
                now,
            ));
        }
    }
    assert forall|x: u128|
        doomed(pre, x, by_session, session, now) implies exists|j: int|
        0 <= j < dead.len() && pre.stream_of(x) == Some(dead[j]) by {
        let j = pre.idx_of(x);
        lemma_lookup(pre, j);
    }
}

/// A pending connection is claimable exactly once: after a successful claim
/// of `id`, every later claim of `id` misses, at any time.
pub proof fn lemma_claim_exactly_once<S>(
    r0: Registry<S>,
    r1: Registry<S>,
    r2: Registry<S>,
    id: u128,
    now1: u64,
    s: S,
    now2: u64,
    res2: Option<S>,
)
    requires
        take_rel(r0, r1, id, now1, Some(s)),
        take_rel(r1, r2, id, now2, res2),
    ensures
        res2 is None,
{
}

/// An identifier the registry has once accepted is never accepted again, so
/// announced identifiers are pairwise distinct for the registry's lifetime.
pub proof fn lemma_id_never_reissued<S>(
    r0: Registry<S>,
    r1: Registry<S>,
    id: u128,
    session: u64,
    now: u64,
    stream: S,
    res: Result<(), S>,
)
    requires
        r0.has_id(id),
        insert_rel(r0, r1, id, session, now, stream, res),
    ensures
        res == Err::<(), S>(stream),
        r1 == r0,
{
}

/// A claim after the expiry deadline misses: it returns nothing and leaves
/// the registry unchanged — it never hangs on a vanished connection.
pub proof fn lemma_expired_claim_misses<S>(
    r0: Registry<S>,
    r1: Registry<S>,
    id: u128,
    now: u64,
    res: Option<S>,
)
    requires
        take_rel(r0, r1, id, now, res),
        r0.expired(id, now),
    ensures
        res is None,
        r1 == r0,
{
}

/// The expiry sweep removes exactly the pending connections past their
/// deadline and hands their streams back for closing; afterwards a claim of
/// a removed identifier misses at any later time.
pub proof fn lemma_sweep_removes_expired<S>(
    r0: Registry<S>,
    r1: Registry<S>,
    now: u64,
    dead: Seq<S>,
    id: u128,
    now2: u64,
)
    requires
        purge_rel(r0, r1, false, 0, now, dead),
        r0.pending(id),
        r0.expired(id, now),
    ensures
        !r1.pending(id),
        !r1.live(id, now2),
        exists|j: int| 0 <= j < dead.len() && r0.stream_of(id) == Some(dead[j]),
{
    assert(doomed(r0, id, false, 0, now));
    assert(r1.stream_of(id) == None::<S>);
    if r1.has_id(id) {
        lemma_lookup(r1, r1.idx_of(id));
    }
}

} // verus!
