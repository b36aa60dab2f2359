//! The relay-side session: the control state machine of one accepted control
//! connection, and the announce/claim/teardown operations that tie it to the
//! port allocator and the pending-connection registry.
//!
//! The session decides; the surrounding binary performs. Each call of `step`
//! consumes one control-stream event and returns the actions to carry out, in
//! order: messages to write, a listener to open, the control stream to close.

use vstd::prelude::*;
use crate::TunnelError;
use crate::auth;
use crate::auth::proof_tag;
use crate::auth::random_u128;
use crate::ports::PortAllocator;
use crate::registry::Registry;
use crate::registry::insert_rel;
use crate::registry::purge_rel;
use crate::wire::ClientMessage;

verus! {

/// Where a relay session stands: reading the client's hello, awaiting its
/// proof for a challenge, serving an established tunnel, or finished.
#[derive(Clone, Copy, Debug, PartialEq, Eq, Structural)]
pub enum RelayState {
    AwaitingHello,
    AwaitingAuth { nonce: u128, requested_port: u16 },
    Serving { port: u16 },
    Closed,
}

/// One event on the session's control stream: a decoded message, an
/// undecodable frame, or the stream closing or failing.
#[derive(Debug)]
pub enum RelayEvent {
    Message(ClientMessage),
    Malformed,
    ControlClosed,
}

/// One thing the surrounding binary must do after a step, in order.
#[derive(Clone, Copy, Debug, PartialEq, Eq, Structural)]
pub enum RelayAction {
    /// Write `Hello { assigned_port: port }` on the control stream.
    SendHello { port: u16 },
    /// Write `Challenge { nonce }` on the control stream.
    SendChallenge { nonce: u128 },
    /// Write `Error` with this error's code, best effort.
    SendError { error: TunnelError },
    /// Bind the public listener for the tunnel on this port.
    OpenListener { port: u16 },
    /// Close the control stream and tear the session down.
    CloseControl,
}

/// One relay session: the shared secret it demands, if any, and where the
/// session stands.
pub struct RelaySession {
    secret: Option<Vec<u8>>,
    state: RelayState,
}

impl RelaySession {
    /// The configured shared secret, as a byte sequence.
    pub closed spec fn spec_secret(self) -> Option<Seq<u8>> {
        match self.secret {
            Some(s) => Some(s@),
            None => None,
        }
    }

    /// Where the session stands.
    pub closed spec fn spec_state(self) -> RelayState {
        self.state
    }

    /// A session awaits a proof only when a secret is configured.
    pub open spec fn wf(self) -> bool {
        self.spec_state() is AwaitingAuth ==> self.spec_secret() is Some
    }

    /// A fresh session for one accepted control connection.
    pub fn new(secret: Option<Vec<u8>>) -> (r: RelaySession)
        ensures
            r.wf(),
            r.spec_state() == RelayState::AwaitingHello,
            r.spec_secret() == (match secret {
                Some(s) => Some(s@),
                None => None::<Seq<u8>>,
            }),
    {
        RelaySession { secret, state: RelayState::AwaitingHello }
    }

    /// Where the session stands.
    pub fn state(&self) -> (s: RelayState)
        ensures
            s == self.spec_state(),
    {
        self.state
    }
}

/// A session that fails: the allocator untouched, the state closed, an error
/// sent best-effort and the control stream closed.
pub open spec fn close_rel(
    e: TunnelError,
    a0: PortAllocator,
    a1: PortAllocator,
    post: RelayState,
    acts: Seq<RelayAction>,
) -> bool {
    &&& a1 == a0
    &&& post == RelayState::Closed
    &&& acts =~= seq![RelayAction::SendError { error: e }, RelayAction::CloseControl]
}

/// A tunnel request being served: when the range still has a free port, one
/// is bound — the requested one whenever that is possible (0 asking for any)
/// — announced to the client and opened; when the range is exhausted the
/// session fails with an allocation error.
pub open spec fn serve_rel(
    a0: PortAllocator,
    req: u16,
    a1: PortAllocator,
    post: RelayState,
    acts: Seq<RelayAction>,
) -> bool {
    if exists|q: u16| a0.can_bind(q) {
        match post {
            RelayState::Serving { port } => {
                &&& a0.can_bind(port)
                &&& a1.is_bound(port)
                &&& forall|q: u16| q != port ==> a1.is_bound(q) == a0.is_bound(q)
                &&& (req != 0 && a0.can_bind(req) ==> port == req)
                &&& acts =~= seq![
                    RelayAction::SendHello { port },
                    RelayAction::OpenListener { port },
                ]
            },
            _ => false,
        }
    } else {
        close_rel(TunnelError::Allocation, a0, a1, post, acts)
    }
}

/// The relay session's transition relation: what one control event does to
/// the session and the allocator, and which actions it demands.
pub open spec fn step_rel(
    pre: RelaySession,
    a0: PortAllocator,
    ev: RelayEvent,
    post: RelaySession,
    a1: PortAllocator,
    acts: Seq<RelayAction>,
) -> bool {
    &&& post.spec_secret() == pre.spec_secret()
    &&& match pre.spec_state() {
        RelayState::Closed => post.spec_state() == RelayState::Closed && a1 == a0 && acts
            =~= Seq::<RelayAction>::empty(),
        _ => match ev {
            RelayEvent::ControlClosed => post.spec_state() == RelayState::Closed && a1 == a0
                && acts =~= seq![RelayAction::CloseControl],
            RelayEvent::Malformed => close_rel(
                TunnelError::Protocol,
                a0,
                a1,
                post.spec_state(),
                acts,
            ),
            RelayEvent::Message(m) => match (pre.spec_state(), m) {
                (RelayState::AwaitingHello, ClientMessage::Hello { requested_port }) => match pre
                    .spec_secret() {
                    Some(_) => a1 == a0 && (match post.spec_state() {
                        RelayState::AwaitingAuth { nonce, requested_port: rp } => rp
                            == requested_port && acts =~= seq![
                            RelayAction::SendChallenge { nonce },
                        ],
                        _ => false,
                    }),
                    None => serve_rel(a0, requested_port, a1, post.spec_state(), acts),
                },
                (
                    RelayState::AwaitingAuth { nonce, requested_port },
                    ClientMessage::Authenticate { tag },
                ) => match pre.spec_secret() {
                    Some(sec) => if tag@ == proof_tag(sec, nonce) {
                        serve_rel(a0, requested_port, a1, post.spec_state(), acts)
                    } else {
                        close_rel(TunnelError::Authentication, a0, a1, post.spec_state(), acts)
                    },
                    None => false,
                },
                _ => close_rel(TunnelError::Protocol, a0, a1, post.spec_state(), acts),
            },
        },
    }
}

impl RelaySession {
    /// Fails the session: an error is sent best-effort, the control stream
    /// closes.
    fn close_with(&mut self, e: TunnelError) -> (acts: Vec<RelayAction>)
        ensures
            final(self).state == RelayState::Closed,
            final(self).secret == old(self).secret,
            acts@ =~= seq![RelayAction::SendError { error: e }, RelayAction::CloseControl],
    {
        self.state = RelayState::Closed;
        let mut v: Vec<RelayAction> = Vec::new();
        v.push(RelayAction::SendError { error: e });
        v.push(RelayAction::CloseControl);
        v
    }

    /// Serves a tunnel request: binds a port (0 meaning any) and opens it, or
    /// fails the session when the range is exhausted.
    fn serve(&mut self, requested_port: u16, alloc: &mut PortAllocator) -> (acts: Vec<RelayAction>)
        requires
            old(alloc).wf(),
        ensures
            final(alloc).wf(),
            final(alloc).spec_range() == old(alloc).spec_range(),
            final(self).secret == old(self).secret,
            serve_rel(*old(alloc), requested_port, *final(alloc), final(self).state, acts@),
    {
        let req = if requested_port == 0 {
            None
        } else {
            Some(requested_port)
        };
        match alloc.try_bind(req) {
            Ok(port) => {
                self.state = RelayState::Serving { port };
                let mut v: Vec<RelayAction> = Vec::new();
                v.push(RelayAction::SendHello { port });
                v.push(RelayAction::OpenListener { port });
                v
            },
            Err(_) => self.close_with(TunnelError::Allocation),
        }
    }

    /// Consumes one control-stream event and returns the actions to perform,
    /// in order. The transition taken is exactly `step_rel`; the allocator is
    /// touched only to bind the tunnel port of a successful hello.
    pub fn step(&mut self, event: RelayEvent, alloc: &mut PortAllocator) -> (acts: Vec<
        RelayAction,
    >)
        requires
            old(self).wf(),
            old(alloc).wf(),
        ensures
            final(self).wf(),
            final(alloc).wf(),
            final(alloc).spec_range() == old(alloc).spec_range(),
            step_rel(*old(self), *old(alloc), event, *final(self), *final(alloc), acts@),
    {
        let st = self.state;
        if let RelayState::Closed = st {
            let v: Vec<RelayAction> = Vec::new();
            return v;
        }
        match event {
            RelayEvent::ControlClosed => {
                self.state = RelayState::Closed;
                let mut v: Vec<RelayAction> = Vec::new();
                v.push(RelayAction::CloseControl);
                v
            },
            RelayEvent::Malformed => self.close_with(TunnelError::Protocol),
            RelayEvent::Message(m) => match (st, m) {
                (RelayState::AwaitingHello, ClientMessage::Hello { requested_port }) => {
                    if self.secret.is_some() {
                        let nonce = random_u128();
                        self.state = RelayState::AwaitingAuth { nonce, requested_port };
                        let mut v: Vec<RelayAction> = Vec::new();
                        v.push(RelayAction::SendChallenge { nonce });
                        v
                    } else {
                        self.serve(requested_port, alloc)
                    }
                },
                (
                    RelayState::AwaitingAuth { nonce, requested_port },
                    ClientMessage::Authenticate { tag },
                ) => {
                    let ok = match &self.secret {
                        Some(sec) => auth::validate(sec, nonce, tag.as_slice()),
                        None => false,
                    };
                    if ok {
                        self.serve(requested_port, alloc)
                    } else {
                        self.close_with(TunnelError::Authentication)
                    }
                },
                _ => self.close_with(TunnelError::Protocol),
            },
        }
    }
}

/// Announces a freshly accepted public connection: draws a one-time
/// identifier, registers the stream under it, and gives back the identifier
/// to announce as `Connection`. In the astronomically unlikely event that the
/// drawn identifier was ever used before, the stream is handed back for the
/// caller to retry or drop.
pub fn announce<S>(reg: &mut Registry<S>, session: u64, now: u64, stream: S) -> (r: Result<
    u128,
    S,
>)
    requires
        old(reg).wf(),
    ensures
        final(reg).wf(),
        match r {
            Ok(id) => !old(reg).has_id(id) && insert_rel(
                *old(reg),
                *final(reg),
                id,
                session,
                now,
                stream,
                Ok(()),
            ) && final(reg).live(id, now),
            Err(s) => s == stream && *final(reg) == *old(reg),
        },
{
    let id = random_u128();
    let ghost pre = *reg;
    match reg.insert(id, session, now, stream) {
        Ok(()) => {
            proof {
                crate::registry::lemma_wf_expiry(*reg);
                crate::registry::lemma_pending_iff_stream(*reg, id);
                assert(!pre.has_id(id));
            }
            Ok(id)
        },
        Err(s) => Err(s),
    }
}

/// Tears a session down: releases its port, if it was serving, and removes
/// all of its still-pending connections, returning their streams for the
/// caller to close. Errors never cross session boundaries: every other
/// session's port and pending connections stay exactly as they were.
pub fn close_session<S>(
    sess: &mut RelaySession,
    alloc: &mut PortAllocator,
    reg: &mut Registry<S>,
    session_id: u64,
) -> (dead: Vec<S>)
    requires
        old(sess).wf(),
        old(alloc).wf(),
        old(reg).wf(),
    ensures
        final(sess).wf(),
        final(sess).spec_state() == RelayState::Closed,
        final(sess).spec_secret() == old(sess).spec_secret(),
        final(alloc).wf(),
        final(alloc).spec_range() == old(alloc).spec_range(),
        match old(sess).spec_state() {
            RelayState::Serving { port } => !final(alloc).is_bound(port) && forall|q: u16|
                q != port ==> final(alloc).is_bound(q) == old(alloc).is_bound(q),
            _ => *final(alloc) == *old(alloc),
        },
        purge_rel(*old(reg), *final(reg), true, session_id, 0, dead@),
{
    if let RelayState::Serving { port } = sess.state {
        alloc.release(port);
    }
    sess.state = RelayState::Closed;
    reg.drop_session(session_id)
}

/// Once closed, a session stays closed and does nothing more.
pub proof fn lemma_closed_is_final(
    pre: RelaySession,
    a0: PortAllocator,
    ev: RelayEvent,
    post: RelaySession,
    a1: PortAllocator,
    acts: Seq<RelayAction>,
)
    requires
        pre.spec_state() is Closed,
        step_rel(pre, a0, ev, post, a1, acts),
    ensures
        post.spec_state() is Closed,
        a1 == a0,
        acts.len() == 0,
{
}

/// With a secret configured, the relay serves only after a correct proof: a
/// step that reaches `Serving` from any other state consumed an
/// `Authenticate` whose tag is exactly the proof for the challenge nonce the
/// session issued.
pub proof fn lemma_auth_required(
    pre: RelaySession,
    a0: PortAllocator,
    ev: RelayEvent,
    post: RelaySession,
    a1: PortAllocator,
    acts: Seq<RelayAction>,
)
    requires
        pre.wf(),
        pre.spec_secret() is Some,
        !(pre.spec_state() is Serving),
        step_rel(pre, a0, ev, post, a1, acts),
        post.spec_state() is Serving,
    ensures
        pre.spec_state() is AwaitingAuth,
        ev matches RelayEvent::Message(ClientMessage::Authenticate { tag }) && (match (
            pre.spec_state(),
            pre.spec_secret(),
        ) {
            (RelayState::AwaitingAuth { nonce, .. }, Some(sec)) => tag@ == proof_tag(sec, nonce),
            _ => false,
        }),
{
}

/// With no secret configured, the relay never challenges a client.
pub proof fn lemma_no_secret_no_challenge(
    pre: RelaySession,
    a0: PortAllocator,
    ev: RelayEvent,
    post: RelaySession,
    a1: PortAllocator,
    acts: Seq<RelayAction>,
    i: int,
)
    requires
        pre.spec_secret() is None,
        step_rel(pre, a0, ev, post, a1, acts),
        0 <= i < acts.len(),
    ensures
        !(acts[i] is SendChallenge),
{
}

/// A served tunnel's port always lies inside the configured range, whatever
/// the client asked for.
pub proof fn lemma_served_port_in_range(
    pre: RelaySession,
    a0: PortAllocator,
    ev: RelayEvent,
    post: RelaySession,
    a1: PortAllocator,
    acts: Seq<RelayAction>,
)
    requires
        step_rel(pre, a0, ev, post, a1, acts),
        !(pre.spec_state() is Serving),
        post.spec_state() is Serving,
    ensures
        match post.spec_state() {
            RelayState::Serving { port } => a0.in_range(port) && a1.is_bound(port),
            _ => false,
        },
{
}

} // verus!
