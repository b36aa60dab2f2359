//! The client-side session: the control state machine of the tunnel client.
//!
//! The client sends its hello upon connecting, answers a challenge when it
//! holds the secret, and once registered treats each `Connection`
//! announcement as an independent claim to fan out. As on the relay side, the
//! session decides and the surrounding binary performs the returned actions.

use vstd::prelude::*;
use crate::TunnelError;
use crate::spec_decode_error;
use crate::auth;
use crate::auth::proof_tag;
use crate::wire::ClientMessage;
use crate::wire::ClientMsg;
use crate::wire::ServerMessage;

verus! {

/// Where the client session stands: hello sent and awaiting the reply,
/// challenge answered and awaiting the reply, registered on an assigned port
/// and running, or finished.
#[derive(Clone, Copy, Debug, PartialEq, Eq, Structural)]
pub enum ClientState {
    Connecting,
    Authenticating,
    Registered { port: u16 },
    Closed,
}

/// One event on the client's control stream.
#[derive(Debug)]
pub enum ClientEvent {
    Message(ServerMessage),
    Malformed,
    ControlClosed,
}

/// One thing the surrounding binary must do after a step, in order.
#[derive(Clone, Copy, Debug, PartialEq, Eq, Structural)]
pub enum ClientAction {
    /// Send `Authenticate` with the proof for this nonce (see
    /// `answer_message`).
    Answer { nonce: u128 },
    /// Claim the announced connection: open a stream to the relay, send
    /// `Accept` with this identifier, connect to the local service, and
    /// forward — independently, so a slow local service stalls nothing else.
    Claim { connection_id: u128 },
    /// The session failed with this error; surface it to the caller.
    Fail { error: TunnelError },
}

/// One client session: the secret it can prove, the remote port it asks for
/// (0 meaning any), and where it stands.
pub struct ClientSession {
    secret: Option<Vec<u8>>,
    requested_port: u16,
    state: ClientState,
}

/// The client session's transition relation.
pub open spec fn client_step_rel(
    pre: ClientSession,
    ev: ClientEvent,
    post: ClientSession,
    acts: Seq<ClientAction>,
) -> bool {
    &&& post.spec_secret() == pre.spec_secret()
    &&& post.spec_requested_port() == pre.spec_requested_port()
    &&& match pre.spec_state() {
        ClientState::Closed => post.spec_state() == ClientState::Closed && acts =~= Seq::<
            ClientAction,
        >::empty(),
        _ => match ev {
            ClientEvent::ControlClosed => post.spec_state() == ClientState::Closed && acts =~= seq![
                ClientAction::Fail { error: TunnelError::Transport },
            ],
            ClientEvent::Malformed => post.spec_state() == ClientState::Closed && acts =~= seq![
                ClientAction::Fail { error: TunnelError::Protocol },
            ],
            ClientEvent::Message(m) => match (pre.spec_state(), m) {
                (_, ServerMessage::Error { message }) => post.spec_state() == ClientState::Closed
                    && acts =~= seq![ClientAction::Fail { error: spec_decode_error(message@) }],
                (ClientState::Connecting, ServerMessage::Challenge { nonce }) => match pre
                    .spec_secret() {
                    Some(_) => post.spec_state() == ClientState::Authenticating && acts =~= seq![
                        ClientAction::Answer { nonce },
                    ],
                    None => post.spec_state() == ClientState::Closed && acts =~= seq![
                        ClientAction::Fail { error: TunnelError::Authentication },
                    ],
                },
                (ClientState::Connecting, ServerMessage::Hello { assigned_port }) => post
                    .spec_state() == (ClientState::Registered { port: assigned_port }) && acts
                    =~= Seq::<ClientAction>::empty(),
                (ClientState::Authenticating, ServerMessage::Hello { assigned_port }) => post
                    .spec_state() == (ClientState::Registered { port: assigned_port }) && acts
                    =~= Seq::<ClientAction>::empty(),
                (ClientState::Registered { .. }, ServerMessage::Heartbeat) => post.spec_state()
                    == pre.spec_state() && acts =~= Seq::<ClientAction>::empty(),
                (ClientState::Registered { .. }, ServerMessage::Connection { connection_id }) =>
                    post.spec_state() == pre.spec_state() && acts =~= seq![
                    ClientAction::Claim { connection_id },
                ],
                _ => post.spec_state() == ClientState::Closed && acts =~= seq![
                    ClientAction::Fail { error: TunnelError::Protocol },
                ],
            },
        },
    }
}

impl ClientSession {
    /// The shared secret this client can prove, as a byte sequence.
    pub closed spec fn spec_secret(self) -> Option<Seq<u8>> {
        match self.secret {
            Some(s) => Some(s@),
            None => None,
        }
    }

    /// The remote port the client asks for, 0 meaning any.
    pub closed spec fn spec_requested_port(self) -> u16 {
        self.requested_port
    }

    /// Where the session stands.
    pub closed spec fn spec_state(self) -> ClientState {
        self.state
    }

    /// A fresh session about to open its control stream.
    pub fn new(secret: Option<Vec<u8>>, requested_port: u16) -> (r: ClientSession)
        ensures
            r.spec_state() == ClientState::Connecting,
            r.spec_requested_port() == requested_port,
            r.spec_secret() == (match secret {
                Some(s) => Some(s@),
                None => None::<Seq<u8>>,
            }),
    {
        ClientSession { secret, requested_port, state: ClientState::Connecting }
    }

    /// Where the session stands.
    pub fn state(&self) -> (s: ClientState)
        ensures
            s == self.spec_state(),
    {
        self.state
    }

    /// The hello to send as soon as the control stream is open.
    pub fn hello(&self) -> (m: ClientMessage)
        ensures
            m@ == (ClientMsg::Hello { requested_port: self.spec_requested_port() }),
    {
        ClientMessage::Hello { requested_port: self.requested_port }
    }

    /// The authenticate message answering a challenge: the proof computed
    /// from the configured secret over the challenge nonce. Nothing to send
    /// when no secret is configured.
    pub fn answer_message(&self, nonce: u128) -> (r: Option<ClientMessage>)
        ensures
            r is Some <==> self.spec_secret() is Some,
            match (r, self.spec_secret()) {
                (Some(m), Some(sec)) => m@ == (ClientMsg::Authenticate {
                    tag: proof_tag(sec, nonce),
                }),
                (None, None) => true,
                _ => false,
            },
    {
        match &self.secret {
            Some(sec) => Some(ClientMessage::Authenticate { tag: auth::answer(sec, nonce) }),
            None => None,
        }
    }

    /// Consumes one control-stream event and returns the actions to perform,
    /// in order. The transition taken is exactly `client_step_rel`.
    pub fn step(&mut self, event: ClientEvent) -> (acts: Vec<ClientAction>)
        ensures
            client_step_rel(*old(self), event, *final(self), acts@),
    {
        let st = self.state;
        if let ClientState::Closed = st {
            let v: Vec<ClientAction> = Vec::new();
            return v;
        }
        match event {
            ClientEvent::ControlClosed => self.fail_with(TunnelError::Transport),
            ClientEvent::Malformed => self.fail_with(TunnelError::Protocol),
            ClientEvent::Message(m) => match (st, m) {
                (_, ServerMessage::Error { message }) => {
                    let e = crate::decode_error(message.as_slice());
                    self.fail_with(e)
                },
                (ClientState::Connecting, ServerMessage::Challenge { nonce }) => {
                    if self.secret.is_some() {
                        self.state = ClientState::Authenticating;
                        let mut v: Vec<ClientAction> = Vec::new();
                        v.push(ClientAction::Answer { nonce });
                        v
                    } else {
                        self.fail_with(TunnelError::Authentication)
                    }
                },
                (ClientState::Connecting, ServerMessage::Hello { assigned_port }) => {
                    self.state = ClientState::Registered { port: assigned_port };
                    Vec::new()
                },
                (ClientState::Authenticating, ServerMessage::Hello { assigned_port }) => {
                    self.state = ClientState::Registered { port: assigned_port };
                    Vec::new()
                },
                (ClientState::Registered { .. }, ServerMessage::Heartbeat) => Vec::new(),
                (ClientState::Registered { .. }, ServerMessage::Connection { connection_id }) => {
                    let mut v: Vec<ClientAction> = Vec::new();
                    v.push(ClientAction::Claim { connection_id });
                    v
                },
                _ => self.fail_with(TunnelError::Protocol),
            },
        }
    }

    /// Fails the session, surfacing the error to the caller.
    fn fail_with(&mut self, e: TunnelError) -> (acts: Vec<ClientAction>)
        ensures
            final(self).state == ClientState::Closed,
            final(self).secret == old(self).secret,
            final(self).requested_port == old(self).requested_port,
            acts@ =~= seq![ClientAction::Fail { error: e }],
    {
        self.state = ClientState::Closed;
        let mut v: Vec<ClientAction> = Vec::new();
        v.push(ClientAction::Fail { error: e });
        v
    }
}

/// The message that claims an announced connection on a fresh data stream.
pub fn accept_message(connection_id: u128) -> (m: ClientMessage)
    ensures
        m@ == (ClientMsg::Accept { connection_id }),
{
    ClientMessage::Accept { connection_id }
}

/// The client answers only a challenge, only while connecting, and only with
/// a secret in hand — and then with the proof for exactly the nonce it was
/// challenged with.
pub proof fn lemma_answer_only_to_challenge(
    pre: ClientSession,
    ev: ClientEvent,
    post: ClientSession,
    acts: Seq<ClientAction>,
    i: int,
)
    requires
        client_step_rel(pre, ev, post, acts),
        0 <= i < acts.len(),
        acts[i] is Answer,
    ensures
        pre.spec_secret() is Some,
        pre.spec_state() is Connecting,
        ev matches ClientEvent::Message(ServerMessage::Challenge { nonce }) && acts[i]
            == (ClientAction::Answer { nonce }),
{
}

/// Once closed, a client session stays closed and does nothing more.
pub proof fn lemma_client_closed_is_final(
    pre: ClientSession,
    ev: ClientEvent,
    post: ClientSession,
    acts: Seq<ClientAction>,
)
    requires
        pre.spec_state() is Closed,
        client_step_rel(pre, ev, post, acts),
    ensures
        post.spec_state() is Closed,
        acts.len() == 0,
{
}

} // verus!
