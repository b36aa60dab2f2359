//! The wire protocol of the tunnel: two message vocabularies (client to relay
//! and relay to client) and their framing over a byte stream.
//!
//! Every message is a tag byte followed by its payload, and every payload is
//! carried in a frame that starts with a two-byte little-endian length, so
//! messages can be read off a stream without buffering the whole connection.

use vstd::prelude::*;
use vstd::bytes::*;
use vstd::slice::*;
use crate::TunnelError;

verus! {

/// The longest payload a frame can carry: the length prefix is 16 bits wide.
pub const MAX_PAYLOAD: usize = 65535;

/// A message sent by the client on a control or data stream.
#[derive(Debug, Clone)]
pub enum ClientMessage {
    /// Opens a tunnel; the port the client asks for on the relay, 0 meaning any.
    Hello { requested_port: u16 },
    /// Claims a pending public connection, sent first on a fresh data stream.
    Accept { connection_id: u128 },
    /// Answers a challenge with the proof derived from the shared secret.
    Authenticate { tag: Vec<u8> },
}

/// A message sent by the relay on the control stream.
#[derive(Debug, Clone)]
pub enum ServerMessage {
    /// Acknowledges a tunnel request with the port that was bound.
    Hello { assigned_port: u16 },
    /// Demands a proof of the shared secret over this nonce.
    Challenge { nonce: u128 },
    /// Periodic keepalive; carries no information.
    Heartbeat,
    /// Announces a pending public connection waiting to be claimed.
    Connection { connection_id: u128 },
    /// Reports a fatal session error; the payload is a one-byte error code.
    Error { message: Vec<u8> },
}

/// The mathematical model of a client message: byte vectors become sequences.
pub enum ClientMsg {
    Hello { requested_port: u16 },
    Accept { connection_id: u128 },
    Authenticate { tag: Seq<u8> },
}

/// The mathematical model of a relay message.
pub enum ServerMsg {
    Hello { assigned_port: u16 },
    Challenge { nonce: u128 },
    Heartbeat,
    Connection { connection_id: u128 },
    Error { message: Seq<u8> },
}

impl View for ClientMessage {
    type V = ClientMsg;

    open spec fn view(&self) -> ClientMsg {
        match self {
            ClientMessage::Hello { requested_port } => ClientMsg::Hello {
                requested_port: *requested_port,
            },
            ClientMessage::Accept { connection_id } => ClientMsg::Accept {
                connection_id: *connection_id,
            },
            ClientMessage::Authenticate { tag } => ClientMsg::Authenticate { tag: tag@ },
        }
    }
}

impl View for ServerMessage {
    type V = ServerMsg;

    open spec fn view(&self) -> ServerMsg {
        match self {
            ServerMessage::Hello { assigned_port } => ServerMsg::Hello {
                assigned_port: *assigned_port,
            },
            ServerMessage::Challenge { nonce } => ServerMsg::Challenge { nonce: *nonce },
            ServerMessage::Heartbeat => ServerMsg::Heartbeat,
            ServerMessage::Connection { connection_id } => ServerMsg::Connection {
                connection_id: *connection_id,
            },
            ServerMessage::Error { message } => ServerMsg::Error { message: message@ },
        }
    }
}

impl ClientMsg {
    /// A message is well formed when its payload fits in one frame.
    pub open spec fn wf(self) -> bool {
        match self {
            ClientMsg::Authenticate { tag } => tag.len() + 1 <= MAX_PAYLOAD,
            _ => true,
        }
    }
}

impl ServerMsg {
    /// A message is well formed when its payload fits in one frame.
    pub open spec fn wf(self) -> bool {
        match self {
            ServerMsg::Error { message } => message.len() + 1 <= MAX_PAYLOAD,
            _ => true,
        }
    }
}

/// The payload bytes of a client message: a tag byte, then the fields in
/// little-endian order.
pub open spec fn spec_encode_client(m: ClientMsg) -> Seq<u8> {
    match m {
        ClientMsg::Hello { requested_port } => seq![1u8] + spec_u16_to_le_bytes(requested_port),
        ClientMsg::Accept { connection_id } => seq![2u8] + spec_u128_to_le_bytes(connection_id),
        ClientMsg::Authenticate { tag } => seq![3u8] + tag,
    }
}

/// The payload bytes of a relay message.
pub open spec fn spec_encode_server(m: ServerMsg) -> Seq<u8> {
    match m {
        ServerMsg::Hello { assigned_port } => seq![1u8] + spec_u16_to_le_bytes(assigned_port),
        ServerMsg::Challenge { nonce } => seq![2u8] + spec_u128_to_le_bytes(nonce),
        ServerMsg::Heartbeat => seq![3u8],
        ServerMsg::Connection { connection_id } => seq![4u8] + spec_u128_to_le_bytes(
            connection_id,
        ),
        ServerMsg::Error { message } => seq![5u8] + message,
    }
}

/// A payload wrapped in its frame: two length bytes, then the payload.
pub open spec fn spec_frame(payload: Seq<u8>) -> Seq<u8> {
    spec_u16_to_le_bytes(payload.len() as u16) + payload
}

/// Encodes a client message payload.
pub fn encode_client(m: &ClientMessage) -> (r: Vec<u8>)
    requires
        m@.wf(),
    ensures
        r@ == spec_encode_client(m@),
        1 <= r@.len() <= MAX_PAYLOAD,
{
    proof {
        lemma_auto_spec_u16_to_from_le_bytes();
        lemma_auto_spec_u128_to_from_le_bytes();
    }
    let mut v: Vec<u8> = Vec::new();
    match m {
        ClientMessage::Hello { requested_port } => {
            v.push(1u8);
            let mut b = u16_to_le_bytes(*requested_port);
            v.append(&mut b);
        },
        ClientMessage::Accept { connection_id } => {
            v.push(2u8);
            let mut b = u128_to_le_bytes(*connection_id);
            v.append(&mut b);
        },
        ClientMessage::Authenticate { tag } => {
            v.push(3u8);
            let mut b = slice_to_vec(tag.as_slice());
            v.append(&mut b);
        },
    }
    proof {
        assert(v@ =~= spec_encode_client(m@));
    }
    v
}

/// Encodes a relay message payload.
pub fn encode_server(m: &ServerMessage) -> (r: Vec<u8>)
    requires
        m@.wf(),
    ensures
        r@ == spec_encode_server(m@),
        1 <= r@.len() <= MAX_PAYLOAD,
{
    proof {
        lemma_auto_spec_u16_to_from_le_bytes();
        lemma_auto_spec_u128_to_from_le_bytes();
    }
    let mut v: Vec<u8> = Vec::new();
    match m {
        ServerMessage::Hello { assigned_port } => {
            v.push(1u8);
            let mut b = u16_to_le_bytes(*assigned_port);
            v.append(&mut b);
        },
        ServerMessage::Challenge { nonce } => {
            v.push(2u8);
            let mut b = u128_to_le_bytes(*nonce);
            v.append(&mut b);
        },
        ServerMessage::Heartbeat => {
            v.push(3u8);
        },
        ServerMessage::Connection { connection_id } => {
            v.push(4u8);
            let mut b = u128_to_le_bytes(*connection_id);
            v.append(&mut b);
        },
        ServerMessage::Error { message } => {
            v.push(5u8);
            let mut b = slice_to_vec(message.as_slice());
            v.append(&mut b);
        },
    }
    proof {
        assert(v@ =~= spec_encode_server(m@));
    }
    v
}

/// No well-formed client message encodes to a payload of this shape; the
/// premise lists exactly the shapes `decode_client` rejects.
proof fn lemma_client_undecodable(payload: Seq<u8>)
    requires
        payload.len() == 0 || payload.len() > MAX_PAYLOAD || (payload[0] == 1 && payload.len()
            != 3) || (payload[0] == 2 && payload.len() != 17) || !(payload[0] == 1 || payload[0]
            == 2 || payload[0] == 3),
    ensures
        forall|m: ClientMsg| m.wf() ==> payload != #[trigger] spec_encode_client(m),
{
    lemma_auto_spec_u16_to_from_le_bytes();
    lemma_auto_spec_u128_to_from_le_bytes();
    assert forall|m: ClientMsg| m.wf() implies payload != #[trigger] spec_encode_client(m) by {
        let e = spec_encode_client(m);
        match m {
            ClientMsg::Hello { requested_port } => {
                assert(e.len() == 3 && e[0] == 1);
            },
            ClientMsg::Accept { connection_id } => {
                assert(e.len() == 17 && e[0] == 2);
            },
            ClientMsg::Authenticate { tag } => {
                assert(1 <= e.len() <= MAX_PAYLOAD && e[0] == 3);
            },
        }
    }
}

/// No well-formed relay message encodes to a payload of this shape.
proof fn lemma_server_undecodable(payload: Seq<u8>)
    requires
        payload.len() == 0 || payload.len() > MAX_PAYLOAD || (payload[0] == 1 && payload.len()
            != 3) || (payload[0] == 2 && payload.len() != 17) || (payload[0] == 3 && payload.len()
            != 1) || (payload[0] == 4 && payload.len() != 17) || !(payload[0] == 1 || payload[0]
            == 2 || payload[0] == 3 || payload[0] == 4 || payload[0] == 5),
    ensures
        forall|m: ServerMsg| m.wf() ==> payload != #[trigger] spec_encode_server(m),
{
    lemma_auto_spec_u16_to_from_le_bytes();
    lemma_auto_spec_u128_to_from_le_bytes();
    assert forall|m: ServerMsg| m.wf() implies payload != #[trigger] spec_encode_server(m) by {
        let e = spec_encode_server(m);
        match m {
            ServerMsg::Hello { assigned_port } => {
                assert(e.len() == 3 && e[0] == 1);
            },
            ServerMsg::Challenge { nonce } => {
                assert(e.len() == 17 && e[0] == 2);
            },
            ServerMsg::Heartbeat => {
                assert(e.len() == 1 && e[0] == 3);
            },
            ServerMsg::Connection { connection_id } => {
                assert(e.len() == 17 && e[0] == 4);
            },
            ServerMsg::Error { message } => {
                assert(1 <= e.len() <= MAX_PAYLOAD && e[0] == 5);
            },
        }
    }
}

/// Decodes a client message payload. Succeeds exactly on the encodings of
/// well-formed messages; everything else is a protocol error.
pub fn decode_client(payload: &[u8]) -> (r: Result<ClientMessage, TunnelError>)
    ensures
        match r {
            Ok(m) => m@.wf() && payload@ == spec_encode_client(m@),
            Err(e) => e == TunnelError::Protocol && forall|m: ClientMsg|
                m.wf() ==> payload@ != #[trigger] spec_encode_client(m),
        },
{
    proof {
        lemma_auto_spec_u16_to_from_le_bytes();
        lemma_auto_spec_u128_to_from_le_bytes();
    }
    let n = payload.len();
    if n == 0 || n > MAX_PAYLOAD {
        proof {
            lemma_client_undecodable(payload@);
        }
        return Err(TunnelError::Protocol);
    }
    let t = *slice_index_get(payload, 0);
    if t == 1 && n == 3 {
        let requested_port = u16_from_le_bytes(slice_subrange(payload, 1, 3));
        let m = ClientMessage::Hello { requested_port };
        proof {
            assert(payload@ =~= spec_encode_client(m@));
        }
        Ok(m)
    } else if t == 2 && n == 17 {
        let connection_id = u128_from_le_bytes(slice_subrange(payload, 1, 17));
        let m = ClientMessage::Accept { connection_id };
        proof {
            assert(payload@ =~= spec_encode_client(m@));
        }
        Ok(m)
    } else if t == 3 {
        let tag = slice_to_vec(slice_subrange(payload, 1, n));
        let m = ClientMessage::Authenticate { tag };
        proof {
            assert(payload@ =~= spec_encode_client(m@));
        }
        Ok(m)
    } else {
        proof {
            lemma_client_undecodable(payload@);
        }
        Err(TunnelError::Protocol)
    }
}

/// Decodes a relay message payload. Succeeds exactly on the encodings of
/// well-formed messages; everything else is a protocol error.
pub fn decode_server(payload: &[u8]) -> (r: Result<ServerMessage, TunnelError>)
    ensures
        match r {
            Ok(m) => m@.wf() && payload@ == spec_encode_server(m@),
            Err(e) => e == TunnelError::Protocol && forall|m: ServerMsg|
                m.wf() ==> payload@ != #[trigger] spec_encode_server(m),
        },
{
    proof {
        lemma_auto_spec_u16_to_from_le_bytes();
        lemma_auto_spec_u128_to_from_le_bytes();
    }
    let n = payload.len();
    if n == 0 || n > MAX_PAYLOAD {
        proof {
            lemma_server_undecodable(payload@);
        }
        return Err(TunnelError::Protocol);
    }
    let t = *slice_index_get(payload, 0);
    if t == 1 && n == 3 {
        let assigned_port = u16_from_le_bytes(slice_subrange(payload, 1, 3));
        let m = ServerMessage::Hello { assigned_port };
        proof {
            assert(payload@ =~= spec_encode_server(m@));
        }
        Ok(m)
    } else if t == 2 && n == 17 {
        let nonce = u128_from_le_bytes(slice_subrange(payload, 1, 17));
        let m = ServerMessage::Challenge { nonce };
        proof {
            assert(payload@ =~= spec_encode_server(m@));
        }
        Ok(m)
    } else if t == 3 && n == 1 {
        let m = ServerMessage::Heartbeat;
        proof {
            assert(payload@ =~= spec_encode_server(m@));
        }
        Ok(m)
    } else if t == 4 && n == 17 {
        let connection_id = u128_from_le_bytes(slice_subrange(payload, 1, 17));
        let m = ServerMessage::Connection { connection_id };
        proof {
            assert(payload@ =~= spec_encode_server(m@));
        }
        Ok(m)
    } else if t == 5 {
        let message = slice_to_vec(slice_subrange(payload, 1, n));
        let m = ServerMessage::Error { message };
        proof {
            assert(payload@ =~= spec_encode_server(m@));
        }
        Ok(m)
    } else {
        proof {
            lemma_server_undecodable(payload@);
        }
        Err(TunnelError::Protocol)
    }
}

/// Wraps a payload in its frame.
pub fn encode_frame(payload: Vec<u8>) -> (r: Vec<u8>)
    requires
        payload@.len() <= MAX_PAYLOAD,
    ensures
        r@ == spec_frame(payload@),
{
    proof {
        lemma_auto_spec_u16_to_from_le_bytes();
    }
    let mut r = u16_to_le_bytes(payload.len() as u16);
    let mut p = payload;
    r.append(&mut p);
    r
}

/// Encodes a client message and wraps it in a frame, ready to write.
pub fn frame_client(m: &ClientMessage) -> (r: Vec<u8>)
    requires
        m@.wf(),
    ensures
        r@ == spec_frame(spec_encode_client(m@)),
{
    encode_frame(encode_client(m))
}

/// Encodes a relay message and wraps it in a frame, ready to write.
pub fn frame_server(m: &ServerMessage) -> (r: Vec<u8>)
    requires
        m@.wf(),
    ensures
        r@ == spec_frame(spec_encode_server(m@)),
{
    encode_frame(encode_server(m))
}

/// Splits the first complete frame off the front of a receive buffer.
/// Returns the frame's payload and the bytes that follow it, untouched; when
/// no complete frame has arrived yet the buffer comes back unchanged.
pub fn split_frame(buf: Vec<u8>) -> (r: (Option<Vec<u8>>, Vec<u8>))
    ensures
        match r.0 {
            Some(p) => p@.len() <= MAX_PAYLOAD && buf@ == spec_frame(p@) + r.1@,
            None => r.1@ == buf@ && (buf@.len() < 2 || buf@.len() < 2 + spec_u16_from_le_bytes(
                buf@.subrange(0, 2),
            )),
        },
{
    proof {
        lemma_auto_spec_u16_to_from_le_bytes();
    }
    if buf.len() < 2 {
        return (None, buf);
    }
    let n = u16_from_le_bytes(slice_subrange(buf.as_slice(), 0, 2)) as usize;
    if buf.len() - 2 < n {
        return (None, buf);
    }
    let mut head = buf;
    let rest = head.split_off(2 + n);
    let payload = head.split_off(2);
    proof {
        assert(head@ =~= buf@.subrange(0, 2));
        assert(buf@ =~= spec_frame(payload@) + rest@);
    }
    (Some(payload), rest)
}

/// Framing is unambiguous: both ends agree on every frame boundary. If one
/// byte stream reads as a frame followed by a remainder in two ways, the
/// frames and the remainders coincide.
pub proof fn lemma_frame_unambiguous(p1: Seq<u8>, r1: Seq<u8>, p2: Seq<u8>, r2: Seq<u8>)
    requires
        p1.len() <= MAX_PAYLOAD,
        p2.len() <= MAX_PAYLOAD,
        spec_frame(p1) + r1 == spec_frame(p2) + r2,
    ensures
        p1 == p2,
        r1 == r2,
{
    lemma_auto_spec_u16_to_from_le_bytes();
    let s1 = spec_frame(p1) + r1;
    let s2 = spec_frame(p2) + r2;
    assert(spec_u16_to_le_bytes(p1.len() as u16) =~= s1.subrange(0, 2));
    assert(spec_u16_to_le_bytes(p2.len() as u16) =~= s2.subrange(0, 2));
    assert(p1.len() as u16 == spec_u16_from_le_bytes(s1.subrange(0, 2)));
    assert(p2.len() as u16 == spec_u16_from_le_bytes(s2.subrange(0, 2)));
    assert(p1.len() == p2.len());
    assert(p1 =~= s1.subrange(2, 2 + p1.len() as int));
    assert(p2 =~= s2.subrange(2, 2 + p2.len() as int));
    assert(r1 =~= s1.subrange(2 + p1.len() as int, s1.len() as int));
    assert(r2 =~= s2.subrange(2 + p2.len() as int, s2.len() as int));
}

/// The client encoding is injective: distinct well-formed messages never
/// share a payload, so decoding is deterministic.
pub proof fn lemma_encode_client_injective(m1: ClientMsg, m2: ClientMsg)
    requires
        m1.wf(),
        m2.wf(),
        spec_encode_client(m1) == spec_encode_client(m2),
    ensures
        m1 == m2,
{
    lemma_auto_spec_u16_to_from_le_bytes();
    lemma_auto_spec_u128_to_from_le_bytes();
    let e = spec_encode_client(m1);
    match (m1, m2) {
        (ClientMsg::Hello { requested_port: p1 }, ClientMsg::Hello { requested_port: p2 }) => {
            assert(spec_u16_to_le_bytes(p1) =~= e.subrange(1, 3));
            assert(spec_u16_to_le_bytes(p2) =~= e.subrange(1, 3));
        },
        (ClientMsg::Accept { connection_id: i1 }, ClientMsg::Accept { connection_id: i2 }) => {
            assert(spec_u128_to_le_bytes(i1) =~= e.subrange(1, 17));
            assert(spec_u128_to_le_bytes(i2) =~= e.subrange(1, 17));
        },
        (ClientMsg::Authenticate { tag: t1 }, ClientMsg::Authenticate { tag: t2 }) => {
            assert(t1 =~= e.subrange(1, e.len() as int));
            assert(t2 =~= e.subrange(1, e.len() as int));
        },
        _ => {
            assert(client_tag_byte(m1) == spec_encode_client(m1)[0]);
            assert(client_tag_byte(m2) == spec_encode_client(m2)[0]);
        },
    }
}

/// The tag byte that opens each client message's payload.
pub open spec fn client_tag_byte(m: ClientMsg) -> u8 {
    match m {
        ClientMsg::Hello { .. } => 1u8,
        ClientMsg::Accept { .. } => 2u8,
        ClientMsg::Authenticate { .. } => 3u8,
    }
}

/// The tag byte that opens each relay message's payload.
pub open spec fn server_tag_byte(m: ServerMsg) -> u8 {
    match m {
        ServerMsg::Hello { .. } => 1u8,
        ServerMsg::Challenge { .. } => 2u8,
        ServerMsg::Heartbeat => 3u8,
        ServerMsg::Connection { .. } => 4u8,
        ServerMsg::Error { .. } => 5u8,
    }
}

/// The relay encoding is injective as well.
pub proof fn lemma_encode_server_injective(m1: ServerMsg, m2: ServerMsg)
    requires
        m1.wf(),
        m2.wf(),
        spec_encode_server(m1) == spec_encode_server(m2),
    ensures
        m1 == m2,
{
    lemma_auto_spec_u16_to_from_le_bytes();
    lemma_auto_spec_u128_to_from_le_bytes();
    let e = spec_encode_server(m1);
    match (m1, m2) {
        (ServerMsg::Hello { assigned_port: p1 }, ServerMsg::Hello { assigned_port: p2 }) => {
            assert(spec_u16_to_le_bytes(p1) =~= e.subrange(1, 3));
            assert(spec_u16_to_le_bytes(p2) =~= e.subrange(1, 3));
        },
        (ServerMsg::Challenge { nonce: n1 }, ServerMsg::Challenge { nonce: n2 }) => {
            assert(spec_u128_to_le_bytes(n1) =~= e.subrange(1, 17));
            assert(spec_u128_to_le_bytes(n2) =~= e.subrange(1, 17));
        },
        (ServerMsg::Heartbeat, ServerMsg::Heartbeat) => {
        },
        (ServerMsg::Connection { connection_id: i1 }, ServerMsg::Connection {
            connection_id: i2,
        }) => {
            assert(spec_u128_to_le_bytes(i1) =~= e.subrange(1, 17));
            assert(spec_u128_to_le_bytes(i2) =~= e.subrange(1, 17));
        },
        (ServerMsg::Error { message: t1 }, ServerMsg::Error { message: t2 }) => {
            assert(t1 =~= e.subrange(1, e.len() as int));
            assert(t2 =~= e.subrange(1, e.len() as int));
        },
        _ => {
            assert(server_tag_byte(m1) == spec_encode_server(m1)[0]);
            assert(server_tag_byte(m2) == spec_encode_server(m2)[0]);
        },
    }
}

} // verus!
