//! Core engine of a TCP tunnelling relay: wire protocol, challenge-response
//! authentication, port allocation, pending-connection registry, and the
//! relay- and client-side control state machines.
//!
//! The library is pure logic over plain values: the surrounding binary owns
//! the sockets and timers and feeds decoded events in, performing the actions
//! the state machines hand back.

use vstd::prelude::*;

pub mod auth;
pub mod client;
pub mod forward;
pub mod ports;
pub mod registry;
pub mod relay;
pub mod wire;

verus! {

/// The error taxonomy of the tunnel engine. Each variant is fatal to exactly
/// one unit: a configuration to the whole process, a protocol or
/// authentication error to its session, an allocation failure to the session
/// attempt, a registry miss to one claiming stream, a transport error to
/// whichever unit owns the failed stream.
#[derive(Clone, Copy, Debug, PartialEq, Eq, Structural)]
pub enum TunnelError {
    Configuration,
    Protocol,
    Authentication,
    Allocation,
    RegistryMiss,
    Transport,
}

/// The one-byte code that names each error on the wire.
pub open spec fn spec_error_code(e: TunnelError) -> u8 {
    match e {
        TunnelError::Configuration => 1u8,
        TunnelError::Protocol => 2u8,
        TunnelError::Authentication => 3u8,
        TunnelError::Allocation => 4u8,
        TunnelError::RegistryMiss => 5u8,
        TunnelError::Transport => 6u8,
    }
}

/// The error a received error payload names; anything unrecognized is read as
/// a protocol error.
pub open spec fn spec_decode_error(m: Seq<u8>) -> TunnelError {
    if m.len() == 1 {
        if m[0] == 1 {
            TunnelError::Configuration
        } else if m[0] == 3 {
            TunnelError::Authentication
        } else if m[0] == 4 {
            TunnelError::Allocation
        } else if m[0] == 5 {
            TunnelError::RegistryMiss
        } else if m[0] == 6 {
            TunnelError::Transport
        } else {
            TunnelError::Protocol
        }
    } else {
        TunnelError::Protocol
    }
}

/// Encodes an error as its wire code.
pub fn error_code(e: TunnelError) -> (c: u8)
    ensures
        c == spec_error_code(e),
{
    match e {
        TunnelError::Configuration => 1u8,
        TunnelError::Protocol => 2u8,
        TunnelError::Authentication => 3u8,
        TunnelError::Allocation => 4u8,
        TunnelError::RegistryMiss => 5u8,
        TunnelError::Transport => 6u8,
    }
}

/// Reads an error payload back into the error it names.
pub fn decode_error(m: &[u8]) -> (e: TunnelError)
    ensures
        e == spec_decode_error(m@),
{
    if m.len() == 1 {
        let c = *vstd::slice::slice_index_get(m, 0);
        if c == 1 {
            TunnelError::Configuration
        } else if c == 3 {
            TunnelError::Authentication
        } else if c == 4 {
            TunnelError::Allocation
        } else if c == 5 {
            TunnelError::RegistryMiss
        } else if c == 6 {
            TunnelError::Transport
        } else {
            TunnelError::Protocol
        }
    } else {
        TunnelError::Protocol
    }
}

} // verus!
