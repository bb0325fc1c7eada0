//! The handshake packet decoder and the modern response path: parse the
//! packet body into structured fields, select the payload the client's
//! declared next state and protocol version call for, and frame it.

use vstd::prelude::*;

verus! {

use vstd::utf8::encode_utf8;
use vstd::slice::slice_subrange;
use crate::var_int::{VarInt, VarIntDecodeError, VarString, VarStringDecodeError, varint_bytes,
    varint_decode, varstring_bytes, varstring_decode};
use crate::{ComposedConfigs, MAX_PAYLOAD_BYTES};

/// First protocol revision (release 1.16) whose client accepts JSON text
/// components with custom color codes in status and disconnect payloads.
pub const CUSTOM_COLORS_MIN_PROTOCOL: i32 = 735;

/// Whether a client with this protocol version accepts rich component JSON
/// (as opposed to pre-rendered legacy-formatted plain text).
pub fn supports_custom_colors(protocol_version: i32) -> (r: bool)
    ensures
        r == (protocol_version >= CUSTOM_COLORS_MIN_PROTOCOL),
{
    protocol_version >= CUSTOM_COLORS_MIN_PROTOCOL
}

/// The client's declared intent after the handshake: query the server
/// status, or proceed to login.
#[derive(Debug, Clone, Copy, PartialEq, Eq, Structural)]
pub enum HandshakeNextState {
    Status,
    Login,
}

/// Why a handshake packet was rejected: a malformed VarInt field (or a
/// missing port), a malformed hostname string, or a next-state value
/// outside the known set.
#[derive(Debug, Clone, Copy, PartialEq, Eq, Structural)]
pub enum PacketHandleError {
    InvalidVarInt(VarIntDecodeError),
    InvalidVarString(VarStringDecodeError),
    UnknownNextState,
}

/// The checked mapping from the wire value to a next state: only 1 and 2
/// are known.
pub open spec fn next_state_of(value: i32) -> Option<HandshakeNextState> {
    if value == 1 {
        Some(HandshakeNextState::Status)
    } else if value == 2 {
        Some(HandshakeNextState::Login)
    } else {
        None
    }
}

impl HandshakeNextState {
    /// Maps the decoded wire value to a next state, rejecting any value
    /// outside the known set rather than reinterpreting it.
    pub fn from_code(value: i32) -> (r: Result<HandshakeNextState, PacketHandleError>)
        ensures
            match r {
                Ok(n) => next_state_of(value) == Some(n),
                Err(e) => next_state_of(value) is None && e == PacketHandleError::UnknownNextState,
            },
    {
        if value == 1 {
            Ok(HandshakeNextState::Status)
        } else if value == 2 {
            Ok(HandshakeNextState::Login)
        } else {
            Err(PacketHandleError::UnknownNextState)
        }
    }
}

/// Any declared next state outside the known set maps to no state at all,
/// so a handshake carrying one is rejected with `UnknownNextState` rather
/// than reinterpreted.
pub proof fn lemma_unknown_next_state(value: i32)
    requires
        value != 1,
        value != 2,
    ensures
        next_state_of(value) is None,
{
}

/// The decoded fields of a handshake packet body.
#[derive(Debug)]
pub struct HandshakeData {
    pub packet_id: i32,
    pub protocol_version: i32,
    pub hostname: String,
    pub port: u16,
    pub next_state: HandshakeNextState,
}

/// The decoded fields at the specification level, the hostname as its
/// character sequence.
pub struct HandshakeFields {
    pub packet_id: i32,
    pub protocol_version: i32,
    pub hostname: Seq<char>,
    pub port: u16,
    pub next_state: HandshakeNextState,
}

/// What decoding a handshake packet body yields: in order, the packet id
/// (VarInt), the protocol version (VarInt), the hostname (VarString), the
/// port (two raw bytes, big-endian), and the next state (VarInt, checked).
/// The first field that fails rejects the whole packet.
pub open spec fn handshake_decode(bytes: Seq<u8>) -> Result<HandshakeFields, PacketHandleError> {
    match varint_decode(bytes) {
        Err(e) => Err(PacketHandleError::InvalidVarInt(e)),
        Ok((packet_id, u1)) => match varint_decode(bytes.skip(u1)) {
            Err(e) => Err(PacketHandleError::InvalidVarInt(e)),
            Ok((protocol_version, u2)) => match varstring_decode(bytes.skip(u1 + u2)) {
                Err(e) => Err(PacketHandleError::InvalidVarString(e)),
                Ok((hostname, u3)) => {
                    let rest = bytes.skip(u1 + u2 + u3);
                    if rest.len() < 2 {
                        Err(PacketHandleError::InvalidVarInt(VarIntDecodeError::Incomplete))
                    } else {
                        let port = ((rest[0] as u16) << 8u16) | (rest[1] as u16);
                        match varint_decode(rest.skip(2)) {
                            Err(e) => Err(PacketHandleError::InvalidVarInt(e)),
                            Ok((ns, _u4)) => match next_state_of(ns) {
                                None => Err(PacketHandleError::UnknownNextState),
                                Some(next_state) => Ok(HandshakeFields {
                                    packet_id,
                                    protocol_version,
                                    hostname,
                                    port,
                                    next_state,
                                }),
                            },
                        }
                    }
                },
            },
        },
    }
}

/// Decodes a handshake packet body, already isolated by the outer length
/// frame.
pub fn decode_handshake(bytes: &[u8]) -> (r: Result<HandshakeData, PacketHandleError>)
    ensures
        match r {
            Ok(h) => handshake_decode(bytes@) matches Ok(f) && h.packet_id == f.packet_id
                && h.protocol_version == f.protocol_version && h.hostname@ == f.hostname
                && h.port == f.port && h.next_state == f.next_state,
            Err(e) => handshake_decode(bytes@) == Err::<HandshakeFields, _>(e),
        },
{
    let mut cur: &[u8] = bytes;
    let packet_id = match VarInt::decode(&mut cur) {
        Ok(v) => v,
        Err(e) => {
            return Err(PacketHandleError::InvalidVarInt(e));
        },
    };
    let ghost u1: int = bytes@.len() - cur@.len();
    let protocol_version = match VarInt::decode(&mut cur) {
        Ok(v) => v,
        Err(e) => {
            return Err(PacketHandleError::InvalidVarInt(e));
        },
    };
    let ghost u2: int = bytes@.skip(u1).len() - cur@.len();
    proof {
        assert(bytes@.skip(u1).skip(u2) =~= bytes@.skip(u1 + u2));
    }
    let hostname = match VarString::decode(&mut cur) {
        Ok(s) => s,
        Err(e) => {
            return Err(PacketHandleError::InvalidVarString(e));
        },
    };
    let ghost u3: int = bytes@.skip(u1 + u2).len() - cur@.len();
    proof {
        assert(bytes@.skip(u1 + u2).skip(u3) =~= bytes@.skip(u1 + u2 + u3));
    }
    if cur.len() < 2 {
        return Err(PacketHandleError::InvalidVarInt(VarIntDecodeError::Incomplete));
    }
    let b0 = cur[0];
    let b1 = cur[1];
    let port: u16 = ((b0 as u16) << 8u16) | (b1 as u16);
    let tail: &[u8] = slice_subrange(cur, 2, cur.len());
    proof {
        assert(bytes@.skip(u1 + u2 + u3).skip(2) =~= tail@);
    }
    let mut tail_cur: &[u8] = tail;
    let ns = match VarInt::decode(&mut tail_cur) {
        Ok(v) => v,
        Err(e) => {
            return Err(PacketHandleError::InvalidVarInt(e));
        },
    };
    let next_state = match HandshakeNextState::from_code(ns) {
        Ok(n) => n,
        Err(e) => {
            return Err(e);
        },
    };
    Ok(HandshakeData { packet_id, protocol_version, hostname, port, next_state })
}

/// The payload the composer picks: the status or disconnect string, in its
/// rich-component form exactly when the protocol version accepts one.
pub open spec fn spec_selected_payload(
    configs: ComposedConfigs,
    next_state: HandshakeNextState,
    protocol_version: i32,
) -> Seq<char> {
    match next_state {
        HandshakeNextState::Status => if protocol_version >= CUSTOM_COLORS_MIN_PROTOCOL {
            configs.status_component@
        } else {
            configs.status@
        },
        HandshakeNextState::Login => if protocol_version >= CUSTOM_COLORS_MIN_PROTOCOL {
            configs.disconnect_component@
        } else {
            configs.disconnect@
        },
    }
}

/// Selects the response payload for a decoded handshake.
pub fn select_response(
    configs: &ComposedConfigs,
    next_state: HandshakeNextState,
    protocol_version: i32,
) -> (r: String)
    ensures
        r@ == spec_selected_payload(*configs, next_state, protocol_version),
{
    match next_state {
        HandshakeNextState::Status => if supports_custom_colors(protocol_version) {
            configs.status_component.clone()
        } else {
            configs.status.clone()
        },
        HandshakeNextState::Login => if supports_custom_colors(protocol_version) {
            configs.disconnect_component.clone()
        } else {
            configs.disconnect.clone()
        },
    }
}

/// The wire bytes of a framed packet: the body is the packet id as a
/// VarInt followed by the payload as a VarString, and the whole packet is
/// the body's length as a VarInt followed by the body.
pub open spec fn packet_bytes(packet_id: i32, payload: Seq<char>) -> Seq<u8> {
    let body = varint_bytes(packet_id as u32) + varstring_bytes(payload);
    varint_bytes(body.len() as u32) + body
}

/// Frames a response packet around `content`. The status response and the
/// login disconnect share packet id zero; only connection context tells
/// them apart.
pub fn create_packet(packet_id: i32, content: String) -> (r: Result<Vec<u8>, PacketHandleError>)
    requires
        encode_utf8(content@).len() <= MAX_PAYLOAD_BYTES,
    ensures
        r matches Ok(p) && p@ == packet_bytes(packet_id, content@),
{
    let mut inner: Vec<u8> = Vec::new();
    VarInt::encode(packet_id, &mut inner);
    VarString::encode(content.as_str(), &mut inner);
    proof {
        assert(inner@ =~= varint_bytes(packet_id as u32) + varstring_bytes(content@));
    }
    let mut outer: Vec<u8> = Vec::new();
    VarInt::encode(inner.len() as i32, &mut outer);
    outer.extend_from_slice(inner.as_slice());
    proof {
        assert(outer@ =~= packet_bytes(packet_id, content@));
    }
    Ok(outer)
}

/// Decodes a handshake packet body and frames the response it calls for:
/// the selected payload behind packet id zero. Any decode failure rejects
/// the connection with no response.
pub fn respond_modern(body: &[u8], configs: &ComposedConfigs) -> (r: Result<
    Vec<u8>,
    PacketHandleError,
>)
    requires
        configs.wf(),
    ensures
        match r {
            Ok(p) => handshake_decode(body@) matches Ok(f) && p@ == packet_bytes(
                0,
                spec_selected_payload(*configs, f.next_state, f.protocol_version),
            ),
            Err(e) => handshake_decode(body@) == Err::<HandshakeFields, _>(e),
        },
{
    let data = match decode_handshake(body) {
        Ok(h) => h,
        Err(e) => {
            return Err(e);
        },
    };
    let payload = select_response(configs, data.next_state, data.protocol_version);
    create_packet(0x00, payload)
}

} // verus!
