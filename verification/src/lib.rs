//! A minimal responder for the Minecraft "Server List Ping" handshake.
//!
//! The library covers the wire-protocol core: the variable-length
//! integer/string codec, the handshake packet decoder, the legacy-ping
//! detector, and the response selection and framing logic. All of it is
//! pure: the surrounding program does the socket work and feeds bytes in.

pub mod handshake;
pub mod legacy;
pub mod var_int;

use vstd::prelude::*;

verus! {

use vstd::utf8::encode_utf8;

/// The largest UTF-8 payload the packet framing accepts: the body around
/// it (packet id and length prefix, at most ten bytes) must still fit the
/// wire format's signed 32-bit length prefix.
pub const MAX_PAYLOAD_BYTES: usize = 0x7FFF_FFF5;

/// The response payloads, composed once at startup and shared read-only
/// across connections: four modern JSON strings selected by next-state and
/// protocol version, and the three plain strings the legacy probes use.
#[derive(Debug, Clone)]
pub struct ComposedConfigs {
    /// Status payload for clients on pre-component protocol versions.
    pub status: String,
    /// Status payload carrying a rich component, for newer clients.
    pub status_component: String,
    /// Disconnect payload for clients on pre-component protocol versions.
    pub disconnect: String,
    /// Disconnect payload carrying a rich component, for newer clients.
    pub disconnect_component: String,
    /// MOTD text for the legacy kick response.
    pub legacy_motd: String,
    /// Version display text for the legacy kick response.
    pub legacy_version_name: String,
    /// MOTD text with the color codes stripped, for the oldest probes.
    pub legacy_motd_colorless: String,
}

impl ComposedConfigs {
    /// Every selectable payload's UTF-8 form leaves room for the packet
    /// framing within the signed 32-bit length prefix.
    pub open spec fn wf(&self) -> bool {
        &&& encode_utf8(self.status@).len() <= MAX_PAYLOAD_BYTES
        &&& encode_utf8(self.status_component@).len() <= MAX_PAYLOAD_BYTES
        &&& encode_utf8(self.disconnect@).len() <= MAX_PAYLOAD_BYTES
        &&& encode_utf8(self.disconnect_component@).len() <= MAX_PAYLOAD_BYTES
    }

    /// Runtime check of `wf`, for callers that receive the payloads from
    /// configuration and cannot know their sizes beforehand.
    pub fn check_wf(&self) -> (r: bool)
        ensures
            r == self.wf(),
    {
        self.status.as_str().as_bytes().len() <= MAX_PAYLOAD_BYTES
            && self.status_component.as_str().as_bytes().len() <= MAX_PAYLOAD_BYTES
            && self.disconnect.as_str().as_bytes().len() <= MAX_PAYLOAD_BYTES
            && self.disconnect_component.as_str().as_bytes().len() <= MAX_PAYLOAD_BYTES
    }
}

} // verus!
