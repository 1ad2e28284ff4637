//! Wire protocol messages between the host and the firmware.
//!
//! On the serial link every message is serialized and framed (COBS, `0x00`
//! delimiter); the framing and serialization live with the I/O code.
use vstd::prelude::*;

use crate::input::{KeyboardSnapshot, TouchFrame};

verus! {

/// Maximum BLE peers (slots) the firmware supports.
pub const MAX_PEERS: usize = 4;
/// Maximum BLE device slots known to the host (one per peer).
pub const MAX_SLOTS: usize = 4;
/// Version of the semantic protocol spoken by this library.
pub const PROTOCOL_VERSION: u16 = 1;

/// Handshake request sent by the host.
#[derive(Clone, Copy, Debug, PartialEq, Eq)]
pub struct Hello {
    /// Protocol version the host speaks.
    pub protocol_version: u16,
}

/// Handshake answer of the firmware.
#[derive(Clone, Copy, Debug, PartialEq, Eq)]
pub struct HelloAck {
    /// Protocol version the firmware speaks.
    pub protocol_version: u16,
    /// Number of peer slots of the firmware.
    pub max_peers: u8,
}

/// One connected BLE peer.
#[derive(Clone, Copy, Debug, PartialEq, Eq)]
pub struct PeerDescriptor {
    /// Slot index of the peer.
    pub slot: u8,
    /// Peer BLE address (little-endian bytes).
    pub addr: [u8; 6],
}

/// All peer slots and the active one.
#[derive(Clone, Copy, Debug, PartialEq, Eq)]
pub struct PeerSnapshot {
    /// One entry per slot; `None` for an empty slot.
    pub peers: [Option<PeerDescriptor>; 4],
    /// The slot receiving input, if any.
    pub active_slot: Option<u8>,
}

/// Errors the firmware reports to the host.
#[derive(Clone, Copy, Debug, PartialEq, Eq)]
pub enum ProtocolError {
    /// The host's protocol version is not the firmware's.
    UnsupportedProtocolVersion { expected: u16, received: u16 },
    /// The host selected a slot that is out of range or empty.
    InvalidPeerSlot(u8),
}

/// Messages from host to firmware.
#[derive(Clone, Copy, Debug, PartialEq, Eq)]
pub enum HostMsg {
    /// Handshake.
    Hello(Hello),
    /// Route input to a peer slot, or to none.
    SelectPeer(Option<u8>),
    /// Full keyboard state for the active peer.
    KeyboardState(KeyboardSnapshot),
    /// Consumer control bitfield for the active peer.
    ConsumerState(u16),
    /// Semantic touch frame for the active peer.
    TouchFrame(TouchFrame),
}

/// Messages from firmware to host.
#[derive(Clone, Copy, Debug, PartialEq, Eq)]
pub enum FirmwareMsg {
    /// Handshake answer.
    HelloAck(HelloAck),
    /// All peer slots, sent after the handshake.
    PeerSnapshot(PeerSnapshot),
    /// A peer connected into a slot.
    PeerConnected(PeerDescriptor),
    /// The peer of a slot disconnected.
    PeerDisconnected { slot: u8 },
    /// The active slot changed.
    ActivePeerChanged(Option<u8>),
    /// Keyboard LED state changed (Caps/Num/Scroll Lock bits).
    LedState(u8),
    /// A host request was refused.
    ProtocolError(ProtocolError),
}

} // verus!
