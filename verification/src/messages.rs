//! Messages exchanged between the management gateway and a service
//! processor (SP): requests from the gateway, responses and SP-initiated
//! traffic such as serial-console output, and the ignition state and
//! commands they carry.

use vstd::prelude::*;

verus! {

/// The current version of the message protocol.
pub const VERSION_V1: u32 = 1;

/// Messages from a gateway to an SP.
#[derive(Debug, Clone, Copy)]
pub struct Request {
    pub version: u32,
    pub request_id: u32,
    pub kind: RequestKind,
}

#[derive(Debug, Clone, Copy)]
pub enum RequestKind {
    Ping,
    IgnitionState { target: u8 },
    IgnitionCommand { target: u8, command: IgnitionCommand },
}

#[derive(Debug, Clone, Copy)]
pub enum ResponseKind {
    Pong,
    IgnitionState(IgnitionState),
    IgnitionCommandAck,
    Error(ResponseError),
}

#[derive(Debug, Clone, Copy)]
pub enum ResponseError {
    /// The request is not supported by the receiving SP; e.g., asking an SP
    /// without an attached ignition controller for ignition state.
    RequestUnsupported,
}

/// Messages from an SP to a gateway: responses to a [`Request`] as well as
/// SP-initiated messages like serial-console output.
#[derive(Debug, Clone, Copy)]
pub struct SpMessage {
    pub version: u32,
    pub kind: SpMessageKind,
}

#[derive(Debug, Clone, Copy)]
pub enum SpMessageKind {
    /// Response to a [`Request`] from the gateway.
    Response { request_id: u32, kind: ResponseKind },
    /// Data traveling from an SP-attached component on its serial console.
    SerialConsole(SerialConsole),
}

/// The ignition status bits of one target.
pub const IGNITION_POWER: u8 = 0x01;

pub const IGNITION_CTRL_DETECT_0: u8 = 0x02;

pub const IGNITION_CTRL_DETECT_1: u8 = 0x04;

/// The ignition fault signals.
pub const IGNITION_FLT_A3: u8 = 0x10;

pub const IGNITION_FLT_A2: u8 = 0x20;

pub const IGNITION_FLT_ROT: u8 = 0x40;

pub const IGNITION_FLT_SP: u8 = 0x80;

/// A set of ignition status bits.
#[derive(Debug, Clone, Copy, PartialEq, Eq, Structural)]
pub struct IgnitionFlags {
    pub bits: u8,
}

impl IgnitionFlags {
    /// No bit set.
    pub fn empty() -> (r: IgnitionFlags)
        ensures
            r.bits == 0,
    {
        IgnitionFlags { bits: 0 }
    }

    /// Every bit of `mask` is set.
    pub fn contains(&self, mask: u8) -> (r: bool)
        ensures
            r == (self.bits & mask == mask),
    {
        self.bits & mask == mask
    }

    /// Sets every bit of `mask`.
    pub fn insert(&mut self, mask: u8)
        ensures
            final(self).bits == (old(self).bits | mask),
    {
        self.bits = self.bits | mask;
    }

    /// Clears every bit of `mask`.
    pub fn remove(&mut self, mask: u8)
        ensures
            final(self).bits == (old(self).bits & !mask),
    {
        self.bits = self.bits & !mask;
    }
}

#[derive(Debug, Clone, Copy)]
pub struct IgnitionState {
    pub id: u16,
    pub flags: IgnitionFlags,
}

impl IgnitionState {
    /// Whether the target reports power.
    pub fn powered(&self) -> (r: bool)
        ensures
            r == (self.flags.bits & IGNITION_POWER == IGNITION_POWER),
    {
        self.flags.contains(IGNITION_POWER)
    }
}

#[derive(Debug, Clone, Copy)]
pub enum IgnitionCommand {
    PowerOn,
    PowerOff,
}

/// Identifier for a single component managed by an SP: up to 16 bytes of
/// human-readable data.
#[derive(Debug, Clone, Copy)]
pub struct SpComponent {
    pub id: [u8; 16],
}

/// The number of bytes of console data one packet can carry.
pub const MAX_DATA_PER_PACKET: usize = 32;

/// A chunk of serial-console data from an SP-attached component. `offset`
/// places the chunk relative to all console output seen since the SP
/// booted, so the gateway can spot missed data and reorder packets.
#[derive(Debug, Clone, Copy)]
pub struct SerialConsole {
    /// Source component of this serial-console data.
    pub component: SpComponent,
    /// Offset of this chunk relative to all console output so far.
    pub offset: u64,
    /// Number of bytes of `data` that carry console output.
    pub len: u8,
    pub data: [u8; 32],
}

impl SerialConsole {
    /// The declared length fits in the data buffer.
    pub open spec fn wf(&self) -> bool {
        self.len <= 32
    }

    /// A console chunk holding the given bytes, padded with zeros.
    pub fn new(component: SpComponent, offset: u64, bytes: &[u8]) -> (r: Option<SerialConsole>)
        ensures
            match r {
                Some(c) => bytes@.len() <= 32 && c.wf() && c.len == bytes@.len() && c.offset
                    == offset && (forall|i: int| 0 <= i < bytes@.len() ==> c.data@[i] == bytes@[i])
                    && (forall|i: int| bytes@.len() <= i < 32 ==> c.data@[i] == 0),
                None => bytes@.len() > 32,
            },
    {
        if bytes.len() > 32 {
            return None;
        }
        let mut data: [u8; 32] = [0; 32];
        let mut i: usize = 0;
        while i < bytes.len()
            invariant
                i <= bytes.len(),
                bytes.len() <= 32,
                forall|j: int| 0 <= j < i ==> data@[j] == bytes@[j],
                forall|j: int| i <= j < 32 ==> data@[j] == 0,
            decreases bytes.len() - i,
        {
            data[i] = bytes[i];
            i += 1;
        }
        Some(SerialConsole { component, offset, len: bytes.len() as u8, data })
    }
}

} // verus!
