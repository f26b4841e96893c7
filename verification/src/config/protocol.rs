//! How the protocol is run.
use vstd::prelude::*;

verus! {

/// The feature bit of text messages.
pub const MESSAGE_SUPPORT: u32 = 1;

/// The optional features that a machine offers, one bit each.
#[derive(Clone, Copy, Debug, PartialEq, Eq, Structural)]
pub struct ProtocolFeatures {
    pub bits: u32,
}

impl ProtocolFeatures {
    /// The features as a number.
    pub fn bits(&self) -> (r: u32)
        ensures
            r == self.bits,
    {
        self.bits
    }

    /// Whether every feature of `other` is among these.
    pub open spec fn has(self, other: u32) -> bool {
        self.bits & other == other
    }

    /// Whether every feature of `other` is among these.
    pub fn contains(&self, other: u32) -> (r: bool)
        ensures
            r == self.has(other),
    {
        self.bits & other == other
    }
}

/// Features and timing of the protocol. All times are in milliseconds.
#[derive(Clone, Copy, Debug, PartialEq, Eq, Structural)]
pub struct ProtocolConfig {
    pub features: ProtocolFeatures,
    /// How long to wait before another attempt to connect
    pub reconnect_interval: u64,
    /// How long to wait between two pings
    pub ping_interval: u64,
    /// How long an answer to a ping may take
    pub ping_timeout: u64,
    /// How long it may take to open a connection
    pub connect_timeout: u64,
}

/// How the protocol is run unless something else is set.
pub open spec fn default_protocol_config() -> ProtocolConfig {
    ProtocolConfig {
        features: ProtocolFeatures { bits: MESSAGE_SUPPORT },
        reconnect_interval: 30_000,
        ping_interval: 10_000,
        ping_timeout: 5_000,
        connect_timeout: 5_000,
    }
}

impl Default for ProtocolConfig {
    fn default() -> (r: Self)
        ensures
            r == default_protocol_config(),
    {
        ProtocolConfig {
            features: ProtocolFeatures { bits: MESSAGE_SUPPORT },
            reconnect_interval: 30_000,
            ping_interval: 10_000,
            ping_timeout: 5_000,
            connect_timeout: 5_000,
        }
    }
}

/// Features are among others exactly where they add nothing to them.
pub proof fn features_are_had_where_they_add_nothing(features: ProtocolFeatures, other: u32)
    ensures
        features.has(other) <==> features.bits | other == features.bits,
{
    let bits = features.bits;
    assert((bits & other == other) == (bits | other == bits)) by (bit_vector);
}

} // verus!
