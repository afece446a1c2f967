//! Decodes raw CAN bus traffic into structured, named, typed telemetry
//! attributes, driven by a vehicle-network database (DBC) description
//! of messages and signals.
//!
//! The core is verified: a textual wire-format parser that turns one
//! candump log line into a timestamped raw frame ([`candump`]), and a
//! DBC-driven decoder ([`parser`]) that maps a raw frame's bytes into
//! named, scaled, type-correct signal values, with bit-level extraction
//! for both byte orders ([`extract`]), multiplexed-signal resolution,
//! discrete value-description lookup, and overflow-checked numeric
//! scaling ([`value`]). Live device acquisition, the DBC text grammar
//! and the outbound telemetry transport are external collaborators.

pub mod attrs;
pub mod candump;
pub mod convert;
pub mod dbc;
pub mod extract;
pub mod filter;
pub mod frame;
pub mod parser;
pub mod value;

pub use crate::convert::TimelineKey;
pub use crate::dbc::Dbc;
pub use crate::parser::{CanParser, ParsedCanFrame};

use vstd::prelude::*;

verus! {

/// Shared configuration knobs for the decoding pipeline.
#[derive(Debug)]
pub struct CommonConfig {
    /// Should the transmitting DBC node be used as the timeline identity and name?
    /// Defaults to true.
    pub timeline_from_node: Option<bool>,
    /// The default timeline name used when no DBC file is provided, or there are
    /// no transmitting nodes for a given CAN frame in the provided DBC.
    /// Defaults to 'canbus'.
    pub default_timeline: Option<String>,
    /// Use the DBC message name for event naming. Defaults to true.
    /// When no DBC file is provided, or there is no message definition, the CAN
    /// ID will be used.
    pub event_from_message: Option<bool>,
    /// Path of the DBC file to use when parsing the CAN frames.
    pub dbc: Option<String>,
}

pub trait HasCommonConfig {
    fn common_config(&self) -> &CommonConfig;
}

} // verus!
