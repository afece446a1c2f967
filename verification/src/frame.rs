use vstd::prelude::*;

verus! {

/// A CAN identifier: 11-bit standard or 29-bit extended.
#[derive(Clone, Copy, PartialEq, Eq, Structural, Debug, Hash)]
pub enum Id {
    Standard(u16),
    Extended(u32),
}

impl Id {
    /// Valid identifiers: 11 bits for standard, 29 bits for extended.
    pub open spec fn wf(self) -> bool {
        match self {
            Id::Standard(v) => v <= 0x7FF,
            Id::Extended(v) => v <= 0x1FFF_FFFF,
        }
    }

    pub open spec fn spec_raw_can_id(self) -> u32 {
        match self {
            Id::Standard(v) => v as u32,
            Id::Extended(v) => v,
        }
    }

    pub open spec fn spec_is_extended(self) -> bool {
        matches!(self, Id::Extended(_))
    }

    /// The numeric identifier. Does not contain the extended bit for
    /// extended identifiers.
    pub fn raw_can_id(&self) -> (r: u32)
        ensures
            r == self.spec_raw_can_id(),
    {
        match self {
            Id::Standard(v) => *v as u32,
            Id::Extended(v) => *v,
        }
    }

    pub fn is_extended(&self) -> (r: bool)
        ensures
            r == self.spec_is_extended(),
    {
        matches!(self, Id::Extended(_))
    }
}

/// The capture time of a frame: seconds and nanoseconds, both as given by
/// the log line.
#[derive(Clone, Copy, PartialEq, Eq, Structural, Debug)]
pub struct Timestamp {
    pub seconds: i64,
    pub nanoseconds: i64,
}

/// Mathematical model of a raw CAN frame.
pub ghost struct FrameView {
    pub id: Id,
    pub remote: bool,
    pub error: bool,
    pub fd: bool,
    pub brs: bool,
    pub esi: bool,
    pub dlc: int,
    pub data: Seq<u8>,
}

impl FrameView {
    /// Well-formed frames: bounded identifier, payload no longer than 64
    /// bytes (8 for classic frames), remote frames carry no payload, and
    /// the data-length code agrees with the payload for data frames.
    pub open spec fn wf(self) -> bool {
        &&& self.id.wf()
        &&& self.data.len() <= 64
        &&& !self.fd ==> self.data.len() <= 8
        &&& self.remote ==> self.data.len() == 0 && self.dlc <= 8 && !self.fd
        &&& !self.remote && !self.fd ==> self.dlc == self.data.len()
        &&& 0 <= self.dlc <= 15
    }
}

/// A raw CAN frame: identifier, flags, data-length code and payload bytes.
/// Immutable once produced.
pub struct RawFrame {
    pub id: Id,
    pub remote: bool,
    pub error: bool,
    pub fd: bool,
    pub brs: bool,
    pub esi: bool,
    pub dlc: usize,
    pub data: Vec<u8>,
}

impl View for RawFrame {
    type V = FrameView;

    open spec fn view(&self) -> FrameView {
        FrameView {
            id: self.id,
            remote: self.remote,
            error: self.error,
            fd: self.fd,
            brs: self.brs,
            esi: self.esi,
            dlc: self.dlc as int,
            data: self.data@,
        }
    }
}

} // verus!
