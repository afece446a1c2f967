//! The DBC object model, reduced to the plain values the decoder
//! reads, and the identity metadata of a DBC file.
//!
//! The DBC text grammar itself is parsed by an external library; the
//! embedding converts that library's model into this one (IEEE doubles
//! become bit patterns plus integer projections, see `ScaleValue`) and
//! hands it to the signal table builder.

use sha2::Digest;
use vstd::prelude::*;

use crate::value::ScaleValue;

verus! {

#[derive(Clone, Copy, PartialEq, Eq, Structural, Debug)]
pub enum SignalByteOrder {
    LittleEndian,
    BigEndian,
}

/// The signedness a signal declares in its definition line.
#[derive(Clone, Copy, PartialEq, Eq, Structural, Debug)]
pub enum SignalSign {
    Signed,
    Unsigned,
}

/// The resolved value kind of a signal, after extended-type overrides.
#[derive(Clone, Copy, PartialEq, Eq, Structural, Debug)]
pub enum SignalValueType {
    Signed,
    Unsigned,
    F32,
    F64,
}

/// A signal's multiplex role: plain, the multiplexor of its message,
/// multiplexed and gated on the given indicator value, or both at once.
#[derive(Clone, Copy, PartialEq, Eq, Structural, Debug)]
pub enum MultiplexIndicator {
    Plain,
    Multiplexor,
    MultiplexedSignal(u64),
    MultiplexorAndMultiplexedSignal(u64),
}

/// A message identifier as the DBC declares it: 11-bit standard or
/// 29-bit extended, without the extended bit.
#[derive(Clone, Copy, PartialEq, Eq, Structural, Debug, Hash)]
pub enum MessageId {
    Standard(u16),
    Extended(u32),
}

impl MessageId {
    pub open spec fn spec_raw_can_id(self) -> u32 {
        match self {
            MessageId::Standard(v) => v as u32,
            MessageId::Extended(v) => v,
        }
    }

    /// The numeric identifier. Does not contain the extended bit for
    /// extended identifiers.
    pub fn raw_can_id(&self) -> (r: u32)
        ensures
            r == self.spec_raw_can_id(),
    {
        match self {
            MessageId::Standard(v) => *v as u32,
            MessageId::Extended(v) => *v,
        }
    }
}

/// One signal of a message, as the externally parsed DBC describes it.
#[derive(Clone, Debug)]
pub struct SignalDefinition {
    pub name: String,
    pub multiplexer_indicator: MultiplexIndicator,
    pub start_bit: u64,
    pub size: u64,
    pub byte_order: SignalByteOrder,
    pub value_type: SignalSign,
    pub factor: ScaleValue,
    pub offset: ScaleValue,
    pub min: ScaleValue,
    pub max: ScaleValue,
    pub unit: String,
}

/// One message of the DBC: identifier, name, declared byte size,
/// optional transmitting node, and its signals in declaration order.
#[derive(Clone, Debug)]
pub struct MessageDefinition {
    pub id: MessageId,
    pub name: String,
    pub size: u64,
    pub transmitter: Option<String>,
    pub signals: Vec<SignalDefinition>,
}

/// An extended value-type override: the named signal of the named
/// message carries an IEEE float instead of its declared integer kind.
#[derive(Clone, Copy, PartialEq, Eq, Structural, Debug)]
pub enum ExtendedValueType {
    SignedOrUnsignedInteger,
    Float32,
    Float64,
}

#[derive(Clone, Debug)]
pub struct ExtendedValueTypeEntry {
    pub message_id: MessageId,
    pub signal_name: String,
    pub value_type: ExtendedValueType,
}

/// One discrete raw value and its label.
#[derive(Clone, Debug)]
pub struct ValueLabel {
    pub value: i64,
    pub label: String,
}

/// The value descriptions of one signal of one message.
#[derive(Clone, Debug)]
pub struct ValueDescriptionEntry {
    pub message_id: MessageId,
    pub signal_name: String,
    pub labels: Vec<ValueLabel>,
}

/// The externally parsed DBC object model, reduced to plain values.
#[derive(Clone, Debug)]
pub struct DbcModel {
    /// Messages in declaration order.
    pub messages: Vec<MessageDefinition>,
    /// Extended value-type overrides.
    pub extended_value_types: Vec<ExtendedValueTypeEntry>,
    /// Discrete value descriptions, in declaration order.
    pub value_descriptions: Vec<ValueDescriptionEntry>,
    /// Messages that use extended (chained) multiplexing; their
    /// multiplexed signals are never registered, a documented
    /// non-goal.
    pub extended_multiplex_ids: Vec<MessageId>,
    /// The version string of the DBC, empty when none was declared.
    pub version: String,
}

/// The SHA-256 digest of a byte sequence.
pub uninterp spec fn sha256_of(bytes: Seq<u8>) -> Seq<u8>;

/// Relies on sha2::Sha256::digest: the SHA-256 digest of the input,
/// a function of the input bytes alone, 32 bytes long.
#[verifier::external_body]
fn sha256_digest(bytes: &[u8]) -> (r: Vec<u8>)
    ensures
        r@ == sha256_of(bytes@),
        r@.len() == 32,
{
    sha2::Sha256::digest(bytes).to_vec()
}

/// The lower-case hexadecimal digit characters.
pub open spec fn hex_char(d: int) -> char {
    if d == 0 {
        '0'
    } else if d == 1 {
        '1'
    } else if d == 2 {
        '2'
    } else if d == 3 {
        '3'
    } else if d == 4 {
        '4'
    } else if d == 5 {
        '5'
    } else if d == 6 {
        '6'
    } else if d == 7 {
        '7'
    } else if d == 8 {
        '8'
    } else if d == 9 {
        '9'
    } else if d == 10 {
        'a'
    } else if d == 11 {
        'b'
    } else if d == 12 {
        'c'
    } else if d == 13 {
        'd'
    } else if d == 14 {
        'e'
    } else {
        'f'
    }
}

/// Lower-case hexadecimal rendering of a byte sequence, two digits per
/// byte.
pub open spec fn hex_str(bytes: Seq<u8>) -> Seq<char>
    decreases bytes.len(),
{
    if bytes.len() == 0 {
        Seq::empty()
    } else {
        hex_str(bytes.drop_last()).push(hex_char(bytes.last() as int / 16)).push(
            hex_char(bytes.last() as int % 16),
        )
    }
}

fn hex_digit_to_char(d: u8) -> (r: char)
    requires
        d <= 15,
    ensures
        r == hex_char(d as int),
{
    match d {
        0 => '0',
        1 => '1',
        2 => '2',
        3 => '3',
        4 => '4',
        5 => '5',
        6 => '6',
        7 => '7',
        8 => '8',
        9 => '9',
        10 => 'a',
        11 => 'b',
        12 => 'c',
        13 => 'd',
        14 => 'e',
        _ => 'f',
    }
}

/// Renders bytes as lower-case hexadecimal text.
fn to_hex(bytes: &Vec<u8>) -> (r: String)
    ensures
        r@ == hex_str(bytes@),
{
    let mut out = String::new();
    let mut i: usize = 0;
    proof {
        assert(bytes@.take(0) =~= Seq::<u8>::empty());
    }
    while i < bytes.len()
        invariant
            i <= bytes.len(),
            out@ == hex_str(bytes@.take(i as int)),
        decreases bytes.len() - i,
    {
        let b = bytes[i];
        crate::attrs::push_char(&mut out, hex_digit_to_char(b / 16));
        crate::attrs::push_char(&mut out, hex_digit_to_char(b % 16));
        proof {
            assert(bytes@.take(i + 1).drop_last() =~= bytes@.take(i as int));
            assert(bytes@.take(i + 1).last() == bytes@[i as int]);
        }
        i = i + 1;
    }
    proof {
        assert(bytes@.take(bytes@.len() as int) =~= bytes@);
    }
    out
}

/// A DBC file's identity: its name, the SHA-256 of its raw bytes, and
/// the object model parsed out of it.
pub struct Dbc {
    pub file_name: Option<String>,
    /// Lower-case hexadecimal SHA-256 of the file's bytes.
    pub sha256: String,
    pub model: DbcModel,
}

impl Dbc {
    /// Records a DBC's identity: hashes the file content and keeps the
    /// name and the converted model. Reading the file and parsing the
    /// text are the embedding's work.
    pub fn new(file_name: Option<String>, content: &[u8], model: DbcModel) -> (r: Dbc)
        ensures
            r.file_name == file_name,
            r.sha256@ == hex_str(sha256_of(content@)),
            r.model == model,
    {
        let digest = sha256_digest(content);
        let sha256 = to_hex(&digest);
        Dbc { file_name, sha256, model }
    }
}

} // verus!
