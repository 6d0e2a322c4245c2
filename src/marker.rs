//! Marker bytes of PackStream, structure signatures, and the nibble
//! operations on them.

use vstd::prelude::*;

verus! {

/// Combines the high nibble of `high` with the low nibble of `low`.
pub fn combine_nibble(high: u8, low: u8) -> (r: u8)
    ensures
        r == (high & 0xF0) | (low & 0x0F),
        r as int == (high as int / 16) * 16 + low as int % 16,
{
    assert(((high & 0xF0) | (low & 0x0F)) as int == (high as int / 16) * 16 + low as int % 16)
        by (bit_vector);
    (high & 0xF0) | (low & 0x0F)
}

/// The byte with its high nibble cleared.
pub fn low_nibble(byte: u8) -> (r: u8)
    ensures
        r == byte & 0x0F,
        r as int == byte as int % 16,
{
    assert((byte & 0x0F) as int == byte as int % 16) by (bit_vector);
    byte & 0x0F
}

/// The byte with its low nibble cleared.
pub fn high_nibble(byte: u8) -> (r: u8)
    ensures
        r == byte & 0xF0,
        r as int == (byte as int / 16) * 16,
{
    assert((byte & 0xF0) as int == (byte as int / 16) * 16) by (bit_vector);
    byte & 0xF0
}

/// The markers of PackStream, one per kind of header byte. A tiny marker
/// stands for the whole group that shares its high nibble.
#[derive(Debug, Clone, Copy, PartialEq, Eq, Structural)]
pub enum MarkerByte {
    PlusTinyInt,
    MinusTinyInt,
    TinyString,
    TinyList,
    TinyMap,
    TinyStruct,
    Null,
    BoolFalse,
    BoolTrue,
    Float64,
    Int8,
    Int16,
    Int32,
    Int64,
    String8,
    String16,
    String32,
    List8,
    List16,
    List32,
    Map8,
    Map16,
    Map32,
    Struct8,
    Struct16,
}

/// The byte of a marker (for a tiny marker, with a zero low nibble).
pub open spec fn marker_value(m: MarkerByte) -> u8 {
    match m {
        MarkerByte::PlusTinyInt => 0x00,
        MarkerByte::MinusTinyInt => 0xF0,
        MarkerByte::TinyString => 0x80,
        MarkerByte::TinyList => 0x90,
        MarkerByte::TinyMap => 0xA0,
        MarkerByte::TinyStruct => 0xB0,
        MarkerByte::Null => 0xC0,
        MarkerByte::BoolFalse => 0xC2,
        MarkerByte::BoolTrue => 0xC3,
        MarkerByte::Float64 => 0xC1,
        MarkerByte::Int8 => 0xC8,
        MarkerByte::Int16 => 0xC9,
        MarkerByte::Int32 => 0xCA,
        MarkerByte::Int64 => 0xCB,
        MarkerByte::String8 => 0xD0,
        MarkerByte::String16 => 0xD1,
        MarkerByte::String32 => 0xD2,
        MarkerByte::List8 => 0xD4,
        MarkerByte::List16 => 0xD5,
        MarkerByte::List32 => 0xD6,
        MarkerByte::Map8 => 0xD8,
        MarkerByte::Map16 => 0xD9,
        MarkerByte::Map32 => 0xDA,
        MarkerByte::Struct8 => 0xDC,
        MarkerByte::Struct16 => 0xDD,
    }
}

/// The marker that a byte starts with, if any: every byte up to `0x7F` is a
/// positive tiny integer, the tiny groups are found by their high nibble, the
/// others by their exact byte.
pub open spec fn marker_of(b: u8) -> Option<MarkerByte> {
    if b <= 0x7F {
        Some(MarkerByte::PlusTinyInt)
    } else if b == 0xC0 {
        Some(MarkerByte::Null)
    } else if b == 0xC1 {
        Some(MarkerByte::Float64)
    } else if b == 0xC2 {
        Some(MarkerByte::BoolFalse)
    } else if b == 0xC3 {
        Some(MarkerByte::BoolTrue)
    } else if b == 0xC8 {
        Some(MarkerByte::Int8)
    } else if b == 0xC9 {
        Some(MarkerByte::Int16)
    } else if b == 0xCA {
        Some(MarkerByte::Int32)
    } else if b == 0xCB {
        Some(MarkerByte::Int64)
    } else if b == 0xD0 {
        Some(MarkerByte::String8)
    } else if b == 0xD1 {
        Some(MarkerByte::String16)
    } else if b == 0xD2 {
        Some(MarkerByte::String32)
    } else if b == 0xD4 {
        Some(MarkerByte::List8)
    } else if b == 0xD5 {
        Some(MarkerByte::List16)
    } else if b == 0xD6 {
        Some(MarkerByte::List32)
    } else if b == 0xD8 {
        Some(MarkerByte::Map8)
    } else if b == 0xD9 {
        Some(MarkerByte::Map16)
    } else if b == 0xDA {
        Some(MarkerByte::Map32)
    } else if b == 0xDC {
        Some(MarkerByte::Struct8)
    } else if b == 0xDD {
        Some(MarkerByte::Struct16)
    } else {
        tiny_marker_of(b)
    }
}

/// The tiny marker whose group a byte belongs to, by its high nibble.
pub open spec fn tiny_marker_of(b: u8) -> Option<MarkerByte> {
    let high = (b as int / 16) * 16;
    if high == 0x80 {
        Some(MarkerByte::TinyString)
    } else if high == 0x90 {
        Some(MarkerByte::TinyList)
    } else if high == 0xA0 {
        Some(MarkerByte::TinyMap)
    } else if high == 0xB0 {
        Some(MarkerByte::TinyStruct)
    } else if high == 0xF0 {
        Some(MarkerByte::MinusTinyInt)
    } else {
        None
    }
}

/// A byte that is no marker.
#[derive(Debug, Clone, Copy, PartialEq, Eq, Structural)]
pub struct UnknownMarkerError {
    pub read_byte: u8,
}

/// Why a marker could not be read.
#[derive(Debug, Clone, Copy, PartialEq, Eq, Structural)]
pub enum BoltReadMarkerError {
    /// The byte is no marker.
    MarkerParseError(UnknownMarkerError),
    /// There was no byte to read.
    TruncatedInput,
    /// A marker other than the expected one (expected, found).
    UnexpectedMarker(MarkerByte, MarkerByte),
}

impl MarkerByte {
    /// The byte of the marker.
    pub fn to_byte(self) -> (r: u8)
        ensures
            r == marker_value(self),
    {
        match self {
            MarkerByte::PlusTinyInt => 0x00,
            MarkerByte::MinusTinyInt => 0xF0,
            MarkerByte::TinyString => 0x80,
            MarkerByte::TinyList => 0x90,
            MarkerByte::TinyMap => 0xA0,
            MarkerByte::TinyStruct => 0xB0,
            MarkerByte::Null => 0xC0,
            MarkerByte::BoolFalse => 0xC2,
            MarkerByte::BoolTrue => 0xC3,
            MarkerByte::Float64 => 0xC1,
            MarkerByte::Int8 => 0xC8,
            MarkerByte::Int16 => 0xC9,
            MarkerByte::Int32 => 0xCA,
            MarkerByte::Int64 => 0xCB,
            MarkerByte::String8 => 0xD0,
            MarkerByte::String16 => 0xD1,
            MarkerByte::String32 => 0xD2,
            MarkerByte::List8 => 0xD4,
            MarkerByte::List16 => 0xD5,
            MarkerByte::List32 => 0xD6,
            MarkerByte::Map8 => 0xD8,
            MarkerByte::Map16 => 0xD9,
            MarkerByte::Map32 => 0xDA,
            MarkerByte::Struct8 => 0xDC,
            MarkerByte::Struct16 => 0xDD,
        }
    }

    /// The marker that a byte starts with.
    pub fn try_from_byte(input: u8) -> (r: Result<MarkerByte, UnknownMarkerError>)
        ensures
            match r {
                Ok(m) => marker_of(input) == Some(m),
                Err(e) => marker_of(input) is None && e.read_byte == input,
            },
    {
        if input <= 0x7F {
            return Ok(MarkerByte::PlusTinyInt);
        }
        match input {
            0xC0 => Ok(MarkerByte::Null),
            0xC2 => Ok(MarkerByte::BoolFalse),
            0xC3 => Ok(MarkerByte::BoolTrue),
            0xC1 => Ok(MarkerByte::Float64),
            0xC8 => Ok(MarkerByte::Int8),
            0xC9 => Ok(MarkerByte::Int16),
            0xCA => Ok(MarkerByte::Int32),
            0xCB => Ok(MarkerByte::Int64),
            0xD0 => Ok(MarkerByte::String8),
            0xD1 => Ok(MarkerByte::String16),
            0xD2 => Ok(MarkerByte::String32),
            0xD4 => Ok(MarkerByte::List8),
            0xD5 => Ok(MarkerByte::List16),
            0xD6 => Ok(MarkerByte::List32),
            0xD8 => Ok(MarkerByte::Map8),
            0xD9 => Ok(MarkerByte::Map16),
            0xDA => Ok(MarkerByte::Map32),
            0xDC => Ok(MarkerByte::Struct8),
            0xDD => Ok(MarkerByte::Struct16),
            _ => from_high_nibble(input),
        }
    }
}

/// The tiny marker of a byte, found by its high nibble.
pub fn from_high_nibble(input: u8) -> (r: Result<MarkerByte, UnknownMarkerError>)
    ensures
        match r {
            Ok(m) => tiny_marker_of(input) == Some(m),
            Err(e) => tiny_marker_of(input) is None && e.read_byte == input,
        },
{
    let high = high_nibble(input);
    if high == 0x90 {
        Ok(MarkerByte::TinyList)
    } else if high == 0xA0 {
        Ok(MarkerByte::TinyMap)
    } else if high == 0x80 {
        Ok(MarkerByte::TinyString)
    } else if high == 0xB0 {
        Ok(MarkerByte::TinyStruct)
    } else if high == 0xF0 {
        Ok(MarkerByte::MinusTinyInt)
    } else {
        Err(UnknownMarkerError { read_byte: input })
    }
}

/// A header byte that is a marker and a size at once: the marker in the high
/// nibble, the size in the low nibble.
#[derive(Debug, Clone, Copy, PartialEq, Eq, Structural)]
pub struct TinySizeMarker {
    pub marker: MarkerByte,
    pub tiny_size: u8,
}

impl TinySizeMarker {
    pub fn new(marker_byte: MarkerByte, tiny_size: u8) -> (r: TinySizeMarker)
        ensures
            r.marker == marker_byte,
            r.tiny_size == tiny_size,
    {
        TinySizeMarker { marker: marker_byte, tiny_size }
    }

    /// The header byte: the high nibble of the marker, the low nibble of the size.
    pub fn to_byte(self) -> (r: u8)
        ensures
            r as int == (marker_value(self.marker) as int / 16) * 16 + self.tiny_size as int % 16,
    {
        combine_nibble(self.marker.to_byte(), self.tiny_size)
    }

    /// The marker and the size that a header byte holds.
    pub fn try_from_byte(input: u8) -> (r: Result<TinySizeMarker, UnknownMarkerError>)
        ensures
            match r {
                Ok(t) => marker_of(input) == Some(t.marker) && t.tiny_size as int == input as int
                    % 16,
                Err(e) => marker_of(input) is None && e.read_byte == input,
            },
    {
        let m = MarkerByte::try_from_byte(input)?;
        Ok(TinySizeMarker { marker: m, tiny_size: low_nibble(input) })
    }
}

/// Markers that can tell whether they are of a given kind.
pub trait MarkerType {
    spec fn spec_validates(&self, m: MarkerByte) -> bool;

    /// Whether the marker is of the kind `m`.
    fn validates(&self, m: MarkerByte) -> (r: bool)
        ensures
            r == self.spec_validates(m),
    ;
}

impl MarkerType for MarkerByte {
    open spec fn spec_validates(&self, m: MarkerByte) -> bool {
        *self == m
    }

    fn validates(&self, m: MarkerByte) -> (r: bool) {
        *self == m
    }
}

impl MarkerType for TinySizeMarker {
    open spec fn spec_validates(&self, m: MarkerByte) -> bool {
        self.marker == m
    }

    fn validates(&self, m: MarkerByte) -> (r: bool) {
        self.marker == m
    }
}

/// Reads the header byte at `pos` and checks that it has the expected marker.
pub fn read_expected_marker(expected: MarkerByte, b: &[u8], pos: usize) -> (r: Result<
    TinySizeMarker,
    BoltReadMarkerError,
>)
    ensures
        pos >= b@.len() ==> r == Err::<TinySizeMarker, _>(BoltReadMarkerError::TruncatedInput),
        pos < b@.len() ==> match r {
            Ok(t) => marker_of(b@[pos as int]) == Some(expected) && t.marker == expected
                && t.tiny_size as int == b@[pos as int] as int % 16,
            Err(BoltReadMarkerError::MarkerParseError(e)) => marker_of(b@[pos as int]) is None
                && e.read_byte == b@[pos as int],
            Err(BoltReadMarkerError::UnexpectedMarker(exp, found)) => exp == expected && marker_of(
                b@[pos as int],
            ) == Some(found) && found != expected,
            Err(BoltReadMarkerError::TruncatedInput) => false,
        },
{
    if pos >= b.len() {
        return Err(BoltReadMarkerError::TruncatedInput);
    }
    match TinySizeMarker::try_from_byte(b[pos]) {
        Err(e) => Err(BoltReadMarkerError::MarkerParseError(e)),
        Ok(t) => if t.validates(expected) {
            Ok(t)
        } else {
            Err(BoltReadMarkerError::UnexpectedMarker(expected, t.marker))
        },
    }
}

/// The signatures (tags) of the structures of the protocol.
#[derive(Debug, Clone, Copy, PartialEq, Eq, Structural)]
pub enum Signature {
    Node,
    Relationship,
    Path,
    UnboundRelationship,
    Hello,
    Goodbye,
    Reset,
    Run,
    Begin,
    Commit,
    Rollback,
    Discard,
    Pull,
    Success,
    Record,
    Ignored,
    Failure,
}

/// The tag byte of a signature.
pub open spec fn signature_value(s: Signature) -> u8 {
    match s {
        Signature::Node => 0x4E,
        Signature::Relationship => 0x52,
        Signature::Path => 0x50,
        Signature::UnboundRelationship => 0x72,
        Signature::Hello => 0x01,
        Signature::Goodbye => 0x02,
        Signature::Reset => 0x0F,
        Signature::Run => 0x10,
        Signature::Begin => 0x11,
        Signature::Commit => 0x12,
        Signature::Rollback => 0x13,
        Signature::Discard => 0x2F,
        Signature::Pull => 0x3F,
        Signature::Success => 0x70,
        Signature::Record => 0x71,
        Signature::Ignored => 0x7E,
        Signature::Failure => 0x7F,
    }
}

/// A byte that is no known signature.
#[derive(Debug, Clone, Copy, PartialEq, Eq, Structural)]
pub struct UnknownSignatureError {
    pub read_byte: u8,
}

/// Why a signature could not be read.
#[derive(Debug, Clone, Copy, PartialEq, Eq, Structural)]
pub enum BoltReadSignatureError {
    /// The byte is no known signature.
    SignatureParseError(UnknownSignatureError),
    /// A signature other than the expected one was found.
    UnexpectedSignatureError(Signature),
    /// There was no byte to read.
    TruncatedInput,
}

impl Signature {
    /// The tag byte of the signature.
    pub fn to_byte(self) -> (r: u8)
        ensures
            r == signature_value(self),
    {
        match self {
            Signature::Node => 0x4E,
            Signature::Relationship => 0x52,
            Signature::Path => 0x50,
            Signature::UnboundRelationship => 0x72,
            Signature::Hello => 0x01,
            Signature::Goodbye => 0x02,
            Signature::Reset => 0x0F,
            Signature::Run => 0x10,
            Signature::Begin => 0x11,
            Signature::Commit => 0x12,
            Signature::Rollback => 0x13,
            Signature::Discard => 0x2F,
            Signature::Pull => 0x3F,
            Signature::Success => 0x70,
            Signature::Record => 0x71,
            Signature::Ignored => 0x7E,
            Signature::Failure => 0x7F,
        }
    }

    /// The signature whose tag byte is `input`.
    pub fn try_from_byte(input: u8) -> (r: Result<Signature, UnknownSignatureError>)
        ensures
            match r {
                Ok(s) => signature_value(s) == input,
                Err(e) => (forall|s: Signature| signature_value(s) != input) && e.read_byte
                    == input,
            },
    {
        match input {
            0x4E => Ok(Signature::Node),
            0x52 => Ok(Signature::Relationship),
            0x50 => Ok(Signature::Path),
            0x72 => Ok(Signature::UnboundRelationship),
            0x01 => Ok(Signature::Hello),
            0x02 => Ok(Signature::Goodbye),
            0x0F => Ok(Signature::Reset),
            0x10 => Ok(Signature::Run),
            0x11 => Ok(Signature::Begin),
            0x12 => Ok(Signature::Commit),
            0x13 => Ok(Signature::Rollback),
            0x2F => Ok(Signature::Discard),
            0x3F => Ok(Signature::Pull),
            0x70 => Ok(Signature::Success),
            0x71 => Ok(Signature::Record),
            0x7E => Ok(Signature::Ignored),
            0x7F => Ok(Signature::Failure),
            _ => Err(UnknownSignatureError { read_byte: input }),
        }
    }

    /// Whether `sig` is this signature.
    pub fn validates(&self, sig: Signature) -> (r: bool)
        ensures
            r == (*self == sig),
    {
        *self == sig
    }

    /// Reads the tag byte at `pos` and checks that it is this signature.
    pub fn read_expected(self, b: &[u8], pos: usize) -> (r: Result<Signature, BoltReadSignatureError>)
        ensures
            pos >= b@.len() ==> r == Err::<Signature, _>(BoltReadSignatureError::TruncatedInput),
            pos < b@.len() ==> match r {
                Ok(s) => s == self && signature_value(self) == b@[pos as int],
                Err(BoltReadSignatureError::SignatureParseError(e)) => (forall|s: Signature|
                    signature_value(s) != b@[pos as int]) && e.read_byte == b@[pos as int],
                Err(BoltReadSignatureError::UnexpectedSignatureError(found)) => signature_value(
                    found,
                ) == b@[pos as int] && found != self,
                Err(BoltReadSignatureError::TruncatedInput) => false,
            },
    {
        if pos >= b.len() {
            return Err(BoltReadSignatureError::TruncatedInput);
        }
        match Signature::try_from_byte(b[pos]) {
            Err(e) => Err(BoltReadSignatureError::SignatureParseError(e)),
            Ok(sig) => if sig.validates(self) {
                Ok(sig)
            } else {
                Err(BoltReadSignatureError::UnexpectedSignatureError(sig))
            },
        }
    }
}

} // verus!
