//! The integers that fit in a marker byte alone.

use vstd::prelude::*;

verus! {

/// Why a number could not become a tiny integer.
#[derive(Debug, Clone, Copy, PartialEq, Eq, Structural)]
pub enum ConversionError {
    SourceTooLarge,
    SourceTooSmall,
}

/// An integer in `0..=127`, whose byte form is the number itself.
#[derive(Debug, Clone, Copy, PartialEq, Eq)]
pub struct PlusTinyInt(u8);

impl PlusTinyInt {
    #[verifier::type_invariant]
    spec fn inv(self) -> bool {
        self.0 <= 0x7F
    }

    /// The number it holds.
    pub closed spec fn spec_value(self) -> int {
        self.0 as int
    }

    /// The tiny integer holding `input`, if it is in `0..=127`.
    pub fn try_from_i64(input: i64) -> (r: Result<PlusTinyInt, ConversionError>)
        ensures
            input > 0x7F ==> r == Err::<PlusTinyInt, _>(ConversionError::SourceTooLarge),
            input < 0 ==> r == Err::<PlusTinyInt, _>(ConversionError::SourceTooSmall),
            0 <= input <= 0x7F ==> (r matches Ok(t) && t.spec_value() == input),
    {
        if input > 0x7F {
            Err(ConversionError::SourceTooLarge)
        } else if input < 0 {
            Err(ConversionError::SourceTooSmall)
        } else {
            Ok(PlusTinyInt(input as u8))
        }
    }

    /// The number it holds.
    pub fn value(&self) -> (r: u8)
        ensures
            r == self.spec_value(),
            r <= 0x7F,
    {
        proof {
            use_type_invariant(self);
        }
        self.0
    }

    /// Its byte form: the number itself.
    pub fn to_byte(&self) -> (r: u8)
        ensures
            r == self.spec_value(),
    {
        self.value()
    }
}

/// An integer in `-16..=-1`, whose byte form is the marker `0xF0..=0xFF`
/// (`-16` is `0xF0`, `-1` is `0xFF`).
#[derive(Debug, Clone, Copy, PartialEq, Eq)]
pub struct MinusTinyInt(u8);

impl MinusTinyInt {
    #[verifier::type_invariant]
    spec fn inv(self) -> bool {
        self.0 <= 0x0F
    }

    /// The number it holds.
    pub closed spec fn spec_value(self) -> int {
        self.0 as int - 16
    }

    /// The tiny integer holding `input`, if it is in `-16..=-1`.
    pub fn try_from_i64(input: i64) -> (r: Result<MinusTinyInt, ConversionError>)
        ensures
            input >= 0 ==> r == Err::<MinusTinyInt, _>(ConversionError::SourceTooLarge),
            input < -16 ==> r == Err::<MinusTinyInt, _>(ConversionError::SourceTooSmall),
            -16 <= input < 0 ==> (r matches Ok(t) && t.spec_value() == input),
    {
        if input >= 0 {
            Err(ConversionError::SourceTooLarge)
        } else if input < -16 {
            Err(ConversionError::SourceTooSmall)
        } else {
            Ok(MinusTinyInt((input + 16) as u8))
        }
    }

    /// The tiny integer of a marker byte `0xF0..=0xFF`.
    pub fn from_byte(byte: u8) -> (r: MinusTinyInt)
        requires
            byte >= 0xF0,
        ensures
            r.spec_value() == byte - 256,
    {
        MinusTinyInt(byte - 0xF0)
    }

    /// The number it holds.
    pub fn value(&self) -> (r: i64)
        ensures
            r == self.spec_value(),
            -16 <= r < 0,
    {
        proof {
            use_type_invariant(self);
        }
        self.0 as i64 - 16
    }

    /// Its byte form: the marker `0xF0` with `value + 16` in the low nibble.
    pub fn to_byte(&self) -> (r: u8)
        ensures
            r == self.spec_value() + 256,
    {
        proof {
            use_type_invariant(self);
        }
        0xF0 + self.0
    }
}

} // verus!
