//! GPIO pin-configuration field encodings.
//!
//! Each pin of a port is configured by a 2-bit mode field plus a 2-bit
//! configuration field whose meaning depends on the mode; these enums give
//! the field values by name.

use vstd::prelude::*;

verus! {

/// Pin mode: input, or output with a maximum switching speed.
#[derive(Debug, Clone, Copy, PartialEq, Eq, Structural)]
pub enum Mode {
    Input,
    Output10MHz,
    Output2MHz,
    Output50MHz,
}

impl Mode {
    pub open spec fn spec_bits(self) -> u8 {
        match self {
            Mode::Input => 0b00,
            Mode::Output10MHz => 0b01,
            Mode::Output2MHz => 0b10,
            Mode::Output50MHz => 0b11,
        }
    }

    pub fn bits(&self) -> (r: u8)
        ensures
            r == self.spec_bits(),
    {
        match self {
            Mode::Input => 0b00,
            Mode::Output10MHz => 0b01,
            Mode::Output2MHz => 0b10,
            Mode::Output50MHz => 0b11,
        }
    }
}

/// Input pin configuration.
#[derive(Debug, Clone, Copy, PartialEq, Eq, Structural)]
pub enum InputCnf {
    Analog,
    Float,
    PullUpdown,
}

impl InputCnf {
    pub open spec fn spec_bits(self) -> u8 {
        match self {
            InputCnf::Analog => 0b00,
            InputCnf::Float => 0b01,
            InputCnf::PullUpdown => 0b10,
        }
    }

    pub fn bits(&self) -> (r: u8)
        ensures
            r == self.spec_bits(),
    {
        match self {
            InputCnf::Analog => 0b00,
            InputCnf::Float => 0b01,
            InputCnf::PullUpdown => 0b10,
        }
    }
}

/// Output pin configuration.
#[derive(Debug, Clone, Copy, PartialEq, Eq, Structural)]
pub enum OutputCnf {
    Pushpull,
    Opendrain,
    AltfnPushpull,
    AltfnOpendrain,
}

impl OutputCnf {
    pub open spec fn spec_bits(self) -> u8 {
        match self {
            OutputCnf::Pushpull => 0b00,
            OutputCnf::Opendrain => 0b01,
            OutputCnf::AltfnPushpull => 0b10,
            OutputCnf::AltfnOpendrain => 0b11,
        }
    }

    pub fn bits(&self) -> (r: u8)
        ensures
            r == self.spec_bits(),
    {
        match self {
            OutputCnf::Pushpull => 0b00,
            OutputCnf::Opendrain => 0b01,
            OutputCnf::AltfnPushpull => 0b10,
            OutputCnf::AltfnOpendrain => 0b11,
        }
    }
}

} // verus!
