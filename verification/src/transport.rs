//! What the serial transport is to open, decided from the configuration.
//! Opening the line itself is the caller's business.

use vstd::prelude::*;
use crate::config::{Parity, RtuConfig, RtuMode};

verus! {

#[derive(Debug, Clone, Copy, PartialEq, Eq, Structural)]
pub enum DataBits {
    Five,
    Six,
    Seven,
    Eight,
}

#[derive(Debug, Clone, Copy, PartialEq, Eq, Structural)]
pub enum StopBits {
    One,
    Two,
}

/// The line settings of a serial device.
#[derive(Debug, Clone, Copy, PartialEq, Eq, Structural)]
pub struct SerialSettings {
    pub baud_rate: u32,
    pub data_bits: DataBits,
    pub parity: Parity,
    pub stop_bits: StopBits,
}

/// The line that the serial transport serves on.
#[derive(Debug, Clone, Copy, PartialEq, Eq, Structural)]
pub enum RtuPlan {
    /// The configured device, opened with these settings.
    Serial(SerialSettings),
    /// A fresh pseudo-terminal pair.
    PseudoPty,
}

#[derive(Debug, Clone, Copy, PartialEq, Eq, Structural)]
pub enum TransportError {
    /// Serial mode names no device.
    MissingDevice,
}

/// The word length for a configured number of data bits: 5, 6 and 7 as
/// they are, every other number as 8.
pub open spec fn data_bits_for(bits: u8) -> DataBits {
    if bits == 5 {
        DataBits::Five
    } else if bits == 6 {
        DataBits::Six
    } else if bits == 7 {
        DataBits::Seven
    } else {
        DataBits::Eight
    }
}

/// The stop bits for a configured number: 2 as it is, every other number as 1.
pub open spec fn stop_bits_for(bits: u8) -> StopBits {
    if bits == 2 {
        StopBits::Two
    } else {
        StopBits::One
    }
}

pub open spec fn settings_of(config: RtuConfig) -> SerialSettings {
    SerialSettings {
        baud_rate: config.baud_rate,
        data_bits: data_bits_for(config.data_bits),
        parity: config.parity,
        stop_bits: stop_bits_for(config.stop_bits),
    }
}

pub open spec fn plan_of(config: RtuConfig) -> Result<RtuPlan, TransportError> {
    match config.mode {
        RtuMode::Serial => if config.device is Some {
            Ok(RtuPlan::Serial(settings_of(config)))
        } else {
            Err(TransportError::MissingDevice)
        },
        RtuMode::PseudoPty => Ok(RtuPlan::PseudoPty),
    }
}

/// The line settings that a configuration asks for.
pub fn serial_settings(config: &RtuConfig) -> (settings: SerialSettings)
    ensures
        settings == settings_of(*config),
{
    let data_bits = match config.data_bits {
        5 => DataBits::Five,
        6 => DataBits::Six,
        7 => DataBits::Seven,
        _ => DataBits::Eight,
    };
    let stop_bits = match config.stop_bits {
        2 => StopBits::Two,
        _ => StopBits::One,
    };
    SerialSettings { baud_rate: config.baud_rate, data_bits, parity: config.parity, stop_bits }
}

/// Decides what the serial transport opens. Serial mode without a device
/// is refused; the pseudo-terminal mode needs none.
pub fn rtu_plan(config: &RtuConfig) -> (plan: Result<RtuPlan, TransportError>)
    ensures
        plan == plan_of(*config),
{
    match config.mode {
        RtuMode::Serial => {
            if config.device.is_some() {
                Ok(RtuPlan::Serial(serial_settings(config)))
            } else {
                Err(TransportError::MissingDevice)
            }
        },
        RtuMode::PseudoPty => Ok(RtuPlan::PseudoPty),
    }
}

impl TransportError {
    /// The condition in words.
    pub fn message(&self) -> (text: String)
        ensures
            text@ == "rtu.device is required for serial mode"@,
    {
        String::from_str("rtu.device is required for serial mode")
    }
}

} // verus!
