//! Startup configuration of the simulated device.
//!
//! Verus does not reason about floating point, so every real-valued waveform
//! parameter is carried as a [`Scalar`]: the bit pattern of an IEEE-754
//! double. The library stores and hands these out unchanged; only the caller
//! that evaluates a waveform interprets them.

use vstd::prelude::*;

verus! {

/// A real number carried as the 64 bits of its IEEE-754 double encoding.
#[derive(Debug, Clone, Copy, PartialEq, Eq, Structural)]
pub struct Scalar {
    pub bits: u64,
}

#[derive(Debug, Clone)]
pub struct Config {
    pub logging: Option<LoggingConfig>,
    pub global: Option<GlobalConfig>,
    pub tcp: Option<TcpConfig>,
    pub rtu: Option<RtuConfig>,
    pub device: DeviceConfig,
}

#[derive(Debug, Clone)]
pub struct LoggingConfig {
    pub log_value_updates: bool,
}

#[derive(Debug, Clone)]
pub struct GlobalConfig {
    pub update_ms: u64,
}

#[derive(Debug, Clone)]
pub struct TcpConfig {
    pub bind: String,
}

#[derive(Debug, Clone)]
pub struct RtuConfig {
    pub mode: RtuMode,
    pub device: Option<String>,
    pub baud_rate: u32,
    pub data_bits: u8,
    pub parity: Parity,
    pub stop_bits: u8,
}

#[derive(Debug, Clone, Copy, PartialEq, Eq, Structural)]
pub enum RtuMode {
    Serial,
    PseudoPty,
}

#[derive(Debug, Clone, Copy, PartialEq, Eq, Structural)]
pub enum Parity {
    NoParity,
    Even,
    Odd,
}

#[derive(Debug, Clone)]
pub struct DeviceConfig {
    pub unit_id: u8,
    pub coils: Vec<BoolItemConfig>,
    pub discrete_inputs: Vec<BoolItemConfig>,
    pub holding_registers: Vec<RegisterItemConfig>,
    pub input_registers: Vec<RegisterItemConfig>,
}

#[derive(Debug, Clone)]
pub struct BoolItemConfig {
    pub address: u16,
    pub initial: bool,
    pub update_ms: Option<u64>,
    pub dynamics: Option<DynamicsSpec>,
}

#[derive(Debug, Clone)]
pub struct RegisterItemConfig {
    pub address: u16,
    pub initial: u16,
    pub update_ms: Option<u64>,
    pub dynamics: Option<DynamicsSpec>,
}

/// The waveform that governs how a point's value evolves.
#[derive(Debug, Clone, PartialEq, Eq)]
#[allow(inconsistent_fields)]
pub enum DynamicsSpec {
    Static,
    Clamp { min: Scalar, max: Scalar },
    Sine { amplitude: Scalar, offset: Scalar, period_ms: u64 },
    Ramp { min: Scalar, max: Scalar, period_ms: u64 },
    Step { low: Scalar, high: Scalar, period_ms: u64 },
    RandomWalk { min: Scalar, max: Scalar, step: Scalar },
    Noise { min: Scalar, max: Scalar },
    Script { expr: String, min: Option<Scalar>, max: Option<Scalar> },
}

/// Whether a point with this waveform has to be evaluated when it falls due:
/// a point without a waveform, or with the `Static` one, keeps its value.
pub open spec fn is_dynamic(dynamics: Option<DynamicsSpec>) -> bool {
    match dynamics {
        None => false,
        Some(DynamicsSpec::Static) => false,
        Some(_) => true,
    }
}

/// Executable form of [`is_dynamic`].
pub fn needs_evaluation(dynamics: &Option<DynamicsSpec>) -> (dynamic: bool)
    ensures
        dynamic == is_dynamic(*dynamics),
{
    match dynamics {
        None => false,
        Some(DynamicsSpec::Static) => false,
        Some(_) => true,
    }
}

/// What evaluating a waveform comes to, as far as whole numbers decide it.
#[derive(Debug, Clone, Copy, PartialEq, Eq, Structural)]
pub enum Evaluation {
    /// The point keeps its value: it has no waveform, or the `Static` one.
    Keep,
    /// The value is this level, whatever the point held.
    Constant(Scalar),
    /// The waveform's formula applies.
    Formula,
}

/// The evaluation that a waveform calls for after `elapsed_ms` of waveform
/// time. A sine, ramp or step whose period is zero is constant: at its
/// offset, its minimum and its low level. A step with a period is at its
/// low level through the first half of each period and at its high level
/// through the second.
pub open spec fn evaluation_of(dynamics: Option<DynamicsSpec>, elapsed_ms: u64) -> Evaluation {
    match dynamics {
        None => Evaluation::Keep,
        Some(DynamicsSpec::Static) => Evaluation::Keep,
        Some(DynamicsSpec::Sine { amplitude, offset, period_ms }) => if period_ms == 0 {
            Evaluation::Constant(offset)
        } else {
            Evaluation::Formula
        },
        Some(DynamicsSpec::Ramp { min, max, period_ms }) => if period_ms == 0 {
            Evaluation::Constant(min)
        } else {
            Evaluation::Formula
        },
        Some(DynamicsSpec::Step { low, high, period_ms }) => if period_ms == 0 {
            Evaluation::Constant(low)
        } else if 2 * (elapsed_ms % period_ms) < period_ms {
            Evaluation::Constant(low)
        } else {
            Evaluation::Constant(high)
        },
        Some(_) => Evaluation::Formula,
    }
}

/// Executable form of [`evaluation_of`].
pub fn evaluation(dynamics: &Option<DynamicsSpec>, elapsed_ms: u64) -> (plan: Evaluation)
    ensures
        plan == evaluation_of(*dynamics, elapsed_ms),
        is_dynamic(*dynamics) <==> !(plan is Keep),
{
    match dynamics {
        None => Evaluation::Keep,
        Some(DynamicsSpec::Static) => Evaluation::Keep,
        Some(DynamicsSpec::Sine { amplitude: _, offset, period_ms }) => {
            if *period_ms == 0 {
                Evaluation::Constant(*offset)
            } else {
                Evaluation::Formula
            }
        },
        Some(DynamicsSpec::Ramp { min, max: _, period_ms }) => {
            if *period_ms == 0 {
                Evaluation::Constant(*min)
            } else {
                Evaluation::Formula
            }
        },
        Some(DynamicsSpec::Step { low, high, period_ms }) => {
            if *period_ms == 0 {
                Evaluation::Constant(*low)
            } else {
                let phase = elapsed_ms % *period_ms;
                if phase < *period_ms - phase {
                    Evaluation::Constant(*low)
                } else {
                    Evaluation::Constant(*high)
                }
            }
        },
        Some(_) => Evaluation::Formula,
    }
}

/// Fallback refresh interval of a point, in milliseconds.
pub fn default_update_ms() -> (ms: u64)
    ensures
        ms == 500,
{
    500
}

/// Address the TCP transport listens on when none is configured.
pub fn default_tcp_bind() -> (bind: String)
    ensures
        bind@ == "0.0.0.0:5020"@,
{
    String::from_str("0.0.0.0:5020")
}

pub fn default_baud_rate() -> (baud: u32)
    ensures
        baud == 9600,
{
    9600
}

pub fn default_data_bits() -> (bits: u8)
    ensures
        bits == 8,
{
    8
}

pub fn default_parity() -> (parity: Parity)
    ensures
        parity == Parity::NoParity,
{
    Parity::NoParity
}

pub fn default_stop_bits() -> (bits: u8)
    ensures
        bits == 1,
{
    1
}

pub fn default_unit_id() -> (unit: u8)
    ensures
        unit == 1,
{
    1
}

impl Config {
    /// Whether value changes are reported: `logging.log_value_updates`, off
    /// when the section is absent.
    pub open spec fn spec_log_value_updates(&self) -> bool {
        match self.logging {
            Some(logging) => logging.log_value_updates,
            None => false,
        }
    }

    /// The global refresh interval: `global.update_ms`, or 500 ms when the
    /// section is absent.
    pub open spec fn spec_global_update_ms(&self) -> u64 {
        match self.global {
            Some(global) => global.update_ms,
            None => 500,
        }
    }

    pub fn log_value_updates(&self) -> (enabled: bool)
        ensures
            enabled == self.spec_log_value_updates(),
    {
        match &self.logging {
            Some(logging) => logging.log_value_updates,
            None => false,
        }
    }

    pub fn global_update_ms(&self) -> (ms: u64)
        ensures
            ms == self.spec_global_update_ms(),
    {
        match &self.global {
            Some(global) => global.update_ms,
            None => default_update_ms(),
        }
    }

    /// Whether at least one transport is enabled. A configuration without
    /// one can serve no request.
    pub fn has_transport(&self) -> (enabled: bool)
        ensures
            enabled == (self.tcp is Some || self.rtu is Some),
    {
        self.tcp.is_some() || self.rtu.is_some()
    }
}

} // verus!
