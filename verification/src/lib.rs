//! A simulated Modbus field device: a time-driven address space of coils and
//! registers, and the dispatcher that maps decoded requests onto it.

pub mod config;
pub mod dispatch;
pub mod keys;
pub mod laws;
pub mod sim;
mod space;
pub mod transport;

pub use config::{
    default_baud_rate, default_data_bits, default_parity, default_stop_bits, default_tcp_bind,
    default_unit_id, default_update_ms, evaluation, needs_evaluation, BoolItemConfig, Config,
    DeviceConfig, DynamicsSpec, Evaluation, GlobalConfig, LoggingConfig, Parity,
    RegisterItemConfig, RtuConfig, RtuMode, Scalar, TcpConfig,
};
pub use dispatch::{dispatch, DispatchError, Request, Response};
pub use sim::{AddressLists, Evaluations, SimBoolItem, SimRegisterItem, SimState};
pub use transport::{
    rtu_plan, serial_settings, DataBits, RtuPlan, SerialSettings, StopBits, TransportError,
};
