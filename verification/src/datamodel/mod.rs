//! Values that travel over the serial link, and the errors of receiving them.

pub mod request;
pub mod rx_errors;
pub mod telemetry_packet;
