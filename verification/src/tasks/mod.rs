//! The handlers of the firmware's tasks, one module per task.

pub mod dma2_stream7;
pub mod periodic_update;
pub mod tim8;
pub mod usart1_rx;
pub mod usart1_tx;
pub mod write_telemetry;
