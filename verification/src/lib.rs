//! Verified core of a system resource monitor that reports host metrics to
//! Home Assistant over MQTT.
pub mod text;
pub mod units;
pub mod json;
pub mod reporter;
pub mod models;
pub mod storage;
pub mod network;
pub mod gpu;
