//! Verified core of a terminal dashboard for 8x8 thermal sensors that publish
//! their readings over MQTT.

pub mod app;
pub mod config;
pub mod mqtt;
pub mod run;
pub mod text;
pub mod ui;
