//! Device, configuration and protocol logic for a HyperX QuadCast S microphone controller.
pub mod text;
pub mod binary32;
pub mod model;
pub mod hid;
pub mod lighting;
pub mod config;
pub mod json;
pub mod json_text;
pub mod config_doc;
pub mod mqtt;
pub mod audio;
pub mod logging;
pub mod paths;
pub mod service;
pub mod tray;
pub mod lighting_cli;
pub mod logs;
pub mod startup;
pub mod cli;
pub mod controller;
