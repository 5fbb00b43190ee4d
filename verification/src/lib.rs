pub mod cli;
pub mod device;
pub mod error;
pub mod keyed;
pub mod luac;
pub mod manifest;
pub mod packages;
pub mod radio;
pub mod radio_catalog;
pub mod simulator;
pub mod simulator_ui;
pub mod repository;
pub mod scaffold;
pub mod source;
pub mod sync;
pub mod text;
