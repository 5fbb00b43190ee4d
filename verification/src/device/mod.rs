//! The radio as a removable drive.
pub mod eject;
