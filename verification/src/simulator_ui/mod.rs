//! State behind the simulator window: audio controls, keyboard shortcuts,
//! the layout of its controls, how they answer the pointer, and what it
//! shows of the firmware's state.
pub mod audio;
pub mod controls;
pub mod input;
pub mod monitors;
pub mod panel;
