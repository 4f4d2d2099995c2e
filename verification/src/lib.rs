//! Verified core of a DDC/CI monitor controller.
pub mod cli;
pub mod commands;
pub mod lines;
pub mod probe;
pub mod profile;
pub mod readback;
pub mod selection;
pub mod tables;
pub mod text;
pub mod usb;
pub mod watch;
