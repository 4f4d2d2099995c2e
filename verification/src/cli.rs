//! The commands of the command line, as plain data.

use vstd::prelude::*;

use crate::selection::{DisplaySelector, FeatureArg};

verus! {

/// A parsed command line.
#[derive(Debug)]
pub struct Cli {
    pub command: Command,
}

/// What the command line asks for.
#[derive(Debug)]
pub enum Command {
    /// List external monitors that expose DDC/CI.
    List,
    /// Scan or watch USB buses and devices.
    Usb { command: UsbCommand },
    /// Read a VCP feature value from a monitor.
    Get { selector: DisplaySelector, feature: FeatureArg },
    /// Write a VCP feature value to a monitor.
    SetFeature { selector: DisplaySelector, feature: FeatureArg, value: String },
    /// Show the detected controller of a monitor.
    Profile { selector: DisplaySelector },
    /// Probe a range of VCP codes and print the readable ones.
    Scan { selector: DisplaySelector, start: u8, end: u8, timeout_ms: u64, show_failures: bool },
    /// Read one VCP code for a scan, in a process of its own.
    Probe { selector: DisplaySelector, feature: FeatureArg },
}

/// What the `usb` command asks for.
#[derive(Clone, Copy, Debug)]
pub enum UsbCommand {
    /// Enumerate USB buses and devices.
    Scan,
    /// Watch devices connect and disconnect.
    Watch,
}

} // verus!
