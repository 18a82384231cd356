//! Device-side backend logic for provisioning, testing, and recovering
//! ESP32-class boards over a USB serial link.
//!
//! The library holds the pure decision layer: milestone-event parsing, the
//! production-test checklist, serial-session interpreters with a deadline,
//! subprocess verdicts, and serial-port normalization. All I/O (serial port,
//! child processes, UI event sink) lives outside the library; callers feed in
//! the lines and exit statuses they observed and receive verdicts plus the
//! exact stream of lines to forward to the UI.

use vstd::prelude::*;

pub mod checklist;
pub mod parser;
pub mod ports;
pub mod serial;
pub mod subprocess;
pub mod text;

verus! {

/// The error kinds surfaced to the caller. Any error aborts its operation
/// and is reported verbatim; a deadline expiry is not an error.
#[derive(Clone, Copy, PartialEq, Eq, Structural, Debug)]
pub enum DeviceError {
    /// The serial registry query failed.
    EnumerationFailed,
    /// The external script was found at neither candidate path.
    ResourceMissing,
    /// Opening the serial port was refused.
    PortOpenFailed,
    /// The port is already held by another session.
    PortBusy,
    /// Writing the command payload failed.
    WriteFailed,
    /// Flushing the command payload failed.
    FlushFailed,
    /// A serial read failed with other than a timeout.
    ReadFailed,
    /// The external tool could not be spawned.
    SpawnFailed,
    /// Waiting for the external tool failed.
    WaitFailed,
    /// The blocking worker could not be joined.
    WorkerFailed,
}

pub open spec fn error_label(e: DeviceError) -> Seq<char> {
    match e {
        DeviceError::EnumerationFailed => "Failed to list serial ports"@,
        DeviceError::ResourceMissing => "Could not find ncd_flasher.py in bundled resources"@,
        DeviceError::PortOpenFailed => "Failed to open serial port"@,
        DeviceError::PortBusy => "Serial port is busy"@,
        DeviceError::WriteFailed => "Failed to send command"@,
        DeviceError::FlushFailed => "Failed to flush"@,
        DeviceError::ReadFailed => "Read error"@,
        DeviceError::SpawnFailed => "Failed to execute external tool"@,
        DeviceError::WaitFailed => "Failed to wait for process"@,
        DeviceError::WorkerFailed => "Task join error"@,
    }
}

impl DeviceError {
    /// Human-readable label of the error kind.
    pub fn label(&self) -> (r: String)
        ensures
            r@ == error_label(*self),
    {
        match self {
            DeviceError::EnumerationFailed => "Failed to list serial ports".to_owned(),
            DeviceError::ResourceMissing => "Could not find ncd_flasher.py in bundled resources".to_owned(),
            DeviceError::PortOpenFailed => "Failed to open serial port".to_owned(),
            DeviceError::PortBusy => "Serial port is busy".to_owned(),
            DeviceError::WriteFailed => "Failed to send command".to_owned(),
            DeviceError::FlushFailed => "Failed to flush".to_owned(),
            DeviceError::ReadFailed => "Read error".to_owned(),
            DeviceError::SpawnFailed => "Failed to execute external tool".to_owned(),
            DeviceError::WaitFailed => "Failed to wait for process".to_owned(),
            DeviceError::WorkerFailed => "Task join error".to_owned(),
        }
    }
}

/// Outcome of a Flash operation.
pub struct FlashResult {
    pub success: bool,
    pub message: String,
    pub output: String,
}

/// Outcome of a Test operation.
pub struct TestResult {
    pub success: bool,
    pub message: String,
    pub events: Vec<String>,
    pub firmware_version: Option<String>,
    pub mac_address: Option<String>,
}

/// Outcome of a Reset or Erase operation.
pub struct ResetResult {
    pub success: bool,
    pub message: String,
}

/// Interpreter name for the external flashing tools: `python` on Windows
/// targets, `python3` elsewhere. The caller reports its platform.
pub fn python_command(windows: bool) -> (r: &'static str)
    ensures
        windows ==> r@ == "python"@,
        !windows ==> r@ == "python3"@,
{
    if windows {
        "python"
    } else {
        "python3"
    }
}

} // verus!
