//! Errors of the pipeline.
use vstd::prelude::*;

verus! {

/// What can go wrong in the pipeline.
#[derive(Debug)]
pub enum WemuxError {
    /// The host's component system could not be initialised.
    ComInit(String),
    /// No adopted endpoint has this id.
    DeviceNotFound(String),
    /// An operation on an endpoint failed.
    DeviceError { device_id: String, message: String },
    /// Two endpoints disagree on the stream format.
    FormatMismatch { expected: String, actual: String },
    /// The producer overwrote bytes a reader had not read.
    BufferOverrun,
    /// A reader found no bytes to read.
    BufferUnderrun,
    /// No endpoint was selected for rendering.
    NoHdmiDevices,
    /// The engine was never started.
    NotInitialized,
    /// The engine is already running.
    AlreadyRunning,
    /// The configuration cannot be used.
    InvalidConfig(String),
    /// A worker could not be reached.
    ChannelError(String),
}

impl WemuxError {
    /// An error of the endpoint `device_id`.
    pub fn device_error(device_id: &str, message: &str) -> (r: WemuxError)
        ensures
            r matches WemuxError::DeviceError { device_id: d, message: m } && d@ == device_id@
                && m@ == message@,
    {
        WemuxError::DeviceError { device_id: device_id.to_owned(), message: message.to_owned() }
    }

    /// Errors after which the operation may be retried.
    pub open spec fn recoverable(&self) -> bool {
        self is DeviceError || self is BufferOverrun || self is BufferUnderrun
    }

    /// The operation may be retried after this error.
    pub fn is_recoverable(&self) -> (r: bool)
        ensures
            r == self.recoverable(),
    {
        matches!(
            self,
            WemuxError::DeviceError { .. } | WemuxError::BufferOverrun | WemuxError::BufferUnderrun
        )
    }
}

} // verus!
