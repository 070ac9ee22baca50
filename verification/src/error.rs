use vstd::prelude::*;

verus! {

/// Errors of the JK BMS library.
#[derive(Debug)]
pub enum JkError {
    TransportNotInitialized,
    TransportOpenFailed,
    TransportCloseFailed,
    WriteFailed(i32),
    ReadFailed(i32),
    InvalidSignature,
    NoVoltageData,
    ProtocolError(String),
    TransportError(String),
}

pub type Result<T> = core::result::Result<T, JkError>;

} // verus!
