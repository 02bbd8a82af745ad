//! The library's error type.
use vstd::prelude::*;

verus! {

/// `std::io::Error`, carried by `OxideError::IoError` only.
#[verifier::external_type_specification]
#[verifier::external_body]
pub struct ExIoError(std::io::Error);

/// Every failure the library reports.
#[derive(Debug)]
#[allow(inconsistent_fields)]
pub enum OxideError {
    ShapeMismatch { expected: Vec<usize>, got: Vec<usize> },
    DtypeMismatch { expected: String, got: String },
    DeviceMismatch(String),
    CudaError(String),
    DeviceError(String),
    IoError(std::io::Error),
    SerializationError(String),
    UnsupportedOperation(String),
    InvalidArgument(String),
    OutOfMemory { requested: usize, available: usize },
    KernelCompileError(String),
    KernelLaunchError(String),
    NotImplemented(String),
}

/// Result type used throughout the library.
pub type OxideResult<T> = Result<T, OxideError>;

} // verus!
