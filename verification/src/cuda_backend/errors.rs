//! CUDA error codes, recovery strategies and per-device error tracking.
use vstd::prelude::*;
use vstd::string::*;
use crate::error::OxideError;
use crate::text::{contains, has_substring, i32_to_string, signed_decimal};

verus! {

/// `std::time::Instant`, recorded with each logged error.
#[verifier::external_type_specification]
#[verifier::external_body]
pub struct ExInstant(std::time::Instant);

/// `Instant::now()`: the current instant; nothing is known of its value.
#[verifier::external_body]
fn instant_now() -> (t: std::time::Instant) {
    std::time::Instant::now()
}

/// CUDA driver error kinds, with the library's own codes from 1000 up.
#[derive(Debug, Clone, Copy, PartialEq, Eq, Hash, Structural)]
pub enum CudaError {
    Success,
    MissingConfiguration,
    MemoryAllocation,
    InitializationError,
    LaunchFailure,
    PriorLaunchFailure,
    LaunchTimeout,
    LaunchOutOfResources,
    InvalidDevicePointer,
    InvalidMemcpyDirection,
    InsufficientDriver,
    NoDevice,
    InvalidDevice,
    StartupFailure,
    ApiFailureBase,
    Unknown,
    DeviceNotInitialized,
    KernelCompilationFailed,
    PtxLoadFailed,
    KernelLaunchFailed,
}

/// The numeric code of each kind.
pub open spec fn spec_code(e: CudaError) -> i32 {
    match e {
        CudaError::Success => 0i32,
        CudaError::MissingConfiguration => 1,
        CudaError::MemoryAllocation => 2,
        CudaError::InitializationError => 3,
        CudaError::LaunchFailure => 4,
        CudaError::PriorLaunchFailure => 5,
        CudaError::LaunchTimeout => 6,
        CudaError::LaunchOutOfResources => 7,
        CudaError::InvalidDevicePointer => 8,
        CudaError::InvalidMemcpyDirection => 9,
        CudaError::InsufficientDriver => 35,
        CudaError::NoDevice => 38,
        CudaError::InvalidDevice => 101,
        CudaError::StartupFailure => 127,
        CudaError::ApiFailureBase => 10000,
        CudaError::Unknown => -1i32,
        CudaError::DeviceNotInitialized => 1000,
        CudaError::KernelCompilationFailed => 1001,
        CudaError::PtxLoadFailed => 1002,
        CudaError::KernelLaunchFailed => 1003,
    }
}

/// The kind a raw driver code names: the fifteen driver codes map to their
/// kinds, every other code (the library's own included) to `Unknown`.
pub open spec fn spec_from_raw(code: i32) -> CudaError {
    if code == 0 { CudaError::Success }
    else if code == 1 { CudaError::MissingConfiguration }
    else if code == 2 { CudaError::MemoryAllocation }
    else if code == 3 { CudaError::InitializationError }
    else if code == 4 { CudaError::LaunchFailure }
    else if code == 5 { CudaError::PriorLaunchFailure }
    else if code == 6 { CudaError::LaunchTimeout }
    else if code == 7 { CudaError::LaunchOutOfResources }
    else if code == 8 { CudaError::InvalidDevicePointer }
    else if code == 9 { CudaError::InvalidMemcpyDirection }
    else if code == 35 { CudaError::InsufficientDriver }
    else if code == 38 { CudaError::NoDevice }
    else if code == 101 { CudaError::InvalidDevice }
    else if code == 127 { CudaError::StartupFailure }
    else if code == 10000 { CudaError::ApiFailureBase }
    else { CudaError::Unknown }
}

/// The human-readable text of each kind.
pub open spec fn spec_message(e: CudaError) -> Seq<char> {
    match e {
        CudaError::Success => "No error"@,
        CudaError::MissingConfiguration => "__global__ function call is not configured"@,
        CudaError::MemoryAllocation => "Memory allocation failed"@,
        CudaError::InitializationError => "Initialization error"@,
        CudaError::LaunchFailure => "Launch failed"@,
        CudaError::PriorLaunchFailure => "Prior launch failed"@,
        CudaError::LaunchTimeout => "Launch timeout"@,
        CudaError::LaunchOutOfResources => "Launch out of resources"@,
        CudaError::InvalidDevicePointer => "Invalid device pointer"@,
        CudaError::InvalidMemcpyDirection => "Invalid memcpy direction"@,
        CudaError::InsufficientDriver => "Insufficient driver version"@,
        CudaError::NoDevice => "No device found"@,
        CudaError::InvalidDevice => "Invalid device ordinal"@,
        CudaError::StartupFailure => "Startup failure"@,
        CudaError::ApiFailureBase => "API failure base"@,
        CudaError::Unknown => "Unknown error"@,
        CudaError::DeviceNotInitialized => "Device not initialized"@,
        CudaError::KernelCompilationFailed => "Kernel compilation failed"@,
        CudaError::PtxLoadFailed => "PTX load failed"@,
        CudaError::KernelLaunchFailed => "Kernel launch failed"@,
    }
}

/// Every kind has a message, and no two kinds share one.
pub proof fn lemma_messages_distinct(e1: CudaError, e2: CudaError)
    ensures
        spec_message(e1).len() > 0,
        e1 != e2 ==> spec_message(e1) != spec_message(e2),
{
    reveal_strlit("No error");
    reveal_strlit("__global__ function call is not configured");
    reveal_strlit("Memory allocation failed");
    reveal_strlit("Initialization error");
    reveal_strlit("Launch failed");
    reveal_strlit("Prior launch failed");
    reveal_strlit("Launch timeout");
    reveal_strlit("Launch out of resources");
    reveal_strlit("Invalid device pointer");
    reveal_strlit("Invalid memcpy direction");
    reveal_strlit("Insufficient driver version");
    reveal_strlit("No device found");
    reveal_strlit("Invalid device ordinal");
    reveal_strlit("Startup failure");
    reveal_strlit("API failure base");
    reveal_strlit("Unknown error");
    reveal_strlit("Device not initialized");
    reveal_strlit("Kernel compilation failed");
    reveal_strlit("PTX load failed");
    reveal_strlit("Kernel launch failed");
    match e1 {
        CudaError::Success => {
            assert("No error"@.len() > 0);
            match e2 {
                CudaError::Success => {},
                CudaError::MissingConfiguration => { assert("No error"@[0] != "__global__ function call is not configured"@[0]); },
                CudaError::MemoryAllocation => { assert("No error"@[0] != "Memory allocation failed"@[0]); },
                CudaError::InitializationError => { assert("No error"@[0] != "Initialization error"@[0]); },
                CudaError::LaunchFailure => { assert("No error"@[0] != "Launch failed"@[0]); },
                CudaError::PriorLaunchFailure => { assert("No error"@[0] != "Prior launch failed"@[0]); },
                CudaError::LaunchTimeout => { assert("No error"@[0] != "Launch timeout"@[0]); },
                CudaError::LaunchOutOfResources => { assert("No error"@[0] != "Launch out of resources"@[0]); },
                CudaError::InvalidDevicePointer => { assert("No error"@[0] != "Invalid device pointer"@[0]); },
                CudaError::InvalidMemcpyDirection => { assert("No error"@[0] != "Invalid memcpy direction"@[0]); },
                CudaError::InsufficientDriver => { assert("No error"@[0] != "Insufficient driver version"@[0]); },
                CudaError::NoDevice => { assert("No error"@[3] != "No device found"@[3]); },
                CudaError::InvalidDevice => { assert("No error"@[0] != "Invalid device ordinal"@[0]); },
                CudaError::StartupFailure => { assert("No error"@[0] != "Startup failure"@[0]); },
                CudaError::ApiFailureBase => { assert("No error"@[0] != "API failure base"@[0]); },
                CudaError::Unknown => { assert("No error"@[0] != "Unknown error"@[0]); },
                CudaError::DeviceNotInitialized => { assert("No error"@[0] != "Device not initialized"@[0]); },
                CudaError::KernelCompilationFailed => { assert("No error"@[0] != "Kernel compilation failed"@[0]); },
                CudaError::PtxLoadFailed => { assert("No error"@[0] != "PTX load failed"@[0]); },
                CudaError::KernelLaunchFailed => { assert("No error"@[0] != "Kernel launch failed"@[0]); },
            }
        },
        CudaError::MissingConfiguration => {
            assert("__global__ function call is not configured"@.len() > 0);
            match e2 {
                CudaError::Success => { assert("__global__ function call is not configured"@[0] != "No error"@[0]); },
                CudaError::MissingConfiguration => {},
                CudaError::MemoryAllocation => { assert("__global__ function call is not configured"@[0] != "Memory allocation failed"@[0]); },
                CudaError::InitializationError => { assert("__global__ function call is not configured"@[0] != "Initialization error"@[0]); },
                CudaError::LaunchFailure => { assert("__global__ function call is not configured"@[0] != "Launch failed"@[0]); },
                CudaError::PriorLaunchFailure => { assert("__global__ function call is not configured"@[0] != "Prior launch failed"@[0]); },
                CudaError::LaunchTimeout => { assert("__global__ function call is not configured"@[0] != "Launch timeout"@[0]); },
                CudaError::LaunchOutOfResources => { assert("__global__ function call is not configured"@[0] != "Launch out of resources"@[0]); },
                CudaError::InvalidDevicePointer => { assert("__global__ function call is not configured"@[0] != "Invalid device pointer"@[0]); },
                CudaError::InvalidMemcpyDirection => { assert("__global__ function call is not configured"@[0] != "Invalid memcpy direction"@[0]); },
                CudaError::InsufficientDriver => { assert("__global__ function call is not configured"@[0] != "Insufficient driver version"@[0]); },
                CudaError::NoDevice => { assert("__global__ function call is not configured"@[0] != "No device found"@[0]); },
                CudaError::InvalidDevice => { assert("__global__ function call is not configured"@[0] != "Invalid device ordinal"@[0]); },
                CudaError::StartupFailure => { assert("__global__ function call is not configured"@[0] != "Startup failure"@[0]); },
                CudaError::ApiFailureBase => { assert("__global__ function call is not configured"@[0] != "API failure base"@[0]); },
                CudaError::Unknown => { assert("__global__ function call is not configured"@[0] != "Unknown error"@[0]); },
                CudaError::DeviceNotInitialized => { assert("__global__ function call is not configured"@[0] != "Device not initialized"@[0]); },
                CudaError::KernelCompilationFailed => { assert("__global__ function call is not configured"@[0] != "Kernel compilation failed"@[0]); },
                CudaError::PtxLoadFailed => { assert("__global__ function call is not configured"@[0] != "PTX load failed"@[0]); },
                CudaError::KernelLaunchFailed => { assert("__global__ function call is not configured"@[0] != "Kernel launch failed"@[0]); },
            }
        },
        CudaError::MemoryAllocation => {
            assert("Memory allocation failed"@.len() > 0);
            match e2 {
                CudaError::Success => { assert("Memory allocation failed"@[0] != "No error"@[0]); },
                CudaError::MissingConfiguration => { assert("Memory allocation failed"@[0] != "__global__ function call is not configured"@[0]); },
                CudaError::MemoryAllocation => {},
                CudaError::InitializationError => { assert("Memory allocation failed"@[0] != "Initialization error"@[0]); },
                CudaError::LaunchFailure => { assert("Memory allocation failed"@[0] != "Launch failed"@[0]); },
                CudaError::PriorLaunchFailure => { assert("Memory allocation failed"@[0] != "Prior launch failed"@[0]); },
                CudaError::LaunchTimeout => { assert("Memory allocation failed"@[0] != "Launch timeout"@[0]); },
                CudaError::LaunchOutOfResources => { assert("Memory allocation failed"@[0] != "Launch out of resources"@[0]); },
                CudaError::InvalidDevicePointer => { assert("Memory allocation failed"@[0] != "Invalid device pointer"@[0]); },
                CudaError::InvalidMemcpyDirection => { assert("Memory allocation failed"@[0] != "Invalid memcpy direction"@[0]); },
                CudaError::InsufficientDriver => { assert("Memory allocation failed"@[0] != "Insufficient driver version"@[0]); },
                CudaError::NoDevice => { assert("Memory allocation failed"@[0] != "No device found"@[0]); },
                CudaError::InvalidDevice => { assert("Memory allocation failed"@[0] != "Invalid device ordinal"@[0]); },
                CudaError::StartupFailure => { assert("Memory allocation failed"@[0] != "Startup failure"@[0]); },
                CudaError::ApiFailureBase => { assert("Memory allocation failed"@[0] != "API failure base"@[0]); },
                CudaError::Unknown => { assert("Memory allocation failed"@[0] != "Unknown error"@[0]); },
                CudaError::DeviceNotInitialized => { assert("Memory allocation failed"@[0] != "Device not initialized"@[0]); },
                CudaError::KernelCompilationFailed => { assert("Memory allocation failed"@[0] != "Kernel compilation failed"@[0]); },
                CudaError::PtxLoadFailed => { assert("Memory allocation failed"@[0] != "PTX load failed"@[0]); },
                CudaError::KernelLaunchFailed => { assert("Memory allocation failed"@[0] != "Kernel launch failed"@[0]); },
            }
        },
        CudaError::InitializationError => {
            assert("Initialization error"@.len() > 0);
            match e2 {
                CudaError::Success => { assert("Initialization error"@[0] != "No error"@[0]); },
                CudaError::MissingConfiguration => { assert("Initialization error"@[0] != "__global__ function call is not configured"@[0]); },
                CudaError::MemoryAllocation => { assert("Initialization error"@[0] != "Memory allocation failed"@[0]); },
                CudaError::InitializationError => {},
                CudaError::LaunchFailure => { assert("Initialization error"@[0] != "Launch failed"@[0]); },
                CudaError::PriorLaunchFailure => { assert("Initialization error"@[0] != "Prior launch failed"@[0]); },
                CudaError::LaunchTimeout => { assert("Initialization error"@[0] != "Launch timeout"@[0]); },
                CudaError::LaunchOutOfResources => { assert("Initialization error"@[0] != "Launch out of resources"@[0]); },
                CudaError::InvalidDevicePointer => { assert("Initialization error"@[2] != "Invalid device pointer"@[2]); },
                CudaError::InvalidMemcpyDirection => { assert("Initialization error"@[2] != "Invalid memcpy direction"@[2]); },
                CudaError::InsufficientDriver => { assert("Initialization error"@[2] != "Insufficient driver version"@[2]); },
                CudaError::NoDevice => { assert("Initialization error"@[0] != "No device found"@[0]); },
                CudaError::InvalidDevice => { assert("Initialization error"@[2] != "Invalid device ordinal"@[2]); },
                CudaError::StartupFailure => { assert("Initialization error"@[0] != "Startup failure"@[0]); },
                CudaError::ApiFailureBase => { assert("Initialization error"@[0] != "API failure base"@[0]); },
                CudaError::Unknown => { assert("Initialization error"@[0] != "Unknown error"@[0]); },
                CudaError::DeviceNotInitialized => { assert("Initialization error"@[0] != "Device not initialized"@[0]); },
                CudaError::KernelCompilationFailed => { assert("Initialization error"@[0] != "Kernel compilation failed"@[0]); },
                CudaError::PtxLoadFailed => { assert("Initialization error"@[0] != "PTX load failed"@[0]); },
                CudaError::KernelLaunchFailed => { assert("Initialization error"@[0] != "Kernel launch failed"@[0]); },
            }
        },
        CudaError::LaunchFailure => {
            assert("Launch failed"@.len() > 0);
            match e2 {
                CudaError::Success => { assert("Launch failed"@[0] != "No error"@[0]); },
                CudaError::MissingConfiguration => { assert("Launch failed"@[0] != "__global__ function call is not configured"@[0]); },
                CudaError::MemoryAllocation => { assert("Launch failed"@[0] != "Memory allocation failed"@[0]); },
                CudaError::InitializationError => { assert("Launch failed"@[0] != "Initialization error"@[0]); },
                CudaError::LaunchFailure => {},
                CudaError::PriorLaunchFailure => { assert("Launch failed"@[0] != "Prior launch failed"@[0]); },
                CudaError::LaunchTimeout => { assert("Launch failed"@[7] != "Launch timeout"@[7]); },
                CudaError::LaunchOutOfResources => { assert("Launch failed"@[7] != "Launch out of resources"@[7]); },
                CudaError::InvalidDevicePointer => { assert("Launch failed"@[0] != "Invalid device pointer"@[0]); },
                CudaError::InvalidMemcpyDirection => { assert("Launch failed"@[0] != "Invalid memcpy direction"@[0]); },
                CudaError::InsufficientDriver => { assert("Launch failed"@[0] != "Insufficient driver version"@[0]); },
                CudaError::NoDevice => { assert("Launch failed"@[0] != "No device found"@[0]); },
                CudaError::InvalidDevice => { assert("Launch failed"@[0] != "Invalid device ordinal"@[0]); },
                CudaError::StartupFailure => { assert("Launch failed"@[0] != "Startup failure"@[0]); },
                CudaError::ApiFailureBase => { assert("Launch failed"@[0] != "API failure base"@[0]); },
                CudaError::Unknown => { assert("Launch failed"@[0] != "Unknown error"@[0]); },
                CudaError::DeviceNotInitialized => { assert("Launch failed"@[0] != "Device not initialized"@[0]); },
                CudaError::KernelCompilationFailed => { assert("Launch failed"@[0] != "Kernel compilation failed"@[0]); },
                CudaError::PtxLoadFailed => { assert("Launch failed"@[0] != "PTX load failed"@[0]); },
                CudaError::KernelLaunchFailed => { assert("Launch failed"@[0] != "Kernel launch failed"@[0]); },
            }
        },
        CudaError::PriorLaunchFailure => {
            assert("Prior launch failed"@.len() > 0);
            match e2 {
                CudaError::Success => { assert("Prior launch failed"@[0] != "No error"@[0]); },
                CudaError::MissingConfiguration => { assert("Prior launch failed"@[0] != "__global__ function call is not configured"@[0]); },
                CudaError::MemoryAllocation => { assert("Prior launch failed"@[0] != "Memory allocation failed"@[0]); },
                CudaError::InitializationError => { assert("Prior launch failed"@[0] != "Initialization error"@[0]); },
                CudaError::LaunchFailure => { assert("Prior launch failed"@[0] != "Launch failed"@[0]); },
                CudaError::PriorLaunchFailure => {},
                CudaError::LaunchTimeout => { assert("Prior launch failed"@[0] != "Launch timeout"@[0]); },
                CudaError::LaunchOutOfResources => { assert("Prior launch failed"@[0] != "Launch out of resources"@[0]); },
                CudaError::InvalidDevicePointer => { assert("Prior launch failed"@[0] != "Invalid device pointer"@[0]); },
                CudaError::InvalidMemcpyDirection => { assert("Prior launch failed"@[0] != "Invalid memcpy direction"@[0]); },
                CudaError::InsufficientDriver => { assert("Prior launch failed"@[0] != "Insufficient driver version"@[0]); },
                CudaError::NoDevice => { assert("Prior launch failed"@[0] != "No device found"@[0]); },
                CudaError::InvalidDevice => { assert("Prior launch failed"@[0] != "Invalid device ordinal"@[0]); },
                CudaError::StartupFailure => { assert("Prior launch failed"@[0] != "Startup failure"@[0]); },
                CudaError::ApiFailureBase => { assert("Prior launch failed"@[0] != "API failure base"@[0]); },
                CudaError::Unknown => { assert("Prior launch failed"@[0] != "Unknown error"@[0]); },
                CudaError::DeviceNotInitialized => { assert("Prior launch failed"@[0] != "Device not initialized"@[0]); },
                CudaError::KernelCompilationFailed => { assert("Prior launch failed"@[0] != "Kernel compilation failed"@[0]); },
                CudaError::PtxLoadFailed => { assert("Prior launch failed"@[1] != "PTX load failed"@[1]); },
                CudaError::KernelLaunchFailed => { assert("Prior launch failed"@[0] != "Kernel launch failed"@[0]); },
            }
        },
        CudaError::LaunchTimeout => {
            assert("Launch timeout"@.len() > 0);
            match e2 {
                CudaError::Success => { assert("Launch timeout"@[0] != "No error"@[0]); },
                CudaError::MissingConfiguration => { assert("Launch timeout"@[0] != "__global__ function call is not configured"@[0]); },
                CudaError::MemoryAllocation => { assert("Launch timeout"@[0] != "Memory allocation failed"@[0]); },
                CudaError::InitializationError => { assert("Launch timeout"@[0] != "Initialization error"@[0]); },
                CudaError::LaunchFailure => { assert("Launch timeout"@[7] != "Launch failed"@[7]); },
                CudaError::PriorLaunchFailure => { assert("Launch timeout"@[0] != "Prior launch failed"@[0]); },
                CudaError::LaunchTimeout => {},
                CudaError::LaunchOutOfResources => { assert("Launch timeout"@[7] != "Launch out of resources"@[7]); },
                CudaError::InvalidDevicePointer => { assert("Launch timeout"@[0] != "Invalid device pointer"@[0]); },
                CudaError::InvalidMemcpyDirection => { assert("Launch timeout"@[0] != "Invalid memcpy direction"@[0]); },
                CudaError::InsufficientDriver => { assert("Launch timeout"@[0] != "Insufficient driver version"@[0]); },
                CudaError::NoDevice => { assert("Launch timeout"@[0] != "No device found"@[0]); },
                CudaError::InvalidDevice => { assert("Launch timeout"@[0] != "Invalid device ordinal"@[0]); },
                CudaError::StartupFailure => { assert("Launch timeout"@[0] != "Startup failure"@[0]); },
                CudaError::ApiFailureBase => { assert("Launch timeout"@[0] != "API failure base"@[0]); },
                CudaError::Unknown => { assert("Launch timeout"@[0] != "Unknown error"@[0]); },
                CudaError::DeviceNotInitialized => { assert("Launch timeout"@[0] != "Device not initialized"@[0]); },
                CudaError::KernelCompilationFailed => { assert("Launch timeout"@[0] != "Kernel compilation failed"@[0]); },
                CudaError::PtxLoadFailed => { assert("Launch timeout"@[0] != "PTX load failed"@[0]); },
                CudaError::KernelLaunchFailed => { assert("Launch timeout"@[0] != "Kernel launch failed"@[0]); },
            }
        },
        CudaError::LaunchOutOfResources => {
            assert("Launch out of resources"@.len() > 0);
            match e2 {
                CudaError::Success => { assert("Launch out of resources"@[0] != "No error"@[0]); },
                CudaError::MissingConfiguration => { assert("Launch out of resources"@[0] != "__global__ function call is not configured"@[0]); },
                CudaError::MemoryAllocation => { assert("Launch out of resources"@[0] != "Memory allocation failed"@[0]); },
                CudaError::InitializationError => { assert("Launch out of resources"@[0] != "Initialization error"@[0]); },
                CudaError::LaunchFailure => { assert("Launch out of resources"@[7] != "Launch failed"@[7]); },
                CudaError::PriorLaunchFailure => { assert("Launch out of resources"@[0] != "Prior launch failed"@[0]); },
                CudaError::LaunchTimeout => { assert("Launch out of resources"@[7] != "Launch timeout"@[7]); },
                CudaError::LaunchOutOfResources => {},
                CudaError::InvalidDevicePointer => { assert("Launch out of resources"@[0] != "Invalid device pointer"@[0]); },
                CudaError::InvalidMemcpyDirection => { assert("Launch out of resources"@[0] != "Invalid memcpy direction"@[0]); },
                CudaError::InsufficientDriver => { assert("Launch out of resources"@[0] != "Insufficient driver version"@[0]); },
                CudaError::NoDevice => { assert("Launch out of resources"@[0] != "No device found"@[0]); },
                CudaError::InvalidDevice => { assert("Launch out of resources"@[0] != "Invalid device ordinal"@[0]); },
                CudaError::StartupFailure => { assert("Launch out of resources"@[0] != "Startup failure"@[0]); },
                CudaError::ApiFailureBase => { assert("Launch out of resources"@[0] != "API failure base"@[0]); },
                CudaError::Unknown => { assert("Launch out of resources"@[0] != "Unknown error"@[0]); },
                CudaError::DeviceNotInitialized => { assert("Launch out of resources"@[0] != "Device not initialized"@[0]); },
                CudaError::KernelCompilationFailed => { assert("Launch out of resources"@[0] != "Kernel compilation failed"@[0]); },
                CudaError::PtxLoadFailed => { assert("Launch out of resources"@[0] != "PTX load failed"@[0]); },
                CudaError::KernelLaunchFailed => { assert("Launch out of resources"@[0] != "Kernel launch failed"@[0]); },
            }
        },
        CudaError::InvalidDevicePointer => {
            assert("Invalid device pointer"@.len() > 0);
            match e2 {
                CudaError::Success => { assert("Invalid device pointer"@[0] != "No error"@[0]); },
                CudaError::MissingConfiguration => { assert("Invalid device pointer"@[0] != "__global__ function call is not configured"@[0]); },
                CudaError::MemoryAllocation => { assert("Invalid device pointer"@[0] != "Memory allocation failed"@[0]); },
                CudaError::InitializationError => { assert("Invalid device pointer"@[2] != "Initialization error"@[2]); },
                CudaError::LaunchFailure => { assert("Invalid device pointer"@[0] != "Launch failed"@[0]); },
                CudaError::PriorLaunchFailure => { assert("Invalid device pointer"@[0] != "Prior launch failed"@[0]); },
                CudaError::LaunchTimeout => { assert("Invalid device pointer"@[0] != "Launch timeout"@[0]); },
                CudaError::LaunchOutOfResources => { assert("Invalid device pointer"@[0] != "Launch out of resources"@[0]); },
                CudaError::InvalidDevicePointer => {},
                CudaError::InvalidMemcpyDirection => { assert("Invalid device pointer"@[8] != "Invalid memcpy direction"@[8]); },
                CudaError::InsufficientDriver => { assert("Invalid device pointer"@[2] != "Insufficient driver version"@[2]); },
                CudaError::NoDevice => { assert("Invalid device pointer"@[0] != "No device found"@[0]); },
                CudaError::InvalidDevice => { assert("Invalid device pointer"@[15] != "Invalid device ordinal"@[15]); },
                CudaError::StartupFailure => { assert("Invalid device pointer"@[0] != "Startup failure"@[0]); },
                CudaError::ApiFailureBase => { assert("Invalid device pointer"@[0] != "API failure base"@[0]); },
                CudaError::Unknown => { assert("Invalid device pointer"@[0] != "Unknown error"@[0]); },
                CudaError::DeviceNotInitialized => { assert("Invalid device pointer"@[0] != "Device not initialized"@[0]); },
                CudaError::KernelCompilationFailed => { assert("Invalid device pointer"@[0] != "Kernel compilation failed"@[0]); },
                CudaError::PtxLoadFailed => { assert("Invalid device pointer"@[0] != "PTX load failed"@[0]); },
                CudaError::KernelLaunchFailed => { assert("Invalid device pointer"@[0] != "Kernel launch failed"@[0]); },
            }
        },
        CudaError::InvalidMemcpyDirection => {
            assert("Invalid memcpy direction"@.len() > 0);
            match e2 {
                CudaError::Success => { assert("Invalid memcpy direction"@[0] != "No error"@[0]); },
                CudaError::MissingConfiguration => { assert("Invalid memcpy direction"@[0] != "__global__ function call is not configured"@[0]); },
                CudaError::MemoryAllocation => { assert("Invalid memcpy direction"@[0] != "Memory allocation failed"@[0]); },
                CudaError::InitializationError => { assert("Invalid memcpy direction"@[2] != "Initialization error"@[2]); },
                CudaError::LaunchFailure => { assert("Invalid memcpy direction"@[0] != "Launch failed"@[0]); },
                CudaError::PriorLaunchFailure => { assert("Invalid memcpy direction"@[0] != "Prior launch failed"@[0]); },
                CudaError::LaunchTimeout => { assert("Invalid memcpy direction"@[0] != "Launch timeout"@[0]); },
                CudaError::LaunchOutOfResources => { assert("Invalid memcpy direction"@[0] != "Launch out of resources"@[0]); },
                CudaError::InvalidDevicePointer => { assert("Invalid memcpy direction"@[8] != "Invalid device pointer"@[8]); },
                CudaError::InvalidMemcpyDirection => {},
                CudaError::InsufficientDriver => { assert("Invalid memcpy direction"@[2] != "Insufficient driver version"@[2]); },
                CudaError::NoDevice => { assert("Invalid memcpy direction"@[0] != "No device found"@[0]); },
                CudaError::InvalidDevice => { assert("Invalid memcpy direction"@[8] != "Invalid device ordinal"@[8]); },
                CudaError::StartupFailure => { assert("Invalid memcpy direction"@[0] != "Startup failure"@[0]); },
                CudaError::ApiFailureBase => { assert("Invalid memcpy direction"@[0] != "API failure base"@[0]); },
                CudaError::Unknown => { assert("Invalid memcpy direction"@[0] != "Unknown error"@[0]); },
                CudaError::DeviceNotInitialized => { assert("Invalid memcpy direction"@[0] != "Device not initialized"@[0]); },
                CudaError::KernelCompilationFailed => { assert("Invalid memcpy direction"@[0] != "Kernel compilation failed"@[0]); },
                CudaError::PtxLoadFailed => { assert("Invalid memcpy direction"@[0] != "PTX load failed"@[0]); },
                CudaError::KernelLaunchFailed => { assert("Invalid memcpy direction"@[0] != "Kernel launch failed"@[0]); },
            }
        },
        CudaError::InsufficientDriver => {
            assert("Insufficient driver version"@.len() > 0);
            match e2 {
                CudaError::Success => { assert("Insufficient driver version"@[0] != "No error"@[0]); },
                CudaError::MissingConfiguration => { assert("Insufficient driver version"@[0] != "__global__ function call is not configured"@[0]); },
                CudaError::MemoryAllocation => { assert("Insufficient driver version"@[0] != "Memory allocation failed"@[0]); },
                CudaError::InitializationError => { assert("Insufficient driver version"@[2] != "Initialization error"@[2]); },
                CudaError::LaunchFailure => { assert("Insufficient driver version"@[0] != "Launch failed"@[0]); },
                CudaError::PriorLaunchFailure => { assert("Insufficient driver version"@[0] != "Prior launch failed"@[0]); },
                CudaError::LaunchTimeout => { assert("Insufficient driver version"@[0] != "Launch timeout"@[0]); },
                CudaError::LaunchOutOfResources => { assert("Insufficient driver version"@[0] != "Launch out of resources"@[0]); },
                CudaError::InvalidDevicePointer => { assert("Insufficient driver version"@[2] != "Invalid device pointer"@[2]); },
                CudaError::InvalidMemcpyDirection => { assert("Insufficient driver version"@[2] != "Invalid memcpy direction"@[2]); },
                CudaError::InsufficientDriver => {},
                CudaError::NoDevice => { assert("Insufficient driver version"@[0] != "No device found"@[0]); },
                CudaError::InvalidDevice => { assert("Insufficient driver version"@[2] != "Invalid device ordinal"@[2]); },
                CudaError::StartupFailure => { assert("Insufficient driver version"@[0] != "Startup failure"@[0]); },
                CudaError::ApiFailureBase => { assert("Insufficient driver version"@[0] != "API failure base"@[0]); },
                CudaError::Unknown => { assert("Insufficient driver version"@[0] != "Unknown error"@[0]); },
                CudaError::DeviceNotInitialized => { assert("Insufficient driver version"@[0] != "Device not initialized"@[0]); },
                CudaError::KernelCompilationFailed => { assert("Insufficient driver version"@[0] != "Kernel compilation failed"@[0]); },
                CudaError::PtxLoadFailed => { assert("Insufficient driver version"@[0] != "PTX load failed"@[0]); },
                CudaError::KernelLaunchFailed => { assert("Insufficient driver version"@[0] != "Kernel launch failed"@[0]); },
            }
        },
        CudaError::NoDevice => {
            assert("No device found"@.len() > 0);
            match e2 {
                CudaError::Success => { assert("No device found"@[3] != "No error"@[3]); },
                CudaError::MissingConfiguration => { assert("No device found"@[0] != "__global__ function call is not configured"@[0]); },
                CudaError::MemoryAllocation => { assert("No device found"@[0] != "Memory allocation failed"@[0]); },
                CudaError::InitializationError => { assert("No device found"@[0] != "Initialization error"@[0]); },
                CudaError::LaunchFailure => { assert("No device found"@[0] != "Launch failed"@[0]); },
                CudaError::PriorLaunchFailure => { assert("No device found"@[0] != "Prior launch failed"@[0]); },
                CudaError::LaunchTimeout => { assert("No device found"@[0] != "Launch timeout"@[0]); },
                CudaError::LaunchOutOfResources => { assert("No device found"@[0] != "Launch out of resources"@[0]); },
                CudaError::InvalidDevicePointer => { assert("No device found"@[0] != "Invalid device pointer"@[0]); },
                CudaError::InvalidMemcpyDirection => { assert("No device found"@[0] != "Invalid memcpy direction"@[0]); },
                CudaError::InsufficientDriver => { assert("No device found"@[0] != "Insufficient driver version"@[0]); },
                CudaError::NoDevice => {},
                CudaError::InvalidDevice => { assert("No device found"@[0] != "Invalid device ordinal"@[0]); },
                CudaError::StartupFailure => { assert("No device found"@[0] != "Startup failure"@[0]); },
                CudaError::ApiFailureBase => { assert("No device found"@[0] != "API failure base"@[0]); },
                CudaError::Unknown => { assert("No device found"@[0] != "Unknown error"@[0]); },
                CudaError::DeviceNotInitialized => { assert("No device found"@[0] != "Device not initialized"@[0]); },
                CudaError::KernelCompilationFailed => { assert("No device found"@[0] != "Kernel compilation failed"@[0]); },
                CudaError::PtxLoadFailed => { assert("No device found"@[0] != "PTX load failed"@[0]); },
                CudaError::KernelLaunchFailed => { assert("No device found"@[0] != "Kernel launch failed"@[0]); },
            }
        },
        CudaError::InvalidDevice => {
            assert("Invalid device ordinal"@.len() > 0);
            match e2 {
                CudaError::Success => { assert("Invalid device ordinal"@[0] != "No error"@[0]); },
                CudaError::MissingConfiguration => { assert("Invalid device ordinal"@[0] != "__global__ function call is not configured"@[0]); },
                CudaError::MemoryAllocation => { assert("Invalid device ordinal"@[0] != "Memory allocation failed"@[0]); },
                CudaError::InitializationError => { assert("Invalid device ordinal"@[2] != "Initialization error"@[2]); },
                CudaError::LaunchFailure => { assert("Invalid device ordinal"@[0] != "Launch failed"@[0]); },
                CudaError::PriorLaunchFailure => { assert("Invalid device ordinal"@[0] != "Prior launch failed"@[0]); },
                CudaError::LaunchTimeout => { assert("Invalid device ordinal"@[0] != "Launch timeout"@[0]); },
                CudaError::LaunchOutOfResources => { assert("Invalid device ordinal"@[0] != "Launch out of resources"@[0]); },
                CudaError::InvalidDevicePointer => { assert("Invalid device ordinal"@[15] != "Invalid device pointer"@[15]); },
                CudaError::InvalidMemcpyDirection => { assert("Invalid device ordinal"@[8] != "Invalid memcpy direction"@[8]); },
                CudaError::InsufficientDriver => { assert("Invalid device ordinal"@[2] != "Insufficient driver version"@[2]); },
                CudaError::NoDevice => { assert("Invalid device ordinal"@[0] != "No device found"@[0]); },
                CudaError::InvalidDevice => {},
                CudaError::StartupFailure => { assert("Invalid device ordinal"@[0] != "Startup failure"@[0]); },
                CudaError::ApiFailureBase => { assert("Invalid device ordinal"@[0] != "API failure base"@[0]); },
                CudaError::Unknown => { assert("Invalid device ordinal"@[0] != "Unknown error"@[0]); },
                CudaError::DeviceNotInitialized => { assert("Invalid device ordinal"@[0] != "Device not initialized"@[0]); },
                CudaError::KernelCompilationFailed => { assert("Invalid device ordinal"@[0] != "Kernel compilation failed"@[0]); },
                CudaError::PtxLoadFailed => { assert("Invalid device ordinal"@[0] != "PTX load failed"@[0]); },
                CudaError::KernelLaunchFailed => { assert("Invalid device ordinal"@[0] != "Kernel launch failed"@[0]); },
            }
        },
        CudaError::StartupFailure => {
            assert("Startup failure"@.len() > 0);
            match e2 {
                CudaError::Success => { assert("Startup failure"@[0] != "No error"@[0]); },
                CudaError::MissingConfiguration => { assert("Startup failure"@[0] != "__global__ function call is not configured"@[0]); },
                CudaError::MemoryAllocation => { assert("Startup failure"@[0] != "Memory allocation failed"@[0]); },
                CudaError::InitializationError => { assert("Startup failure"@[0] != "Initialization error"@[0]); },
                CudaError::LaunchFailure => { assert("Startup failure"@[0] != "Launch failed"@[0]); },
                CudaError::PriorLaunchFailure => { assert("Startup failure"@[0] != "Prior launch failed"@[0]); },
                CudaError::LaunchTimeout => { assert("Startup failure"@[0] != "Launch timeout"@[0]); },
                CudaError::LaunchOutOfResources => { assert("Startup failure"@[0] != "Launch out of resources"@[0]); },
                CudaError::InvalidDevicePointer => { assert("Startup failure"@[0] != "Invalid device pointer"@[0]); },
                CudaError::InvalidMemcpyDirection => { assert("Startup failure"@[0] != "Invalid memcpy direction"@[0]); },
                CudaError::InsufficientDriver => { assert("Startup failure"@[0] != "Insufficient driver version"@[0]); },
                CudaError::NoDevice => { assert("Startup failure"@[0] != "No device found"@[0]); },
                CudaError::InvalidDevice => { assert("Startup failure"@[0] != "Invalid device ordinal"@[0]); },
                CudaError::StartupFailure => {},
                CudaError::ApiFailureBase => { assert("Startup failure"@[0] != "API failure base"@[0]); },
                CudaError::Unknown => { assert("Startup failure"@[0] != "Unknown error"@[0]); },
                CudaError::DeviceNotInitialized => { assert("Startup failure"@[0] != "Device not initialized"@[0]); },
                CudaError::KernelCompilationFailed => { assert("Startup failure"@[0] != "Kernel compilation failed"@[0]); },
                CudaError::PtxLoadFailed => { assert("Startup failure"@[0] != "PTX load failed"@[0]); },
                CudaError::KernelLaunchFailed => { assert("Startup failure"@[0] != "Kernel launch failed"@[0]); },
            }
        },
        CudaError::ApiFailureBase => {
            assert("API failure base"@.len() > 0);
            match e2 {
                CudaError::Success => { assert("API failure base"@[0] != "No error"@[0]); },
                CudaError::MissingConfiguration => { assert("API failure base"@[0] != "__global__ function call is not configured"@[0]); },
                CudaError::MemoryAllocation => { assert("API failure base"@[0] != "Memory allocation failed"@[0]); },
                CudaError::InitializationError => { assert("API failure base"@[0] != "Initialization error"@[0]); },
                CudaError::LaunchFailure => { assert("API failure base"@[0] != "Launch failed"@[0]); },
                CudaError::PriorLaunchFailure => { assert("API failure base"@[0] != "Prior launch failed"@[0]); },
                CudaError::LaunchTimeout => { assert("API failure base"@[0] != "Launch timeout"@[0]); },
                CudaError::LaunchOutOfResources => { assert("API failure base"@[0] != "Launch out of resources"@[0]); },
                CudaError::InvalidDevicePointer => { assert("API failure base"@[0] != "Invalid device pointer"@[0]); },
                CudaError::InvalidMemcpyDirection => { assert("API failure base"@[0] != "Invalid memcpy direction"@[0]); },
                CudaError::InsufficientDriver => { assert("API failure base"@[0] != "Insufficient driver version"@[0]); },
                CudaError::NoDevice => { assert("API failure base"@[0] != "No device found"@[0]); },
                CudaError::InvalidDevice => { assert("API failure base"@[0] != "Invalid device ordinal"@[0]); },
                CudaError::StartupFailure => { assert("API failure base"@[0] != "Startup failure"@[0]); },
                CudaError::ApiFailureBase => {},
                CudaError::Unknown => { assert("API failure base"@[0] != "Unknown error"@[0]); },
                CudaError::DeviceNotInitialized => { assert("API failure base"@[0] != "Device not initialized"@[0]); },
                CudaError::KernelCompilationFailed => { assert("API failure base"@[0] != "Kernel compilation failed"@[0]); },
                CudaError::PtxLoadFailed => { assert("API failure base"@[0] != "PTX load failed"@[0]); },
                CudaError::KernelLaunchFailed => { assert("API failure base"@[0] != "Kernel launch failed"@[0]); },
            }
        },
        CudaError::Unknown => {
            assert("Unknown error"@.len() > 0);
            match e2 {
                CudaError::Success => { assert("Unknown error"@[0] != "No error"@[0]); },
                CudaError::MissingConfiguration => { assert("Unknown error"@[0] != "__global__ function call is not configured"@[0]); },
                CudaError::MemoryAllocation => { assert("Unknown error"@[0] != "Memory allocation failed"@[0]); },
                CudaError::InitializationError => { assert("Unknown error"@[0] != "Initialization error"@[0]); },
                CudaError::LaunchFailure => { assert("Unknown error"@[0] != "Launch failed"@[0]); },
                CudaError::PriorLaunchFailure => { assert("Unknown error"@[0] != "Prior launch failed"@[0]); },
                CudaError::LaunchTimeout => { assert("Unknown error"@[0] != "Launch timeout"@[0]); },
                CudaError::LaunchOutOfResources => { assert("Unknown error"@[0] != "Launch out of resources"@[0]); },
                CudaError::InvalidDevicePointer => { assert("Unknown error"@[0] != "Invalid device pointer"@[0]); },
                CudaError::InvalidMemcpyDirection => { assert("Unknown error"@[0] != "Invalid memcpy direction"@[0]); },
                CudaError::InsufficientDriver => { assert("Unknown error"@[0] != "Insufficient driver version"@[0]); },
                CudaError::NoDevice => { assert("Unknown error"@[0] != "No device found"@[0]); },
                CudaError::InvalidDevice => { assert("Unknown error"@[0] != "Invalid device ordinal"@[0]); },
                CudaError::StartupFailure => { assert("Unknown error"@[0] != "Startup failure"@[0]); },
                CudaError::ApiFailureBase => { assert("Unknown error"@[0] != "API failure base"@[0]); },
                CudaError::Unknown => {},
                CudaError::DeviceNotInitialized => { assert("Unknown error"@[0] != "Device not initialized"@[0]); },
                CudaError::KernelCompilationFailed => { assert("Unknown error"@[0] != "Kernel compilation failed"@[0]); },
                CudaError::PtxLoadFailed => { assert("Unknown error"@[0] != "PTX load failed"@[0]); },
                CudaError::KernelLaunchFailed => { assert("Unknown error"@[0] != "Kernel launch failed"@[0]); },
            }
        },
        CudaError::DeviceNotInitialized => {
            assert("Device not initialized"@.len() > 0);
            match e2 {
                CudaError::Success => { assert("Device not initialized"@[0] != "No error"@[0]); },
                CudaError::MissingConfiguration => { assert("Device not initialized"@[0] != "__global__ function call is not configured"@[0]); },
                CudaError::MemoryAllocation => { assert("Device not initialized"@[0] != "Memory allocation failed"@[0]); },
                CudaError::InitializationError => { assert("Device not initialized"@[0] != "Initialization error"@[0]); },
                CudaError::LaunchFailure => { assert("Device not initialized"@[0] != "Launch failed"@[0]); },
                CudaError::PriorLaunchFailure => { assert("Device not initialized"@[0] != "Prior launch failed"@[0]); },
                CudaError::LaunchTimeout => { assert("Device not initialized"@[0] != "Launch timeout"@[0]); },
                CudaError::LaunchOutOfResources => { assert("Device not initialized"@[0] != "Launch out of resources"@[0]); },
                CudaError::InvalidDevicePointer => { assert("Device not initialized"@[0] != "Invalid device pointer"@[0]); },
                CudaError::InvalidMemcpyDirection => { assert("Device not initialized"@[0] != "Invalid memcpy direction"@[0]); },
                CudaError::InsufficientDriver => { assert("Device not initialized"@[0] != "Insufficient driver version"@[0]); },
                CudaError::NoDevice => { assert("Device not initialized"@[0] != "No device found"@[0]); },
                CudaError::InvalidDevice => { assert("Device not initialized"@[0] != "Invalid device ordinal"@[0]); },
                CudaError::StartupFailure => { assert("Device not initialized"@[0] != "Startup failure"@[0]); },
                CudaError::ApiFailureBase => { assert("Device not initialized"@[0] != "API failure base"@[0]); },
                CudaError::Unknown => { assert("Device not initialized"@[0] != "Unknown error"@[0]); },
                CudaError::DeviceNotInitialized => {},
                CudaError::KernelCompilationFailed => { assert("Device not initialized"@[0] != "Kernel compilation failed"@[0]); },
                CudaError::PtxLoadFailed => { assert("Device not initialized"@[0] != "PTX load failed"@[0]); },
                CudaError::KernelLaunchFailed => { assert("Device not initialized"@[0] != "Kernel launch failed"@[0]); },
            }
        },
        CudaError::KernelCompilationFailed => {
            assert("Kernel compilation failed"@.len() > 0);
            match e2 {
                CudaError::Success => { assert("Kernel compilation failed"@[0] != "No error"@[0]); },
                CudaError::MissingConfiguration => { assert("Kernel compilation failed"@[0] != "__global__ function call is not configured"@[0]); },
                CudaError::MemoryAllocation => { assert("Kernel compilation failed"@[0] != "Memory allocation failed"@[0]); },
                CudaError::InitializationError => { assert("Kernel compilation failed"@[0] != "Initialization error"@[0]); },
                CudaError::LaunchFailure => { assert("Kernel compilation failed"@[0] != "Launch failed"@[0]); },
                CudaError::PriorLaunchFailure => { assert("Kernel compilation failed"@[0] != "Prior launch failed"@[0]); },
                CudaError::LaunchTimeout => { assert("Kernel compilation failed"@[0] != "Launch timeout"@[0]); },
                CudaError::LaunchOutOfResources => { assert("Kernel compilation failed"@[0] != "Launch out of resources"@[0]); },
                CudaError::InvalidDevicePointer => { assert("Kernel compilation failed"@[0] != "Invalid device pointer"@[0]); },
                CudaError::InvalidMemcpyDirection => { assert("Kernel compilation failed"@[0] != "Invalid memcpy direction"@[0]); },
                CudaError::InsufficientDriver => { assert("Kernel compilation failed"@[0] != "Insufficient driver version"@[0]); },
                CudaError::NoDevice => { assert("Kernel compilation failed"@[0] != "No device found"@[0]); },
                CudaError::InvalidDevice => { assert("Kernel compilation failed"@[0] != "Invalid device ordinal"@[0]); },
                CudaError::StartupFailure => { assert("Kernel compilation failed"@[0] != "Startup failure"@[0]); },
                CudaError::ApiFailureBase => { assert("Kernel compilation failed"@[0] != "API failure base"@[0]); },
                CudaError::Unknown => { assert("Kernel compilation failed"@[0] != "Unknown error"@[0]); },
                CudaError::DeviceNotInitialized => { assert("Kernel compilation failed"@[0] != "Device not initialized"@[0]); },
                CudaError::KernelCompilationFailed => {},
                CudaError::PtxLoadFailed => { assert("Kernel compilation failed"@[0] != "PTX load failed"@[0]); },
                CudaError::KernelLaunchFailed => { assert("Kernel compilation failed"@[7] != "Kernel launch failed"@[7]); },
            }
        },
        CudaError::PtxLoadFailed => {
            assert("PTX load failed"@.len() > 0);
            match e2 {
                CudaError::Success => { assert("PTX load failed"@[0] != "No error"@[0]); },
                CudaError::MissingConfiguration => { assert("PTX load failed"@[0] != "__global__ function call is not configured"@[0]); },
                CudaError::MemoryAllocation => { assert("PTX load failed"@[0] != "Memory allocation failed"@[0]); },
                CudaError::InitializationError => { assert("PTX load failed"@[0] != "Initialization error"@[0]); },
                CudaError::LaunchFailure => { assert("PTX load failed"@[0] != "Launch failed"@[0]); },
                CudaError::PriorLaunchFailure => { assert("PTX load failed"@[1] != "Prior launch failed"@[1]); },
                CudaError::LaunchTimeout => { assert("PTX load failed"@[0] != "Launch timeout"@[0]); },
                CudaError::LaunchOutOfResources => { assert("PTX load failed"@[0] != "Launch out of resources"@[0]); },
                CudaError::InvalidDevicePointer => { assert("PTX load failed"@[0] != "Invalid device pointer"@[0]); },
                CudaError::InvalidMemcpyDirection => { assert("PTX load failed"@[0] != "Invalid memcpy direction"@[0]); },
                CudaError::InsufficientDriver => { assert("PTX load failed"@[0] != "Insufficient driver version"@[0]); },
                CudaError::NoDevice => { assert("PTX load failed"@[0] != "No device found"@[0]); },
                CudaError::InvalidDevice => { assert("PTX load failed"@[0] != "Invalid device ordinal"@[0]); },
                CudaError::StartupFailure => { assert("PTX load failed"@[0] != "Startup failure"@[0]); },
                CudaError::ApiFailureBase => { assert("PTX load failed"@[0] != "API failure base"@[0]); },
                CudaError::Unknown => { assert("PTX load failed"@[0] != "Unknown error"@[0]); },
                CudaError::DeviceNotInitialized => { assert("PTX load failed"@[0] != "Device not initialized"@[0]); },
                CudaError::KernelCompilationFailed => { assert("PTX load failed"@[0] != "Kernel compilation failed"@[0]); },
                CudaError::PtxLoadFailed => {},
                CudaError::KernelLaunchFailed => { assert("PTX load failed"@[0] != "Kernel launch failed"@[0]); },
            }
        },
        CudaError::KernelLaunchFailed => {
            assert("Kernel launch failed"@.len() > 0);
            match e2 {
                CudaError::Success => { assert("Kernel launch failed"@[0] != "No error"@[0]); },
                CudaError::MissingConfiguration => { assert("Kernel launch failed"@[0] != "__global__ function call is not configured"@[0]); },
                CudaError::MemoryAllocation => { assert("Kernel launch failed"@[0] != "Memory allocation failed"@[0]); },
                CudaError::InitializationError => { assert("Kernel launch failed"@[0] != "Initialization error"@[0]); },
                CudaError::LaunchFailure => { assert("Kernel launch failed"@[0] != "Launch failed"@[0]); },
                CudaError::PriorLaunchFailure => { assert("Kernel launch failed"@[0] != "Prior launch failed"@[0]); },
                CudaError::LaunchTimeout => { assert("Kernel launch failed"@[0] != "Launch timeout"@[0]); },
                CudaError::LaunchOutOfResources => { assert("Kernel launch failed"@[0] != "Launch out of resources"@[0]); },
                CudaError::InvalidDevicePointer => { assert("Kernel launch failed"@[0] != "Invalid device pointer"@[0]); },
                CudaError::InvalidMemcpyDirection => { assert("Kernel launch failed"@[0] != "Invalid memcpy direction"@[0]); },
                CudaError::InsufficientDriver => { assert("Kernel launch failed"@[0] != "Insufficient driver version"@[0]); },
                CudaError::NoDevice => { assert("Kernel launch failed"@[0] != "No device found"@[0]); },
                CudaError::InvalidDevice => { assert("Kernel launch failed"@[0] != "Invalid device ordinal"@[0]); },
                CudaError::StartupFailure => { assert("Kernel launch failed"@[0] != "Startup failure"@[0]); },
                CudaError::ApiFailureBase => { assert("Kernel launch failed"@[0] != "API failure base"@[0]); },
                CudaError::Unknown => { assert("Kernel launch failed"@[0] != "Unknown error"@[0]); },
                CudaError::DeviceNotInitialized => { assert("Kernel launch failed"@[0] != "Device not initialized"@[0]); },
                CudaError::KernelCompilationFailed => { assert("Kernel launch failed"@[7] != "Kernel compilation failed"@[7]); },
                CudaError::PtxLoadFailed => { assert("Kernel launch failed"@[0] != "PTX load failed"@[0]); },
                CudaError::KernelLaunchFailed => {},
            }
        },
    }
}

/// Kinds after which retrying is pointless.
pub open spec fn spec_is_recoverable(e: CudaError) -> bool {
    !(e is LaunchFailure || e is LaunchTimeout || e is StartupFailure || e is InsufficientDriver
        || e is NoDevice)
}

/// The text `Display` writes: `CUDA error <code>: <message>`.
pub open spec fn spec_display(e: CudaError) -> Seq<char> {
    "CUDA error "@ + signed_decimal(spec_code(e) as int) + ": "@ + spec_message(e)
}

impl CudaError {
    pub fn from_raw(code: i32) -> (r: Self)
        ensures
            r == spec_from_raw(code),
    {
        match code {
            0 => CudaError::Success,
            1 => CudaError::MissingConfiguration,
            2 => CudaError::MemoryAllocation,
            3 => CudaError::InitializationError,
            4 => CudaError::LaunchFailure,
            5 => CudaError::PriorLaunchFailure,
            6 => CudaError::LaunchTimeout,
            7 => CudaError::LaunchOutOfResources,
            8 => CudaError::InvalidDevicePointer,
            9 => CudaError::InvalidMemcpyDirection,
            35 => CudaError::InsufficientDriver,
            38 => CudaError::NoDevice,
            101 => CudaError::InvalidDevice,
            127 => CudaError::StartupFailure,
            10000 => CudaError::ApiFailureBase,
            _ => CudaError::Unknown,
        }
    }

    /// The numeric code of this kind.
    pub fn code(&self) -> (r: i32)
        ensures
            r == spec_code(*self),
    {
        match self {
            CudaError::Success => 0,
            CudaError::MissingConfiguration => 1,
            CudaError::MemoryAllocation => 2,
            CudaError::InitializationError => 3,
            CudaError::LaunchFailure => 4,
            CudaError::PriorLaunchFailure => 5,
            CudaError::LaunchTimeout => 6,
            CudaError::LaunchOutOfResources => 7,
            CudaError::InvalidDevicePointer => 8,
            CudaError::InvalidMemcpyDirection => 9,
            CudaError::InsufficientDriver => 35,
            CudaError::NoDevice => 38,
            CudaError::InvalidDevice => 101,
            CudaError::StartupFailure => 127,
            CudaError::ApiFailureBase => 10000,
            CudaError::Unknown => -1,
            CudaError::DeviceNotInitialized => 1000,
            CudaError::KernelCompilationFailed => 1001,
            CudaError::PtxLoadFailed => 1002,
            CudaError::KernelLaunchFailed => 1003,
        }
    }

    pub fn message(&self) -> (r: &'static str)
        ensures
            r@ == spec_message(*self),
    {
        proof {
            reveal_strlit("No error");
            reveal_strlit("__global__ function call is not configured");
            reveal_strlit("Memory allocation failed");
            reveal_strlit("Initialization error");
            reveal_strlit("Launch failed");
            reveal_strlit("Prior launch failed");
            reveal_strlit("Launch timeout");
            reveal_strlit("Launch out of resources");
            reveal_strlit("Invalid device pointer");
            reveal_strlit("Invalid memcpy direction");
            reveal_strlit("Insufficient driver version");
            reveal_strlit("No device found");
            reveal_strlit("Invalid device ordinal");
            reveal_strlit("Startup failure");
            reveal_strlit("API failure base");
            reveal_strlit("Unknown error");
            reveal_strlit("Device not initialized");
            reveal_strlit("Kernel compilation failed");
            reveal_strlit("PTX load failed");
            reveal_strlit("Kernel launch failed");
        }
        match self {
            CudaError::Success => "No error",
            CudaError::MissingConfiguration => "__global__ function call is not configured",
            CudaError::MemoryAllocation => "Memory allocation failed",
            CudaError::InitializationError => "Initialization error",
            CudaError::LaunchFailure => "Launch failed",
            CudaError::PriorLaunchFailure => "Prior launch failed",
            CudaError::LaunchTimeout => "Launch timeout",
            CudaError::LaunchOutOfResources => "Launch out of resources",
            CudaError::InvalidDevicePointer => "Invalid device pointer",
            CudaError::InvalidMemcpyDirection => "Invalid memcpy direction",
            CudaError::InsufficientDriver => "Insufficient driver version",
            CudaError::NoDevice => "No device found",
            CudaError::InvalidDevice => "Invalid device ordinal",
            CudaError::StartupFailure => "Startup failure",
            CudaError::ApiFailureBase => "API failure base",
            CudaError::Unknown => "Unknown error",
            CudaError::DeviceNotInitialized => "Device not initialized",
            CudaError::KernelCompilationFailed => "Kernel compilation failed",
            CudaError::PtxLoadFailed => "PTX load failed",
            CudaError::KernelLaunchFailed => "Kernel launch failed",
        }
    }

    pub fn is_success(&self) -> (r: bool)
        ensures
            r == (*self is Success),
    {
        match self {
            CudaError::Success => true,
            _ => false,
        }
    }

    pub fn is_recoverable(&self) -> (r: bool)
        ensures
            r == spec_is_recoverable(*self),
    {
        match self {
            CudaError::LaunchFailure | CudaError::LaunchTimeout | CudaError::StartupFailure
            | CudaError::InsufficientDriver | CudaError::NoDevice => false,
            _ => true,
        }
    }

    pub fn is_oom(&self) -> (r: bool)
        ensures
            r == (*self is MemoryAllocation || *self is LaunchOutOfResources),
    {
        match self {
            CudaError::MemoryAllocation | CudaError::LaunchOutOfResources => true,
            _ => false,
        }
    }

    pub fn is_timeout(&self) -> (r: bool)
        ensures
            r == (*self is LaunchTimeout),
    {
        match self {
            CudaError::LaunchTimeout => true,
            _ => false,
        }
    }

    /// The text `Display` writes for this error.
    pub fn to_string(&self) -> (r: String)
        ensures
            r@ == spec_display(*self),
    {
        let mut s = String::from_str("CUDA error ");
        s.append(i32_to_string(self.code()).as_str());
        s.append(": ");
        s.append(self.message());
        proof {
            reveal_strlit("CUDA error ");
            reveal_strlit(": ");
            assert(s@ =~= spec_display(*self));
        }
        s
    }
}

/// Every kind that has a driver code is recovered from that code.
pub proof fn lemma_from_raw_code(e: CudaError)
    requires
        !(e is DeviceNotInitialized || e is KernelCompilationFailed || e is PtxLoadFailed
            || e is KernelLaunchFailed),
    ensures
        spec_from_raw(spec_code(e)) == e,
{
}

/// The kind named in an error message, by the first key phrase it holds.
pub open spec fn spec_parse_cuda_error(msg: Seq<char>) -> CudaError {
    if has_substring(msg, "out of memory"@) || has_substring(msg, "OOM"@) {
        CudaError::MemoryAllocation
    } else if has_substring(msg, "timeout"@) {
        CudaError::LaunchTimeout
    } else if has_substring(msg, "invalid device"@) {
        CudaError::InvalidDevice
    } else if has_substring(msg, "insufficient driver"@) {
        CudaError::InsufficientDriver
    } else if has_substring(msg, "no device"@) {
        CudaError::NoDevice
    } else if has_substring(msg, "compilation"@) || has_substring(msg, "compile"@) {
        CudaError::KernelCompilationFailed
    } else if has_substring(msg, "PTX"@) || has_substring(msg, "ptx"@) {
        CudaError::PtxLoadFailed
    } else if has_substring(msg, "launch"@) {
        CudaError::KernelLaunchFailed
    } else {
        CudaError::Unknown
    }
}

/// Classifies an error message by the key phrases it holds.
fn parse_cuda_error(msg: &str) -> (r: CudaError)
    ensures
        r == spec_parse_cuda_error(msg@),
{
    proof {
        reveal_strlit("out of memory");
        reveal_strlit("OOM");
        reveal_strlit("timeout");
        reveal_strlit("invalid device");
        reveal_strlit("insufficient driver");
        reveal_strlit("no device");
        reveal_strlit("compilation");
        reveal_strlit("compile");
        reveal_strlit("PTX");
        reveal_strlit("ptx");
        reveal_strlit("launch");
    }
    if contains(msg, "out of memory") || contains(msg, "OOM") {
        CudaError::MemoryAllocation
    } else if contains(msg, "timeout") {
        CudaError::LaunchTimeout
    } else if contains(msg, "invalid device") {
        CudaError::InvalidDevice
    } else if contains(msg, "insufficient driver") {
        CudaError::InsufficientDriver
    } else if contains(msg, "no device") {
        CudaError::NoDevice
    } else if contains(msg, "compilation") || contains(msg, "compile") {
        CudaError::KernelCompilationFailed
    } else if contains(msg, "PTX") || contains(msg, "ptx") {
        CudaError::PtxLoadFailed
    } else if contains(msg, "launch") {
        CudaError::KernelLaunchFailed
    } else {
        CudaError::Unknown
    }
}

/// Classifying a failure message: a message naming an out-of-memory
/// condition ("out of memory" or "OOM") is a memory allocation failure
/// (driver code 2), whatever else it says; a memory allocation failure is
/// reported for no other message. The other phrases are tried in order:
/// "timeout" gives a launch timeout (code 6), "invalid device" an invalid
/// device (101), "insufficient driver" an insufficient driver (35), "no
/// device" no device (38), "compilation"/"compile" a kernel compilation
/// failure (1001), "PTX"/"ptx" a PTX load failure (1002), "launch" a kernel
/// launch failure (1003); a message with none of them is unknown (-1).
pub proof fn lemma_failure_classification(msg: Seq<char>)
    ensures
        ({
            let oom = has_substring(msg, "out of memory"@) || has_substring(msg, "OOM"@);
            let k = spec_parse_cuda_error(msg);
            &&& oom ==> k == CudaError::MemoryAllocation && spec_code(k) == 2
            &&& (k == CudaError::MemoryAllocation) == oom
            &&& !oom && has_substring(msg, "timeout"@) ==> k == CudaError::LaunchTimeout && spec_code(k) == 6
            &&& k == CudaError::LaunchTimeout ==> has_substring(msg, "timeout"@)
            &&& k == CudaError::InvalidDevice ==> has_substring(msg, "invalid device"@) && spec_code(k) == 101
            &&& k == CudaError::InsufficientDriver ==> has_substring(msg, "insufficient driver"@) && spec_code(k) == 35
            &&& k == CudaError::NoDevice ==> has_substring(msg, "no device"@) && spec_code(k) == 38
            &&& k == CudaError::KernelCompilationFailed ==> (has_substring(msg, "compilation"@) || has_substring(msg, "compile"@))
            &&& k == CudaError::PtxLoadFailed ==> (has_substring(msg, "PTX"@) || has_substring(msg, "ptx"@))
            &&& k == CudaError::KernelLaunchFailed ==> has_substring(msg, "launch"@)
            &&& k == CudaError::Unknown ==> !oom && !has_substring(msg, "timeout"@) && !has_substring(msg, "launch"@)
                && spec_code(k) == -1
            &&& (k is MemoryAllocation || k is LaunchTimeout || k is InvalidDevice || k is InsufficientDriver
                || k is NoDevice || k is KernelCompilationFailed || k is PtxLoadFailed || k is KernelLaunchFailed
                || k is Unknown)
        }),
{
}

/// The text a failure message with an out-of-memory phrase is reported
/// with: `CUDA error 2: Memory allocation failed: <message>`.
pub proof fn lemma_out_of_memory_report(msg: Seq<char>)
    requires
        has_substring(msg, "out of memory"@) || has_substring(msg, "OOM"@),
    ensures
        spec_display(spec_parse_cuda_error(msg)) + ": "@ + msg == "CUDA error 2: Memory allocation failed: "@ + msg,
{
    reveal_strlit("CUDA error ");
    reveal_strlit(": ");
    reveal_strlit("Memory allocation failed");
    reveal_strlit("CUDA error 2: Memory allocation failed: ");
    assert(signed_decimal(2) =~= seq!['2']);
    assert(spec_display(CudaError::MemoryAllocation) + ": "@ =~= "CUDA error 2: Memory allocation failed: "@);
}

/// Passes a success through; turns a failure, given by its message, into
/// `OxideError::CudaError("<kind display>: <message>")`, the kind being the
/// one the message's key phrases name.
pub fn check_cuda<T>(result: Result<T, String>) -> (r: Result<T, OxideError>)
    ensures
        result matches Ok(v) ==> r == Ok::<T, OxideError>(v),
        result matches Err(msg) ==> (r matches Err(OxideError::CudaError(m))
            && m@ == spec_display(spec_parse_cuda_error(msg@)) + ": "@ + msg@),
{
    match result {
        Ok(val) => Ok(val),
        Err(msg) => {
            let cuda_err = parse_cuda_error(msg.as_str());
            let mut m = cuda_err.to_string();
            m.append(": ");
            m.append(msg.as_str());
            proof {
                reveal_strlit(": ");
            }
            Err(OxideError::CudaError(m))
        },
    }
}

/// Result type for CUDA operations
pub type CudaResult<T> = Result<T, String>;

/// How to react to a CUDA error.
#[derive(Debug, Clone, Copy, PartialEq, Eq, Structural)]
pub enum RecoveryStrategy {
    /// Retry the operation
    Retry { max_attempts: usize },
    /// Fall back to CPU implementation
    FallbackToCpu,
    /// Reduce batch size and retry
    ReduceBatchSize { min_batch: usize },
    /// Clear memory cache and retry
    ClearCache,
    /// Reset device context
    ResetContext,
    /// Abort with error
    Abort,
}

/// The strategy chosen for each error kind.
pub open spec fn spec_strategy_for(e: CudaError) -> RecoveryStrategy {
    match e {
        CudaError::MemoryAllocation => RecoveryStrategy::ClearCache,
        CudaError::LaunchOutOfResources => RecoveryStrategy::ReduceBatchSize { min_batch: 1 },
        CudaError::LaunchTimeout => RecoveryStrategy::Retry { max_attempts: 3 },
        CudaError::LaunchFailure => RecoveryStrategy::ResetContext,
        CudaError::Unknown => RecoveryStrategy::FallbackToCpu,
        _ => RecoveryStrategy::Abort,
    }
}

/// Which strategy each error gets: clearing the cache exactly for a memory
/// allocation failure, a smaller batch (down to 1) exactly when a launch ran
/// out of resources, three retries exactly for a launch timeout, a context
/// reset exactly for a launch failure, the CPU fallback exactly for an
/// unknown error, and an abort for every other kind. So a launch failure is
/// recovered (the operation runs again after the reset), never aborted.
pub proof fn lemma_strategy_choice(e: CudaError)
    ensures
        (spec_strategy_for(e) == RecoveryStrategy::ClearCache) == (e == CudaError::MemoryAllocation),
        (spec_strategy_for(e) == RecoveryStrategy::ReduceBatchSize { min_batch: 1 }) == (e == CudaError::LaunchOutOfResources),
        (spec_strategy_for(e) is ReduceBatchSize) == (e == CudaError::LaunchOutOfResources),
        (spec_strategy_for(e) == RecoveryStrategy::Retry { max_attempts: 3 }) == (e == CudaError::LaunchTimeout),
        (spec_strategy_for(e) is Retry) == (e == CudaError::LaunchTimeout),
        (spec_strategy_for(e) == RecoveryStrategy::ResetContext) == (e == CudaError::LaunchFailure),
        (spec_strategy_for(e) == RecoveryStrategy::FallbackToCpu) == (e == CudaError::Unknown),
        (spec_strategy_for(e) == RecoveryStrategy::Abort) == !(e is MemoryAllocation || e is LaunchOutOfResources
            || e is LaunchTimeout || e is LaunchFailure || e is Unknown),
{
}

/// One step of applying a recovery strategy.
#[derive(Debug)]
pub enum RecoveryStep {
    /// Wait 100 ms, then run the operation once more and return its result.
    WaitThenRun,
    /// Run the operation once more and return its result.
    Run,
    /// Give up with `OxideError::CudaError` and this message.
    Fail(String),
}

impl RecoveryStrategy {
    pub fn from_error(error: &CudaError) -> (r: Self)
        ensures
            r == spec_strategy_for(*error),
    {
        match error {
            CudaError::MemoryAllocation => RecoveryStrategy::ClearCache,
            CudaError::LaunchOutOfResources => RecoveryStrategy::ReduceBatchSize { min_batch: 1 },
            CudaError::LaunchTimeout => RecoveryStrategy::Retry { max_attempts: 3 },
            CudaError::LaunchFailure => RecoveryStrategy::ResetContext,
            CudaError::Unknown => RecoveryStrategy::FallbackToCpu,
            _ => RecoveryStrategy::Abort,
        }
    }

    /// What applying this strategy at attempt `current_attempt` does: a retry
    /// below its attempt limit waits and runs again, at the limit it fails
    /// with `Failed after <n> attempts`; falling back to the CPU fails with
    /// `Falling back to CPU`; aborting fails with `Fatal CUDA error,
    /// aborting`; every other strategy runs the operation again at once.
    pub fn plan(&self, current_attempt: usize) -> (r: RecoveryStep)
        ensures
            match *self {
                RecoveryStrategy::Retry { max_attempts } => if current_attempt < max_attempts {
                    r is WaitThenRun
                } else {
                    r matches RecoveryStep::Fail(m) && m@ == "Failed after "@ + crate::text::decimal(max_attempts as nat) + " attempts"@
                },
                RecoveryStrategy::FallbackToCpu => r matches RecoveryStep::Fail(m) && m@ == "Falling back to CPU"@,
                RecoveryStrategy::Abort => r matches RecoveryStep::Fail(m) && m@ == "Fatal CUDA error, aborting"@,
                _ => r is Run,
            },
    {
        proof {
            reveal_strlit("Failed after ");
            reveal_strlit(" attempts");
            reveal_strlit("Falling back to CPU");
            reveal_strlit("Fatal CUDA error, aborting");
        }
        match self {
            RecoveryStrategy::Retry { max_attempts } => {
                if current_attempt < *max_attempts {
                    RecoveryStep::WaitThenRun
                } else {
                    let mut m = String::from_str("Failed after ");
                    m.append(crate::text::usize_to_string(*max_attempts).as_str());
                    m.append(" attempts");
                    proof {
                        assert(m@ =~= "Failed after "@ + crate::text::decimal(*max_attempts as nat) + " attempts"@);
                    }
                    RecoveryStep::Fail(m)
                }
            },
            RecoveryStrategy::FallbackToCpu => RecoveryStep::Fail(String::from_str("Falling back to CPU")),
            RecoveryStrategy::Abort => RecoveryStep::Fail(String::from_str("Fatal CUDA error, aborting")),
            RecoveryStrategy::ReduceBatchSize { .. } | RecoveryStrategy::ClearCache
            | RecoveryStrategy::ResetContext => RecoveryStep::Run,
        }
    }
}

/// What was going on when an error happened.
#[derive(Debug)]
pub struct ErrorContext {
    pub operation: String,
    pub device_id: usize,
    pub stream_id: Option<usize>,
    pub kernel_name: Option<String>,
    pub allocated_bytes: usize,
}

impl ErrorContext {
    pub fn new(operation: &str, device_id: usize) -> (r: Self)
        ensures
            r.operation@ == operation@,
            r.device_id == device_id,
            r.stream_id is None,
            r.kernel_name is None,
            r.allocated_bytes == 0,
    {
        Self {
            operation: String::from_str(operation),
            device_id,
            stream_id: None,
            kernel_name: None,
            allocated_bytes: 0,
        }
    }

    pub fn with_stream(self, stream_id: usize) -> (r: Self)
        ensures
            r.operation == self.operation,
            r.device_id == self.device_id,
            r.stream_id == Some(stream_id),
            r.kernel_name == self.kernel_name,
            r.allocated_bytes == self.allocated_bytes,
    {
        let mut s = self;
        s.stream_id = Some(stream_id);
        s
    }

    pub fn with_kernel(self, name: &str) -> (r: Self)
        ensures
            r.operation == self.operation,
            r.device_id == self.device_id,
            r.stream_id == self.stream_id,
            r.kernel_name matches Some(k) && k@ == name@,
            r.allocated_bytes == self.allocated_bytes,
    {
        let mut s = self;
        s.kernel_name = Some(String::from_str(name));
        s
    }

    pub fn with_memory(self, bytes: usize) -> (r: Self)
        ensures
            r.operation == self.operation,
            r.device_id == self.device_id,
            r.stream_id == self.stream_id,
            r.kernel_name == self.kernel_name,
            r.allocated_bytes == bytes,
    {
        let mut s = self;
        s.allocated_bytes = bytes;
        s
    }
}

/// The distinct kinds of `s`, in order of first appearance.
pub open spec fn distinct_kinds(s: Seq<CudaError>) -> Seq<CudaError>
    decreases s.len(),
{
    if s.len() == 0 {
        Seq::empty()
    } else {
        let d = distinct_kinds(s.drop_last());
        if d.contains(s.last()) { d } else { d.push(s.last()) }
    }
}

/// How many times `e` occurs in `s`.
pub open spec fn occurrences(s: Seq<CudaError>, e: CudaError) -> nat
    decreases s.len(),
{
    if s.len() == 0 {
        0
    } else {
        occurrences(s.drop_last(), e) + if s.last() == e { 1nat } else { 0nat }
    }
}

/// A bounded history of logged CUDA errors, oldest first.
pub struct ErrorLogger {
    history: Vec<(std::time::Instant, CudaError, ErrorContext)>,
    max_history: usize,
}

impl ErrorLogger {
    /// The history never holds more than `max_history` entries.
    #[verifier::type_invariant]
    closed spec fn bounded(self) -> bool {
        self.history@.len() <= self.max_history
    }

    /// The logged errors, oldest first.
    pub closed spec fn kinds(&self) -> Seq<CudaError> {
        self.history@.map_values(|x: (std::time::Instant, CudaError, ErrorContext)| x.1)
    }

    /// The contexts of the logged errors, oldest first.
    pub closed spec fn contexts(&self) -> Seq<ErrorContext> {
        self.history@.map_values(|x: (std::time::Instant, CudaError, ErrorContext)| x.2)
    }

    /// How many entries are kept.
    pub closed spec fn capacity(&self) -> usize {
        self.max_history
    }

    pub fn new(max_history: usize) -> (r: Self)
        ensures
            r.kinds() == Seq::<CudaError>::empty(),
            r.contexts() == Seq::<ErrorContext>::empty(),
            r.capacity() == max_history,
    {
        let r = Self { history: Vec::new(), max_history };
        assert(r.kinds() =~= Seq::<CudaError>::empty());
        assert(r.contexts() =~= Seq::<ErrorContext>::empty());
        r
    }

    /// Appends an entry stamped with the current time; when that makes the
    /// history longer than its bound, the oldest entry is dropped.
    pub fn log(&mut self, error: CudaError, context: ErrorContext)
        ensures
            final(self).capacity() == old(self).capacity(),
            old(self).kinds().len() + 1 > old(self).capacity() ==> {
                &&& final(self).kinds() == old(self).kinds().push(error).drop_first()
                &&& final(self).contexts() == old(self).contexts().push(context).drop_first()
            },
            old(self).kinds().len() + 1 <= old(self).capacity() ==> {
                &&& final(self).kinds() == old(self).kinds().push(error)
                &&& final(self).contexts() == old(self).contexts().push(context)
            },
            final(self).kinds().len() <= final(self).capacity(),
    {
        proof {
            use_type_invariant(&*self);
        }
        let ghost old_h = self.history@;
        let mut h = Vec::new();
        std::mem::swap(&mut h, &mut self.history);
        h.push((instant_now(), error, context));
        if h.len() > self.max_history {
            h.remove(0);
        }
        self.history = h;
        proof {
            let f = |x: (std::time::Instant, CudaError, ErrorContext)| x.1;
            let g = |x: (std::time::Instant, CudaError, ErrorContext)| x.2;
            assert(old_h.len() + 1 > self.max_history ==> self.history@.map_values(f) =~= old_h.map_values(f).push(error).drop_first());
            assert(old_h.len() + 1 > self.max_history ==> self.history@.map_values(g) =~= old_h.map_values(g).push(context).drop_first());
            assert(old_h.len() + 1 <= self.max_history ==> self.history@.map_values(f) =~= old_h.map_values(f).push(error));
            assert(old_h.len() + 1 <= self.max_history ==> self.history@.map_values(g) =~= old_h.map_values(g).push(context));
        }
    }

    /// The last `count` entries (all of them when there are fewer), oldest
    /// first.
    pub fn recent(&self, count: usize) -> (r: &[(std::time::Instant, CudaError, ErrorContext)])
        ensures
            ({
                let n = self.kinds().len();
                let start = if count >= n { 0 } else { n - count };
                &&& r@.map_values(|x: (std::time::Instant, CudaError, ErrorContext)| x.1) == self.kinds().subrange(start as int, n as int)
                &&& r@.map_values(|x: (std::time::Instant, CudaError, ErrorContext)| x.2) == self.contexts().subrange(start as int, n as int)
            }),
    {
        let n = self.history.len();
        let start = n.saturating_sub(count);
        let r = vstd::slice::slice_subrange(self.history.as_slice(), start, n);
        proof {
            let f = |x: (std::time::Instant, CudaError, ErrorContext)| x.1;
            let g = |x: (std::time::Instant, CudaError, ErrorContext)| x.2;
            assert(r@.map_values(f) =~= self.kinds().subrange(start as int, n as int));
            assert(r@.map_values(g) =~= self.contexts().subrange(start as int, n as int));
        }
        r
    }

    /// Each distinct logged kind, in order of first appearance, with the
    /// number of times it occurs in the history.
    pub fn error_frequency(&self) -> (r: Vec<(CudaError, usize)>)
        ensures
            r@.map_values(|p: (CudaError, usize)| p.0) == distinct_kinds(self.kinds()),
            forall|i: int| 0 <= i < r@.len() ==> r@[i].1 == occurrences(self.kinds(), #[trigger] r@[i].0),
    {
        proof {
            use_type_invariant(self);
        }
        let ghost ks = self.kinds();
        let mut freq: Vec<(CudaError, usize)> = Vec::new();
        let mut i: usize = 0;
        assert(ks.take(0) =~= Seq::<CudaError>::empty());
        assert(freq@.map_values(|p: (CudaError, usize)| p.0) =~= Seq::<CudaError>::empty());
        while i < self.history.len()
            invariant
                ks == self.kinds(),
                ks.len() == self.history@.len(),
                i <= ks.len(),
                ks.len() <= usize::MAX,
                freq@.map_values(|p: (CudaError, usize)| p.0) == distinct_kinds(ks.take(i as int)),
                forall|j: int| 0 <= j < freq@.len() ==> freq@[j].1 == occurrences(ks.take(i as int), #[trigger] freq@[j].0),
                forall|j: int| 0 <= j < freq@.len() ==> #[trigger] freq@[j].1 <= i,
                forall|a: int, b: int| 0 <= a < b < freq@.len() ==> freq@[a].0 != freq@[b].0,
            decreases ks.len() - i,
        {
            let e = self.history[i].1;
            let ghost pre = ks.take(i as int);
            let ghost firsts = freq@.map_values(|p: (CudaError, usize)| p.0);
            proof {
                assert(ks.take(i + 1).drop_last() =~= pre);
                assert(ks[i as int] == e);
                assert(ks.take(i + 1).last() == e);
            }
            let mut j: usize = 0;
            while j < freq.len() && freq[j].0 != e
                invariant
                    j <= freq@.len(),
                    firsts == freq@.map_values(|p: (CudaError, usize)| p.0),
                    forall|k: int| 0 <= k < j ==> freq@[k].0 != e,
                decreases freq@.len() - j,
            {
                j = j + 1;
            }
            if j < freq.len() {
                let (k, c) = freq[j];
                proof {
                    assert(firsts[j as int] == e);
                    assert(firsts.contains(e));
                }
                freq.set(j, (k, c + 1));
                proof {
                    assert(freq@.map_values(|p: (CudaError, usize)| p.0) =~= firsts);
                    assert forall|m: int| 0 <= m < freq@.len() implies freq@[m].1 == occurrences(ks.take(i + 1), #[trigger] freq@[m].0) by {
                        assert(firsts[m] == freq@[m].0);
                        if m != j {
                            assert(freq@[m].0 != freq@[j as int].0);
                        }
                    }
                }
            } else {
                proof {
                    assert forall|k: int| 0 <= k < firsts.len() implies firsts[k] != e by {
                        assert(firsts[k] == freq@[k].0);
                    }
                    assert(!firsts.contains(e));
                    lemma_occurrences_absent(pre, e);
                }
                freq.push((e, 1));
                proof {
                    assert(freq@.map_values(|p: (CudaError, usize)| p.0) =~= firsts.push(e));
                    assert forall|m: int| 0 <= m < freq@.len() implies freq@[m].1 == occurrences(ks.take(i + 1), #[trigger] freq@[m].0) by {
                        if m < firsts.len() {
                            assert(firsts[m] == freq@[m].0);
                        }
                    }
                }
            }
            i = i + 1;
        }
        assert(ks.take(ks.len() as int) =~= ks);
        freq
    }

    /// Empties the history.
    pub fn clear(&mut self)
        ensures
            final(self).kinds() == Seq::<CudaError>::empty(),
            final(self).contexts() == Seq::<ErrorContext>::empty(),
            final(self).capacity() == old(self).capacity(),
    {
        let mut h = Vec::new();
        std::mem::swap(&mut h, &mut self.history);
        h.clear();
        self.history = h;
        assert(self.kinds() =~= Seq::<CudaError>::empty());
        assert(self.contexts() =~= Seq::<ErrorContext>::empty());
    }
}

/// A kind that is not among the distinct kinds of `s` does not occur in it.
pub proof fn lemma_occurrences_absent(s: Seq<CudaError>, e: CudaError)
    requires
        !distinct_kinds(s).contains(e),
    ensures
        occurrences(s, e) == 0,
    decreases s.len(),
{
    if s.len() > 0 {
        let d = distinct_kinds(s.drop_last());
        if d.contains(s.last()) {
            assert(s.last() != e);
        } else {
            assert(d.push(s.last())[d.len() as int] == s.last());
            assert(s.last() != e);
            if d.contains(e) {
                let k = choose|k: int| 0 <= k < d.len() && d[k] == e;
                assert(d.push(s.last())[k] == e);
            }
        }
        lemma_occurrences_absent(s.drop_last(), e);
    }
}

/// Error bookkeeping for one device.
#[derive(Debug)]
pub struct DeviceErrorInfo {
    pub device_id: usize,
    pub error_count: usize,
    pub last_error: Option<CudaError>,
    pub last_error_time: Option<std::time::Instant>,
    pub consecutive_errors: usize,
}

/// Health of a device, by its run of consecutive errors.
#[derive(Debug, Clone, Copy, PartialEq, Eq, Structural)]
pub enum DeviceHealth {
    Healthy,
    Warning,
    Critical,
}

/// No consecutive errors is healthy, one or two a warning, more critical.
pub open spec fn spec_health(consecutive_errors: usize) -> DeviceHealth {
    if consecutive_errors == 0 {
        DeviceHealth::Healthy
    } else if consecutive_errors < 3 {
        DeviceHealth::Warning
    } else {
        DeviceHealth::Critical
    }
}

/// A device is healthy while it has had fewer than five errors in a row.
pub open spec fn spec_is_healthy(devices: Seq<DeviceErrorInfo>, device_id: usize) -> bool {
    device_id < devices.len() && devices[device_id as int].consecutive_errors < 5
}

/// Index of the first device with the fewest consecutive errors.
pub open spec fn first_min_consecutive(devices: Seq<DeviceErrorInfo>) -> int
    decreases devices.len(),
{
    if devices.len() <= 1 {
        0
    } else {
        let k = first_min_consecutive(devices.drop_last());
        if devices.last().consecutive_errors < devices[k].consecutive_errors {
            devices.len() - 1
        } else {
            k
        }
    }
}

/// `first_min_consecutive` picks a device with the fewest consecutive
/// errors: no tracked device has fewer, and every device before it has
/// more.
pub proof fn lemma_first_min_consecutive(devices: Seq<DeviceErrorInfo>)
    requires
        devices.len() > 0,
    ensures
        0 <= first_min_consecutive(devices) < devices.len(),
        forall|j: int| 0 <= j < devices.len()
            ==> devices[first_min_consecutive(devices)].consecutive_errors <= #[trigger] devices[j].consecutive_errors,
        forall|j: int| 0 <= j < first_min_consecutive(devices)
            ==> #[trigger] devices[j].consecutive_errors > devices[first_min_consecutive(devices)].consecutive_errors,
    decreases devices.len(),
{
    if devices.len() > 1 {
        let p = devices.drop_last();
        lemma_first_min_consecutive(p);
        let k = first_min_consecutive(p);
        assert(devices[k] == p[k]);
        assert forall|j: int| 0 <= j < p.len() implies #[trigger] devices[j] == p[j] by {}
    }
}

/// Tracks errors per device.
pub struct DeviceErrorTracker {
    pub devices: Vec<DeviceErrorInfo>,
}

impl DeviceErrorTracker {
    /// One error-free entry per device, numbered from 0.
    pub fn new(num_devices: usize) -> (r: Self)
        ensures
            r.devices@.len() == num_devices,
            forall|i: int| 0 <= i < num_devices ==> {
                let d = #[trigger] r.devices@[i];
                &&& d.device_id == i
                &&& d.error_count == 0
                &&& d.last_error is None
                &&& d.last_error_time is None
                &&& d.consecutive_errors == 0
            },
    {
        let mut devices: Vec<DeviceErrorInfo> = Vec::new();
        let mut id: usize = 0;
        while id < num_devices
            invariant
                id <= num_devices,
                devices@.len() == id,
                forall|i: int| 0 <= i < id ==> {
                    let d = #[trigger] devices@[i];
                    &&& d.device_id == i
                    &&& d.error_count == 0
                    &&& d.last_error is None
                    &&& d.last_error_time is None
                    &&& d.consecutive_errors == 0
                },
            decreases num_devices - id,
        {
            devices.push(DeviceErrorInfo {
                device_id: id,
                error_count: 0,
                last_error: None,
                last_error_time: None,
                consecutive_errors: 0,
            });
            id = id + 1;
        }
        Self { devices }
    }

    /// Counts an error against `device_id`, which becomes its last error,
    /// stamped with the current time; unknown devices are ignored.
    pub fn record(&mut self, device_id: usize, error: CudaError)
        requires
            device_id < old(self).devices@.len() ==> {
                &&& old(self).devices@[device_id as int].error_count < usize::MAX
                &&& old(self).devices@[device_id as int].consecutive_errors < usize::MAX
            },
        ensures
            final(self).devices@.len() == old(self).devices@.len(),
            forall|i: int| 0 <= i < old(self).devices@.len() && i != device_id
                ==> #[trigger] final(self).devices@[i] == old(self).devices@[i],
            device_id < old(self).devices@.len() ==> {
                let o = old(self).devices@[device_id as int];
                let n = final(self).devices@[device_id as int];
                &&& n.device_id == o.device_id
                &&& n.error_count == o.error_count + 1
                &&& n.last_error == Some(error)
                &&& n.last_error_time is Some
                &&& n.consecutive_errors == o.consecutive_errors + 1
            },
            tracker_step(old(self).devices@, TrackerCall::Error(device_id), final(self).devices@),
    {
        if device_id < self.devices.len() {
            let o = &self.devices[device_id];
            let info = DeviceErrorInfo {
                device_id: o.device_id,
                error_count: o.error_count + 1,
                last_error: Some(error),
                last_error_time: Some(instant_now()),
                consecutive_errors: o.consecutive_errors + 1,
            };
            self.devices.set(device_id, info);
        }
    }

    /// Ends the run of consecutive errors of `device_id`; unknown devices are
    /// ignored.
    pub fn record_success(&mut self, device_id: usize)
        ensures
            final(self).devices@.len() == old(self).devices@.len(),
            forall|i: int| 0 <= i < old(self).devices@.len() && i != device_id
                ==> #[trigger] final(self).devices@[i] == old(self).devices@[i],
            device_id < old(self).devices@.len() ==> {
                let o = old(self).devices@[device_id as int];
                let n = final(self).devices@[device_id as int];
                &&& n.device_id == o.device_id
                &&& n.error_count == o.error_count
                &&& n.last_error == o.last_error
                &&& n.last_error_time == o.last_error_time
                &&& n.consecutive_errors == 0
            },
            tracker_step(old(self).devices@, TrackerCall::Success(device_id), final(self).devices@),
    {
        if device_id < self.devices.len() {
            let o = &self.devices[device_id];
            let info = DeviceErrorInfo {
                device_id: o.device_id,
                error_count: o.error_count,
                last_error: o.last_error,
                last_error_time: o.last_error_time,
                consecutive_errors: 0,
            };
            self.devices.set(device_id, info);
        }
    }

    /// Whether `device_id` is known and has had fewer than five errors in a
    /// row.
    pub fn is_healthy(&self, device_id: usize) -> (r: bool)
        ensures
            r == spec_is_healthy(self.devices@, device_id),
    {
        if device_id < self.devices.len() {
            self.devices[device_id].consecutive_errors < 5
        } else {
            false
        }
    }

    /// The first device that never had an error; failing that, the first with
    /// the fewest consecutive errors; `None` when no device is tracked.
    pub fn healthiest_device(&self) -> (r: Option<usize>)
        ensures
            self.devices@.len() == 0 ==> r is None,
            (exists|i: int| 0 <= i < self.devices@.len() && #[trigger] self.devices@[i].error_count == 0)
                ==> (r matches Some(id) && exists|i: int| 0 <= i < self.devices@.len()
                    && self.devices@[i].error_count == 0
                    && (forall|j: int| 0 <= j < i ==> #[trigger] self.devices@[j].error_count != 0)
                    && id == self.devices@[i].device_id),
            (self.devices@.len() > 0 && forall|i: int| 0 <= i < self.devices@.len() ==> #[trigger] self.devices@[i].error_count != 0)
                ==> r == Some(self.devices@[first_min_consecutive(self.devices@)].device_id),
            (self.devices@.len() > 0 && forall|i: int| 0 <= i < self.devices@.len() ==> #[trigger] self.devices@[i].error_count != 0)
                ==> exists|k: int| {
                    &&& 0 <= k < self.devices@.len()
                    &&& r == Some(self.devices@[k].device_id)
                    &&& forall|j: int| 0 <= j < self.devices@.len()
                        ==> self.devices@[k].consecutive_errors <= #[trigger] self.devices@[j].consecutive_errors
                    &&& forall|j: int| 0 <= j < k
                        ==> #[trigger] self.devices@[j].consecutive_errors > self.devices@[k].consecutive_errors
                },
    {
        let n = self.devices.len();
        let mut i: usize = 0;
        while i < n
            invariant
                n == self.devices@.len(),
                i <= n,
                forall|j: int| 0 <= j < i ==> #[trigger] self.devices@[j].error_count != 0,
            decreases n - i,
        {
            if self.devices[i].error_count == 0 {
                return Some(self.devices[i].device_id);
            }
            i = i + 1;
        }
        if n == 0 {
            return None;
        }
        let mut best: usize = 0;
        let mut k: usize = 1;
        while k < n
            invariant
                n == self.devices@.len(),
                1 <= k <= n,
                best < k,
                best == first_min_consecutive(self.devices@.take(k as int)),
            decreases n - k,
        {
            proof {
                assert(self.devices@.take(k + 1).drop_last() =~= self.devices@.take(k as int));
                assert(self.devices@.take(k + 1)[best as int] == self.devices@[best as int]);
            }
            if self.devices[k].consecutive_errors < self.devices[best].consecutive_errors {
                best = k;
            }
            k = k + 1;
        }
        assert(self.devices@.take(n as int) =~= self.devices@);
        proof {
            lemma_first_min_consecutive(self.devices@);
        }
        Some(self.devices[best].device_id)
    }

    /// Each device's health with its id, in device order.
    pub fn health_status(&self) -> (r: Vec<(DeviceHealth, usize)>)
        ensures
            r@.len() == self.devices@.len(),
            forall|i: int| 0 <= i < r@.len() ==> #[trigger] r@[i] == (
                spec_health(self.devices@[i].consecutive_errors),
                self.devices@[i].device_id,
            ),
    {
        let mut out: Vec<(DeviceHealth, usize)> = Vec::new();
        let mut i: usize = 0;
        while i < self.devices.len()
            invariant
                i <= self.devices@.len(),
                out@.len() == i,
                forall|j: int| 0 <= j < i ==> #[trigger] out@[j] == (
                    spec_health(self.devices@[j].consecutive_errors),
                    self.devices@[j].device_id,
                ),
            decreases self.devices@.len() - i,
        {
            let c = self.devices[i].consecutive_errors;
            let health = if c == 0 {
                DeviceHealth::Healthy
            } else if c < 3 {
                DeviceHealth::Warning
            } else {
                DeviceHealth::Critical
            };
            out.push((health, self.devices[i].device_id));
            i = i + 1;
        }
        out
    }
}

/// A call made on a tracker: `record` of an error, or `record_success`, for
/// a device.
pub enum TrackerCall {
    Error(usize),
    Success(usize),
}

/// How a call changes the device list, as far as health goes: the list
/// keeps its length and every other device; for a tracked device, an error
/// adds one to its run of consecutive errors and a success ends the run,
/// keeping its id.
pub open spec fn tracker_step(before: Seq<DeviceErrorInfo>, call: TrackerCall, after: Seq<DeviceErrorInfo>) -> bool {
    let id = match call {
        TrackerCall::Error(i) => i,
        TrackerCall::Success(i) => i,
    };
    &&& after.len() == before.len()
    &&& forall|i: int| 0 <= i < before.len() && i != id ==> #[trigger] after[i] == before[i]
    &&& id < before.len() ==> {
        &&& after[id as int].device_id == before[id as int].device_id
        &&& after[id as int].consecutive_errors == match call {
            TrackerCall::Error(_) => before[id as int].consecutive_errors + 1,
            TrackerCall::Success(_) => 0,
        }
    }
}

/// The number of errors recorded for device `d` since its last success (or
/// since the start).
pub open spec fn errors_since_success(calls: Seq<TrackerCall>, d: int) -> nat
    decreases calls.len(),
{
    if calls.len() == 0 {
        0
    } else {
        let before = errors_since_success(calls.drop_last(), d);
        match calls.last() {
            TrackerCall::Error(i) => if i == d { before + 1 } else { before },
            TrackerCall::Success(i) => if i == d { 0 } else { before },
        }
    }
}

/// After a fresh tracker for `n` devices goes through any sequence of
/// `record` and `record_success` calls (each step as their contracts state
/// it), every device keeps its id and its run of consecutive errors is the
/// number of errors recorded for it since its last success; so its health
/// in `health_status` is healthy with no such error, a warning with one or
/// two, and critical with three or more.
pub proof fn lemma_health_after_calls(states: Seq<Seq<DeviceErrorInfo>>, calls: Seq<TrackerCall>, n: nat)
    requires
        states.len() == calls.len() + 1,
        states[0].len() == n,
        forall|i: int| 0 <= i < n ==> (#[trigger] states[0][i]).device_id == i && states[0][i].consecutive_errors == 0,
        forall|k: int| 0 <= k < calls.len() ==> tracker_step(#[trigger] states[k], calls[k], states[k + 1]),
    ensures
        states.last().len() == n,
        forall|i: int| 0 <= i < n ==> {
            &&& (#[trigger] states.last()[i]).device_id == i
            &&& states.last()[i].consecutive_errors == errors_since_success(calls, i)
            &&& spec_health(states.last()[i].consecutive_errors) == (if errors_since_success(calls, i) == 0 {
                DeviceHealth::Healthy
            } else if errors_since_success(calls, i) < 3 {
                DeviceHealth::Warning
            } else {
                DeviceHealth::Critical
            })
        },
    decreases calls.len(),
{
    if calls.len() > 0 {
        let m = calls.len() - 1;
        let ps = states.take(m + 1);
        let pc = calls.drop_last();
        assert forall|k: int| 0 <= k < pc.len() implies tracker_step(#[trigger] ps[k], pc[k], ps[k + 1]) by {
            assert(tracker_step(states[k], calls[k], states[k + 1]));
        }
        assert(ps[0] == states[0]);
        lemma_health_after_calls(ps, pc, n);
        assert(ps.last() == states[m]);
        assert(tracker_step(states[m], calls[m], states[m + 1]));
        assert(states.last() == states[m + 1]);
        assert forall|i: int| 0 <= i < n implies (#[trigger] states.last()[i]).device_id == i
            && states.last()[i].consecutive_errors == errors_since_success(calls, i) by {
            assert(states[m][i].device_id == i);
            assert(states[m][i].consecutive_errors == errors_since_success(pc, i));
        }
    }
}

/// A device stays healthy through four errors in a row and stops being
/// healthy at the fifth.
pub proof fn lemma_healthy_threshold(devices: Seq<DeviceErrorInfo>, device_id: usize)
    requires
        device_id < devices.len(),
    ensures
        devices[device_id as int].consecutive_errors <= 4 ==> spec_is_healthy(devices, device_id),
        devices[device_id as int].consecutive_errors >= 5 ==> !spec_is_healthy(devices, device_id),
{
}

} // verus!
