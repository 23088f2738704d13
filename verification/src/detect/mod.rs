//! Detection of syscalls issued from unexpected places: the detection
//! engine that normalizes events, and the rules of the direct and indirect
//! syscall detectors.

pub mod context;
pub mod utils;
pub mod errors;
pub mod alert;
pub mod direct;
pub mod indirect;
pub mod engine;

pub use alert::SyscallAlert;
pub use context::{Detector, SyscallEventContext};
pub use engine::DetectionEngine;
pub use errors::DetectionError;
pub use utils::filter_kernel_addresses;
