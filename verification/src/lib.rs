//! Decision logic of a Windows syscall-evasion observer: event records from
//! Event Tracing for Windows are normalised into call stacks, and detectors
//! decide from module names and resolved symbols whether a syscall came from
//! an unexpected place.

pub mod text;
pub mod guid;
pub mod etw;
pub mod detect;
