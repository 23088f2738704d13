//! The life cycle of a trace session: the properties a session is started
//! with, and what each status code of `StartTraceW` leads to.

use vstd::prelude::*;
use crate::etw::errors::EtwError;
use crate::guid::Guid;

verus! {

/// The standard life cycle of a trace session, common to user-mode and
/// kernel sessions.
pub trait TraceSession: Send + Sync {
    /// Starts the session in the operating system.
    fn start_session(&self) -> Result<(), String>;

    /// Runs the blocking event consumption loop and returns its status.
    fn consume(&self) -> u32;

    /// Stops the session so that no orphaned session outlives the process.
    fn stop_session(&self);
}

/// `ERROR_SUCCESS`.
pub const ERROR_SUCCESS: u32 = 0;

/// `ERROR_ALREADY_EXISTS`: a session of that name is running.
pub const ERROR_ALREADY_EXISTS: u32 = 183;

/// `EVENT_TRACE_REAL_TIME_MODE`: events are delivered to consumers as they
/// arrive instead of to a log file.
pub const EVENT_TRACE_REAL_TIME_MODE: u32 = 0x100;

/// The settings that a session is started with, as `StartTraceW` reads them
/// from `EVENT_TRACE_PROPERTIES`.
#[derive(Clone, Copy, Debug, PartialEq, Eq)]
pub struct TraceProperties {
    pub session_guid: Guid,
    pub log_file_mode: u32,
    /// Buffer size in kilobytes.
    pub buffer_size: u32,
    pub minimum_buffers: u32,
    pub maximum_buffers: u32,
    /// Seconds between flushes of the buffers.
    pub flush_timer: u32,
    /// Kernel event classes to enable (`EVENT_TRACE_FLAG_*`); zero for a
    /// user-mode session.
    pub enable_flags: u32,
}

/// What follows a call of `StartTraceW`.
#[derive(Debug, Clone)]
pub enum StartStep {
    /// The session runs.
    Started,
    /// A session of that name already runs: stop it and start again.
    StopAndRetry,
    /// Starting failed with this error.
    Failed(EtwError),
}

/// What follows the first call of `StartTraceW` with this status: success
/// starts the session, `ERROR_ALREADY_EXISTS` calls for stopping the stale
/// session and retrying, and any other status is a Windows error.
pub open spec fn start_step_of(status: u32) -> StartStep {
    if status == 0 {
        StartStep::Started
    } else if status == 183 {
        StartStep::StopAndRetry
    } else {
        StartStep::Failed(EtwError::WindowsError(status))
    }
}

/// What follows the first call of `StartTraceW` (see [`start_step_of`]).
pub fn start_step(status: u32) -> (r: StartStep)
    ensures
        r == start_step_of(status),
{
    if status == ERROR_SUCCESS {
        StartStep::Started
    } else if status == ERROR_ALREADY_EXISTS {
        StartStep::StopAndRetry
    } else {
        StartStep::Failed(EtwError::WindowsError(status))
    }
}

/// The outcome of the retry of a user-mode session: it runs on success;
/// otherwise the stale session is reported as still existing.
pub fn user_retry_outcome(status: u32) -> (r: Result<(), EtwError>)
    ensures
        status == 0 ==> r is Ok,
        status != 0 ==> r == Err::<(), EtwError>(EtwError::SessionAlreadyExists),
{
    if status == ERROR_SUCCESS {
        Ok(())
    } else {
        Err(EtwError::SessionAlreadyExists)
    }
}

/// The outcome of the retry of the kernel session: it runs on success;
/// otherwise the retry's status is the error.
pub fn kernel_retry_outcome(status: u32) -> (r: Result<(), EtwError>)
    ensures
        status == 0 ==> r is Ok,
        status != 0 ==> r == Err::<(), EtwError>(EtwError::WindowsError(status)),
{
    if status == ERROR_SUCCESS {
        Ok(())
    } else {
        Err(EtwError::WindowsError(status))
    }
}

/// Where the parts of the `EVENT_TRACE_PROPERTIES` block that starts a
/// session lie: the structure, then the session name in UTF-16 with its
/// terminating zero. The block is allocated as whole 8-byte words.
#[derive(Clone, Copy, Debug, PartialEq, Eq)]
pub struct StartLayout {
    /// Bytes of the structure and the name together (`Wnode.BufferSize`).
    pub total_size: usize,
    /// 8-byte words allocated for the block: the total rounded up.
    pub words: usize,
    /// Offset of the name from the start of the block (`LoggerNameOffset`).
    pub logger_name_offset: usize,
}

/// The layout of the start block for a structure of `struct_size` bytes and
/// a name of `name_units` UTF-16 code units, its terminator included.
pub fn start_layout(struct_size: usize, name_units: usize) -> (r: StartLayout)
    requires
        struct_size + 2 * name_units + 7 <= usize::MAX,
    ensures
        r.total_size == struct_size + 2 * name_units,
        r.words == (struct_size + 2 * name_units + 7) / 8,
        r.words * 8 >= r.total_size,
        r.logger_name_offset == struct_size,
{
    let total_size = struct_size + 2 * name_units;
    let words = (total_size + 7) / 8;
    StartLayout { total_size, words, logger_name_offset: struct_size }
}

/// Bytes reserved for each of the two names of the block that stops a
/// session: 1024 UTF-16 code units.
pub const STOP_NAME_BYTES: usize = 2048;

/// Where the parts of the `EVENT_TRACE_PROPERTIES` block that stops a
/// session lie: the structure, then room for the session name, then room
/// for the log file name. Sizes and offsets are the 32-bit fields of the
/// structure.
#[derive(Clone, Copy, Debug, PartialEq, Eq)]
pub struct StopLayout {
    pub buffer_size: u32,
    pub logger_name_offset: u32,
    pub log_file_name_offset: u32,
}

/// The layout of the stop block for a structure of `struct_size` bytes.
pub fn stop_layout(struct_size: u32) -> (r: StopLayout)
    requires
        struct_size + 2 * STOP_NAME_BYTES <= u32::MAX,
    ensures
        r.buffer_size == struct_size + 2 * STOP_NAME_BYTES,
        r.logger_name_offset == struct_size,
        r.log_file_name_offset == struct_size + STOP_NAME_BYTES,
{
    StopLayout {
        buffer_size: struct_size + 4096,
        logger_name_offset: struct_size,
        log_file_name_offset: struct_size + 2048,
    }
}

/// Calls `uuid::Uuid::new_v4`, which draws a random version-4 UUID, and
/// reads it with `Uuid::to_fields_le`, which only regroups its bytes. Of the
/// random result the contract states what every outcome shares: the version
/// nibble (high nibble of byte 6, the low byte of `data3`) is 4, and the
/// variant bits (top two bits of byte 8, the first byte of `data4`) are `10`.
#[verifier::external_body]
pub(crate) fn random_session_guid() -> (g: Guid)
    ensures
        (g.data3 % 256) / 16 == 4,
        g.data4[0] / 64 == 2,
{
    let uuid = uuid::Uuid::new_v4();
    let (data1, data2, data3, data4) = uuid.to_fields_le();
    Guid { data1, data2, data3, data4: *data4 }
}

} // verus!
