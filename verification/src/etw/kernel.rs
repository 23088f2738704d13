//! Configuration of the kernel trace session (the NT Kernel Logger).

use vstd::prelude::*;
use crate::etw::session::{TraceProperties, EVENT_TRACE_REAL_TIME_MODE};
use crate::guid::Guid;

verus! {

/// The name that Windows requires for the kernel session.
pub const KERNEL_LOGGER_NAME: &'static str = "NT Kernel Logger";

/// `SystemTraceControlGuid`, {9E814AAD-3204-11D2-9A82-006008A86939}: the
/// GUID that identifies the NT Kernel Logger session.
pub fn system_trace_control_guid() -> (g: Guid)
    ensures
        g@ == (0x9E814AADu32, 0x3204u16, 0x11D2u16, seq![0x9Au8, 0x82u8, 0x00u8, 0x60u8, 0x08u8, 0xA8u8, 0x69u8, 0x39u8]),
{
    let g = Guid {
        data1: 0x9E814AAD,
        data2: 0x3204,
        data3: 0x11D2,
        data4: [0x9A, 0x82, 0x00, 0x60, 0x08, 0xA8, 0x69, 0x39],
    };
    assert(g.data4@ =~= seq![0x9Au8, 0x82u8, 0x00u8, 0x60u8, 0x08u8, 0xA8u8, 0x69u8, 0x39u8]);
    g
}

/// `PerfInfoGuid`, {CE1DBFB4-137E-4DA6-87B0-3F59AA102CBC}: the event class
/// under which stack walking of kernel events is requested.
pub fn perfinfo_guid() -> (g: Guid)
    ensures
        g@ == (0xCE1DBFB4u32, 0x137Eu16, 0x4DA6u16, seq![0x87u8, 0xB0u8, 0x3Fu8, 0x59u8, 0xAAu8, 0x10u8, 0x2Cu8, 0xBCu8]),
{
    let g = Guid {
        data1: 0xce1dbfb4,
        data2: 0x137e,
        data3: 0x4da6,
        data4: [0x87, 0xb0, 0x3f, 0x59, 0xaa, 0x10, 0x2c, 0xbc],
    };
    assert(g.data4@ =~= seq![0x87u8, 0xB0u8, 0x3Fu8, 0x59u8, 0xAAu8, 0x10u8, 0x2Cu8, 0xBCu8]);
    g
}

/// A kernel trace session. Unlike a user-mode session it selects the
/// kernel event classes by flags instead of enabling providers.
pub struct KernelTrace<C> {
    /// Kernel event classes (`EVENT_TRACE_FLAG_*`).
    pub enable_flags: u32,
    /// Event types whose stack should be walked, as 16-bit numbers.
    pub stack_walk_events: Vec<u16>,
    /// Callbacks that run on every event of the session.
    pub global_callbacks: Vec<C>,
}

impl<C> KernelTrace<C> {
    /// A session with no event classes, stack walks or callbacks.
    pub fn new() -> (t: Self)
        ensures
            t.enable_flags == 0,
            t.stack_walk_events@ == Seq::<u16>::empty(),
            t.global_callbacks@ == Seq::<C>::empty(),
    {
        KernelTrace { enable_flags: 0, stack_walk_events: Vec::new(), global_callbacks: Vec::new() }
    }

    /// Sets the kernel event classes, replacing those set before.
    pub fn enable_flags(self, flags: u32) -> (t: Self)
        ensures
            t.enable_flags == flags,
            t.stack_walk_events == self.stack_walk_events,
            t.global_callbacks == self.global_callbacks,
    {
        let mut t = self;
        t.enable_flags = flags;
        t
    }

    /// Requests a stack walk for a kernel event type; the type is kept as
    /// its low 16 bits.
    pub fn enable_stack_walk(self, event_type: u32) -> (t: Self)
        ensures
            t.enable_flags == self.enable_flags,
            t.stack_walk_events@ == self.stack_walk_events@.push((event_type % 0x1_0000) as u16),
            t.global_callbacks == self.global_callbacks,
    {
        let mut t = self;
        t.stack_walk_events.push((event_type % 0x1_0000) as u16);
        t
    }

    /// Adds a callback after those already there.
    pub fn add_callback(self, callback: C) -> (t: Self)
        ensures
            t.enable_flags == self.enable_flags,
            t.stack_walk_events == self.stack_walk_events,
            t.global_callbacks@ == self.global_callbacks@.push(callback),
    {
        let mut t = self;
        t.global_callbacks.push(callback);
        t
    }

    /// The name of the session: always `NT Kernel Logger`.
    pub fn get_session_name(&self) -> (s: String)
        ensures
            s@ == KERNEL_LOGGER_NAME@,
    {
        KERNEL_LOGGER_NAME.to_owned()
    }

    /// The callbacks of the session.
    pub fn global_callbacks(&self) -> (r: &[C])
        ensures
            r@ == self.global_callbacks@,
    {
        self.global_callbacks.as_slice()
    }

    /// The properties the kernel session is started with: the system trace
    /// control GUID, real-time delivery, 64 KB buffers, four to forty of
    /// them, a flush every second, and the session's kernel event classes.
    pub fn session_properties(&self) -> (p: TraceProperties)
        ensures
            p.session_guid@ == system_trace_control_guid_view(),
            p.log_file_mode == EVENT_TRACE_REAL_TIME_MODE,
            p.buffer_size == 64,
            p.minimum_buffers == 4,
            p.maximum_buffers == 40,
            p.flush_timer == 1,
            p.enable_flags == self.enable_flags,
    {
        TraceProperties {
            session_guid: system_trace_control_guid(),
            log_file_mode: EVENT_TRACE_REAL_TIME_MODE,
            buffer_size: 64,
            minimum_buffers: 4,
            maximum_buffers: 40,
            flush_timer: 1,
            enable_flags: self.enable_flags,
        }
    }

    /// The hook types of the stack walks to request, one per requested
    /// event type in order: the low 8 bits of each.
    pub fn stack_tracing_types(&self) -> (r: Vec<u8>)
        ensures
            r@.len() == self.stack_walk_events@.len(),
            forall|i: int| 0 <= i < r@.len() ==> #[trigger] r@[i] == (self.stack_walk_events@[i] % 256) as u8,
    {
        let mut r: Vec<u8> = Vec::new();
        let n = self.stack_walk_events.len();
        let mut i: usize = 0;
        while i < n
            invariant
                n == self.stack_walk_events@.len(),
                i <= n,
                r@.len() == i,
                forall|k: int| 0 <= k < i ==> #[trigger] r@[k] == (self.stack_walk_events@[k] % 256) as u8,
            decreases n - i,
        {
            r.push((self.stack_walk_events[i] % 256) as u8);
            i = i + 1;
        }
        r
    }
}

/// The view of [`system_trace_control_guid`].
pub open spec fn system_trace_control_guid_view() -> (u32, u16, u16, Seq<u8>) {
    (0x9E814AADu32, 0x3204u16, 0x11D2u16, seq![0x9Au8, 0x82u8, 0x00u8, 0x60u8, 0x08u8, 0xA8u8, 0x69u8, 0x39u8])
}

} // verus!
