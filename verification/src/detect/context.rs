//! The context handed to detectors and the contract between the engine and
//! its detectors.

use vstd::prelude::*;
use std::sync::Arc;

verus! {

/// Standardized context extracted from an event for syscall detection: the
/// process that issued the syscall and its user-mode call stack, shared
/// without copying among the detectors.
#[derive(Clone)]
pub struct SyscallEventContext {
    pub process_id: u32,
    pub user_frames: Arc<[u64]>,
}

impl View for SyscallEventContext {
    type V = (u32, Seq<u64>);

    open spec fn view(&self) -> (u32, Seq<u64>) {
        (self.process_id, self.user_frames@)
    }
}

/// Calls `Arc::from` on a vector, which moves the addresses into one shared
/// allocation; the addresses and their order stay as they were.
#[verifier::external_body]
pub(crate) fn share_frames(frames: Vec<u64>) -> (shared: Arc<[u64]>)
    ensures
        shared@ == frames@,
{
    Arc::from(frames)
}

/// A heuristic analysis plugin of the detection engine.
pub trait Detector: Send + Sync {
    /// Identifies the module in telemetry logs.
    fn name(&self) -> &'static str;

    /// Provisions the resources, channels or background workers that the
    /// detector needs before events arrive. A detector that needs none
    /// keeps this default, which succeeds.
    fn initialize(&mut self) -> (r: Result<(), String>)
        default_ensures
            r == Ok::<(), String>(()),
    {
        Ok(())
    }

    /// Evaluates a normalized event against the detector's heuristic.
    fn analyze(&self, context: &SyscallEventContext);
}

/// A boxed detector is the detector in the box: each method forwards to it.
impl<T: Detector + ?Sized> Detector for Box<T> {
    /// The name of the boxed detector.
    fn name(&self) -> (r: &'static str)
        ensures
            call_ensures(T::name, (&**self,), r),
    {
        (**self).name()
    }

    /// Initializes the boxed detector and returns its outcome. (The boxed
    /// type may be unsized, as a trait object is, so the contract names the
    /// outcome as one of that type's `initialize` without the value it ran
    /// on.)
    fn initialize(&mut self) -> (r: Result<(), String>)
        ensures
            exists|m: &mut T| #[trigger] call_ensures(T::initialize, (m,), r),
    {
        let inner: &mut T = &mut **self;
        let r = inner.initialize();
        r
    }

    /// Has the boxed detector analyze the context.
    fn analyze(&self, context: &SyscallEventContext)
        ensures
            call_ensures(T::analyze, (&**self, context), ()),
    {
        (**self).analyze(context)
    }
}

} // verus!
