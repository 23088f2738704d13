//! The detection engine: it normalizes the call stack of each event and
//! hands the result to every registered detector.

use vstd::prelude::*;
use crate::detect::context::{share_frames, Detector, SyscallEventContext};
use crate::detect::utils::{
    filter_kernel_addresses, is_user_address, lemma_user_addresses_are_user, lemma_user_addresses_len,
    user_addresses,
};
use crate::etw::event_parser::stack_frames;
use crate::etw::types::Event;

verus! {

/// The fewest user-mode frames that a stack must keep to be analyzed.
pub const MIN_USER_FRAMES: usize = 3;

/// The context that an event with call stack `stack` from process
/// `process_id` yields: its user-space frames, in order, when there are at
/// least three of them; nothing otherwise.
pub open spec fn context_of(process_id: u32, stack: Seq<u64>) -> Option<(u32, Seq<u64>)> {
    let frames = user_addresses(stack);
    if frames.len() < 3 {
        None
    } else {
        Some((process_id, frames))
    }
}

/// The context for the detectors that a call stack yields (see
/// [`context_of`]).
pub fn build_context(process_id: u32, stack: Vec<u64>) -> (r: Option<SyscallEventContext>)
    ensures
        match context_of(process_id, stack@) {
            Some(v) => r matches Some(c) && c@ == v,
            None => r is None,
        },
{
    let mut stack = stack;
    if stack.len() == 0 {
        assert(user_addresses(stack@) =~= Seq::<u64>::empty());
        return None;
    }
    filter_kernel_addresses(&mut stack);
    if stack.len() < MIN_USER_FRAMES {
        return None;
    }
    Some(SyscallEventContext { process_id, user_frames: share_frames(stack) })
}

/// A context holds at least three frames, all of them user-space addresses,
/// and never more frames than the stack it came from.
pub proof fn lemma_context_frames_are_user(process_id: u32, stack: Seq<u64>)
    ensures
        context_of(process_id, stack) matches Some(v) ==> v.0 == process_id && v.1.len() >= 3
            && v.1.len() <= stack.len() && forall|i: int| 0 <= i < v.1.len() ==> is_user_address(#[trigger] v.1[i]),
{
    lemma_user_addresses_are_user(stack);
    lemma_user_addresses_len(stack);
}

/// A stack of at least three user-space addresses reaches the detectors
/// unchanged.
pub proof fn lemma_user_stack_passes_unchanged(process_id: u32, stack: Seq<u64>)
    requires
        stack.len() >= 3,
        forall|i: int| 0 <= i < stack.len() ==> is_user_address(#[trigger] stack[i]),
    ensures
        context_of(process_id, stack) == Some((process_id, stack)),
{
    lemma_user_only_unchanged(stack);
}

proof fn lemma_user_only_unchanged(stack: Seq<u64>)
    requires
        forall|i: int| 0 <= i < stack.len() ==> is_user_address(#[trigger] stack[i]),
    ensures
        user_addresses(stack) == stack,
    decreases stack.len(),
{
    if stack.len() > 0 {
        assert forall|i: int| 0 <= i < stack.drop_last().len() implies is_user_address(
            #[trigger] stack.drop_last()[i],
        ) by {
            assert(stack.drop_last()[i] == stack[i]);
        }
        lemma_user_only_unchanged(stack.drop_last());
        assert(is_user_address(stack[stack.len() - 1]));
        assert(stack.drop_last().push(stack.last()) =~= stack);
    }
}

/// Whether an event from process `event_pid` is analyzed by an observer
/// running as process `current_pid`: events of the observer itself would
/// feed back into it, and the process ID `u32::MAX` marks events without a
/// process.
pub open spec fn is_forwarded(event_pid: u32, current_pid: u32) -> bool {
    event_pid != current_pid && event_pid != u32::MAX
}

/// Whether an event is analyzed (see [`is_forwarded`]).
pub fn forwards_event(event_pid: u32, current_pid: u32) -> (r: bool)
    ensures
        r == is_forwarded(event_pid, current_pid),
{
    event_pid != current_pid && event_pid != u32::MAX
}

/// Whether `initialize`, called on the detector `d`, may return `r`: an
/// outcome that the detector's own `initialize` allows.
pub open spec fn initialize_may_return<D: Detector>(d: D, r: Result<(), String>) -> bool {
    exists|m: &mut D| mut_ref_current(m) == d && #[trigger] call_ensures(D::initialize, (m,), r)
}

/// Whether `initialize`, called on the detector `d`, returned `Ok`.
pub open spec fn initialize_succeeded<D: Detector>(d: D) -> bool {
    initialize_may_return(d, Ok(()))
}

/// Whether the detector `d` analyzed a context whose value is `v`: its
/// `analyze` was called with such a context.
pub open spec fn analyzed<D: Detector>(d: D, v: (u32, Seq<u64>)) -> bool {
    exists|c: SyscallEventContext| c@ == v && #[trigger] call_ensures(D::analyze, (&d, &c), ())
}

/// The detection engine and its registered detectors.
pub struct DetectionEngine<D> {
    detectors: Vec<D>,
}

impl<D: Detector> DetectionEngine<D> {
    /// The registered detectors, in registration order.
    pub closed spec fn detectors(&self) -> Seq<D> {
        self.detectors@
    }

    /// An engine without detectors.
    pub fn new() -> (engine: Self)
        ensures
            engine.detectors() == Seq::<D>::empty(),
    {
        DetectionEngine { detectors: Vec::new() }
    }

    /// Registers a detector after those already registered.
    pub fn add_detector(self, detector: D) -> (engine: Self)
        ensures
            engine.detectors() == self.detectors().push(detector),
    {
        let mut engine = self;
        engine.detectors.push(detector);
        engine
    }

    /// The number of registered detectors.
    pub fn detector_count(&self) -> (n: usize)
        ensures
            n == self.detectors().len(),
    {
        self.detectors.len()
    }

    /// Initializes the detectors in registration order and stops at the
    /// first that fails, returning its error. On success, `initialize` was
    /// called on every detector as it was registered, returned `Ok`, and
    /// each detector afterwards is what that call left at its index. On
    /// failure with `e`, for some detector `k`: the detectors before `k`
    /// went through `initialize` in the same way, detector `k` returned
    /// `Err(e)` and is what that call left, and the detectors after `k` are
    /// untouched. No detector is added, removed or moved.
    ///
    /// The second and third clauses give the outcome of each call by name
    /// ([`initialize_succeeded`], [`initialize_may_return`]); the last two
    /// add which value each call left behind.
    pub fn start(&mut self) -> (r: Result<(), String>)
        ensures
            final(self).detectors().len() == old(self).detectors().len(),
            r is Ok ==> forall|k: int|
                0 <= k < old(self).detectors().len() ==> initialize_succeeded(
                    #[trigger] old(self).detectors()[k],
                ),
            r is Err ==> exists|k: int|
                0 <= k < old(self).detectors().len() && initialize_may_return(
                    #[trigger] old(self).detectors()[k],
                    r,
                ) && forall|l: int|
                    0 <= l < k ==> initialize_succeeded(#[trigger] old(self).detectors()[l]),
            r is Ok ==> forall|k: int|
                #![trigger old(self).detectors()[k]]
                0 <= k < old(self).detectors().len() ==> exists|m: &mut D|
                    mut_ref_current(m) == old(self).detectors()[k] && mut_ref_future(m)
                        == final(self).detectors()[k] && #[trigger] call_ensures(
                        D::initialize,
                        (m,),
                        Ok(()),
                    ),
            r is Err ==> exists|k: int|
                #![trigger old(self).detectors()[k]]
                0 <= k < old(self).detectors().len() && (forall|l: int|
                    #![trigger old(self).detectors()[l]]
                    0 <= l < k ==> exists|m: &mut D|
                        mut_ref_current(m) == old(self).detectors()[l] && mut_ref_future(m)
                            == final(self).detectors()[l] && #[trigger] call_ensures(
                            D::initialize,
                            (m,),
                            Ok(()),
                        )) && (exists|m: &mut D|
                    mut_ref_current(m) == old(self).detectors()[k] && mut_ref_future(m)
                        == final(self).detectors()[k] && #[trigger] call_ensures(
                        D::initialize,
                        (m,),
                        r,
                    )) && (forall|j: int|
                    k < j < old(self).detectors().len() ==> #[trigger] final(self).detectors()[j]
                        == old(self).detectors()[j]),
    {
        // The first detector is initialized here, the others by
        // `initialize_from`.
        let ghost pre = self.detectors@;
        if self.detectors.len() == 0 {
            return Ok(());
        }
        let result = self.detectors[0].initialize();
        assert(forall|j: int| 0 <= j < pre.len() && j != 0 ==> self.detectors@[j] == pre[j]);
        assert(exists|m: &mut D|
            mut_ref_current(m) == pre[0] && mut_ref_future(m) == self.detectors@[0]
                && #[trigger] call_ensures(D::initialize, (m,), result));
        assert(initialize_may_return(pre[0], result));
        if result.is_err() {
            assert(old(self).detectors()[0] == pre[0]);
            return result;
        }
        match result {
            Ok(u) => {
                assert(result == Ok::<(), String>(()));
            },
            Err(_) => {},
        }
        let ghost mid = self.detectors@;
        assert(forall|k: int| 0 < k < pre.len() ==> mid[k] == pre[k]);
        self.initialize_from(1, Ghost(mid))
    }

    /// Initializes the detectors from index `i` on, in order, and stops at
    /// the first that fails (see [`DetectionEngine::start`]); the detectors
    /// before `i` are untouched. `pre` is the registry as it stands on entry.
    fn initialize_from(&mut self, i: usize, Ghost(pre): Ghost<Seq<D>>) -> (r: Result<(), String>)
        requires
            old(self).detectors() == pre,
        ensures
            final(self).detectors().len() == pre.len(),
            forall|j: int| 0 <= j < i ==> #[trigger] pre[j] == final(self).detectors()[j],
            r is Ok ==> forall|k: int| i <= k < pre.len() ==> initialize_succeeded(#[trigger] pre[k]),
            r is Err ==> exists|k: int|
                i <= k < pre.len() && initialize_may_return(#[trigger] pre[k], r) && forall|l: int|
                    i <= l < k ==> initialize_succeeded(#[trigger] pre[l]),
            r is Ok ==> forall|k: int|
                #![trigger pre[k]]
                i <= k < pre.len() ==> exists|m: &mut D|
                    mut_ref_current(m) == pre[k] && mut_ref_future(m) == final(self).detectors()[k]
                        && #[trigger] call_ensures(D::initialize, (m,), Ok(())),
            r is Err ==> exists|k: int|
                #![trigger pre[k]]
                i <= k < pre.len() && (forall|l: int|
                    #![trigger pre[l]]
                    i <= l < k ==> exists|m: &mut D|
                        mut_ref_current(m) == pre[l] && mut_ref_future(m)
                            == final(self).detectors()[l] && #[trigger] call_ensures(
                            D::initialize,
                            (m,),
                            Ok(()),
                        )) && (exists|m: &mut D|
                    mut_ref_current(m) == pre[k] && mut_ref_future(m) == final(self).detectors()[k]
                        && #[trigger] call_ensures(D::initialize, (m,), r)) && (forall|j: int|
                    k < j < pre.len() ==> #[trigger] pre[j] == final(self).detectors()[j]),
        decreases pre.len() - i,
    {
        if i >= self.detectors.len() {
            return Ok(());
        }
        let result = self.detectors[i].initialize();
        assert(forall|j: int| 0 <= j < pre.len() && j != i ==> self.detectors@[j] == pre[j]);
        assert(exists|m: &mut D|
            mut_ref_current(m) == pre[i as int] && mut_ref_future(m) == self.detectors@[i as int]
                && #[trigger] call_ensures(D::initialize, (m,), result));
        assert(initialize_may_return(pre[i as int], result));
        if result.is_err() {
            return result;
        }
        match result {
            Ok(u) => {
                assert(result == Ok::<(), String>(()));
            },
            Err(_) => {},
        }
        let ghost mid = self.detectors@;
        assert(forall|k: int| i < k < pre.len() ==> mid[k] == pre[k]);
        self.initialize_from(i + 1, Ghost(mid))
    }

    /// Builds the context of an event (see [`build_context`]) and, where
    /// the event yields one, hands it to every detector in registration
    /// order: each detector's `analyze` is called with a context of that
    /// value.
    pub fn process_etw_event(&self, event: &Event)
        ensures
            context_of(event.process_id, stack_frames(event.items())) matches Some(v) ==> forall|i: int|
                0 <= i < self.detectors().len() ==> analyzed(#[trigger] self.detectors()[i], v),
    {
        let stack = event.stack_trace();
        if let Some(context) = build_context(event.pid(), stack) {
            let n = self.detectors.len();
            let mut i: usize = 0;
            while i < n
                invariant
                    n == self.detectors@.len(),
                    i <= n,
                    forall|k: int| 0 <= k < i ==> analyzed(#[trigger] self.detectors@[k], context@),
                decreases n - i,
            {
                self.detectors[i].analyze(&context);
                assert(analyzed(self.detectors@[i as int], context@));
                i = i + 1;
            }
        }
    }
}

/// Routes an event to the engine, if one is running, unless it must not be
/// analyzed (see [`forwards_event`]), and returns whether it was handed to
/// the engine: exactly when an engine runs and the event is forwarded.
/// Where it is handed over and yields a context, every detector of the
/// engine analyzes that context.
pub fn syscall_detection_callback<D: Detector>(
    engine: Option<&DetectionEngine<D>>,
    current_pid: u32,
    event: &Event,
) -> (handed: bool)
    ensures
        handed == (engine is Some && is_forwarded(event.process_id, current_pid)),
        handed ==> match engine {
            Some(e) => context_of(event.process_id, stack_frames(event.items())) matches Some(v)
                ==> forall|i: int| 0 <= i < e.detectors().len() ==> analyzed(#[trigger] e.detectors()[i], v),
            None => false,
        },
{
    if !forwards_event(event.pid(), current_pid) {
        return false;
    }
    match engine {
        Some(engine) => {
            engine.process_etw_event(event);
            true
        },
        None => false,
    }
}

} // verus!
