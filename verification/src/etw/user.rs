//! Configuration of a user-mode trace session: the provider it enables,
//! the event filters, the callbacks, and the parameters handed to Windows.

use vstd::prelude::*;
use crate::etw::session::{random_session_guid, TraceProperties, EVENT_TRACE_REAL_TIME_MODE};
use crate::etw::types::{condition_holds, Event, FilterCondition};
use crate::guid::{guid_from_str, guids_equal, string_to_guid, Guid, GuidView};

verus! {

/// ETW trace levels, from the most to the least severe.
#[derive(Debug, Clone, Copy, PartialEq, Eq, Structural)]
pub enum LogLevel {
    Critical,
    Error,
    Warning,
    Info,
    Verbose,
}

/// The number that Windows uses for a level.
pub open spec fn level_value(level: LogLevel) -> u8 {
    match level {
        LogLevel::Critical => 1,
        LogLevel::Error => 2,
        LogLevel::Warning => 3,
        LogLevel::Info => 4,
        LogLevel::Verbose => 5,
    }
}

impl LogLevel {
    /// The number that Windows uses for this level (1 to 5).
    pub fn value(&self) -> (r: u8)
        ensures
            r == level_value(*self),
    {
        match self {
            LogLevel::Critical => 1,
            LogLevel::Error => 2,
            LogLevel::Warning => 3,
            LogLevel::Info => 4,
            LogLevel::Verbose => 5,
        }
    }
}

impl Default for LogLevel {
    fn default() -> (r: Self)
        ensures
            r == LogLevel::Verbose,
    {
        LogLevel::Verbose
    }
}

/// An event filter: a condition on the event ID and the callbacks that run
/// on the events that pass it.
#[derive(Clone)]
pub struct EventFilter<C> {
    pub condition: FilterCondition,
    pub callbacks: Vec<C>,
}

impl<C> EventFilter<C> {
    /// A filter with no callbacks.
    pub fn new(condition: FilterCondition) -> (f: Self)
        ensures
            f.condition == condition,
            f.callbacks@ == Seq::<C>::empty(),
    {
        EventFilter { condition, callbacks: Vec::new() }
    }

    /// Adds a callback after those already there.
    pub fn add_callback(&mut self, callback: C)
        ensures
            final(self).condition == old(self).condition,
            final(self).callbacks@ == old(self).callbacks@.push(callback),
    {
        self.callbacks.push(callback);
    }
}

/// A provider registered on the system: its GUID and its name.
#[derive(Clone, Debug)]
pub struct ProviderEntry {
    pub guid: Guid,
    pub name: String,
}

/// The name under which the provider `guid_str` is registered: the name of
/// the first entry with its GUID, or `guid_str` itself when none has it.
pub open spec fn provider_name_of(guid_str: Seq<char>, registered: Seq<ProviderEntry>) -> Seq<
    char,
>
    decreases registered.len(),
{
    if registered.len() == 0 {
        guid_str
    } else if registered[0].guid@ == guid_from_str(guid_str)->0 {
        registered[0].name@
    } else {
        provider_name_of(guid_str, registered.drop_first())
    }
}

/// The name under which the provider `guid_str` is registered (see
/// [`provider_name_of`]). `registered` lists the providers that the system
/// reports.
pub fn provider_name(guid_str: &str, registered: &Vec<ProviderEntry>) -> (name: String)
    requires
        guid_from_str(guid_str@) is Some,
    ensures
        name@ == provider_name_of(guid_str@, registered@),
{
    let target = string_to_guid(guid_str);
    let n = registered.len();
    let mut i: usize = 0;
    assert(registered@.skip(0) =~= registered@);
    while i < n
        invariant
            n == registered@.len(),
            i <= n,
            target@ == guid_from_str(guid_str@)->0,
            provider_name_of(guid_str@, registered@) == provider_name_of(
                guid_str@,
                registered@.skip(i as int),
            ),
        decreases n - i,
    {
        assert(registered@.skip(i as int).drop_first() =~= registered@.skip(i + 1));
        assert(registered@.skip(i as int)[0] == registered@[i as int]);
        if guids_equal(&registered[i].guid, &target) {
            return registered[i].name.clone();
        }
        i = i + 1;
    }
    guid_str.to_owned()
}

/// The provider that a user-mode session enables and how.
pub struct ProviderConfig<C> {
    pub name: String,
    pub guid: Guid,
    pub any_keyword: u64,
    pub all_keyword: u64,
    pub level: LogLevel,
    /// `EnableProperty` flags, such as the one that attaches stack traces.
    pub trace_flags: Option<u32>,
    pub filters: Vec<EventFilter<C>>,
}

/// The IDs of the `DoesMatch` filters, in filter order.
pub open spec fn matched_ids<C>(filters: Seq<EventFilter<C>>) -> Seq<u16>
    decreases filters.len(),
{
    if filters.len() == 0 {
        Seq::empty()
    } else {
        match filters.last().condition {
            FilterCondition::DoesMatch(id) => matched_ids(filters.drop_last()).push(id),
            FilterCondition::DoesNotMatch(_) => matched_ids(filters.drop_last()),
        }
    }
}

/// The two bytes of `x`, least significant first.
pub open spec fn le16(x: u16) -> Seq<u8> {
    seq![(x % 256) as u8, (x / 256) as u8]
}

/// The bytes of a sequence of 16-bit numbers, each least significant first.
pub open spec fn le16_all(ids: Seq<u16>) -> Seq<u8>
    decreases ids.len(),
{
    if ids.len() == 0 {
        Seq::empty()
    } else {
        le16_all(ids.drop_last()) + le16(ids.last())
    }
}

/// The `EVENT_FILTER_EVENT_ID` block that lets only the events with the
/// given IDs through: `FilterIn` (1), a reserved zero byte, the count of IDs
/// (taken modulo 2^16, as `len() as u16` does) and the IDs, all in the
/// little-endian layout of Windows. No block when there are no IDs.
pub open spec fn event_id_filter(ids: Seq<u16>) -> Option<Seq<u8>> {
    if ids.len() == 0 {
        None
    } else {
        Some(seq![1u8, 0u8] + le16((ids.len() % 0x1_0000) as u16) + le16_all(ids))
    }
}

fn push_le16(out: &mut Vec<u8>, x: u16)
    ensures
        final(out)@ == old(out)@ + le16(x),
{
    out.push((x % 256) as u8);
    out.push((x / 256) as u8);
    assert(final(out)@ =~= old(out)@ + le16(x));
}

impl<C> ProviderConfig<C> {
    /// A provider configuration with the defaults: all keywords, verbose
    /// level, no trace flags and no filters.
    pub fn new(guid_str: &str, name: String) -> (p: Self)
        requires
            guid_from_str(guid_str@) is Some,
        ensures
            p.name == name,
            p.guid@ == guid_from_str(guid_str@)->0,
            p.any_keyword == 0,
            p.all_keyword == 0,
            p.level == LogLevel::Verbose,
            p.trace_flags is None,
            p.filters@ == Seq::<EventFilter<C>>::empty(),
    {
        ProviderConfig {
            name,
            guid: string_to_guid(guid_str),
            any_keyword: 0,
            all_keyword: 0,
            level: LogLevel::default(),
            trace_flags: None,
            filters: Vec::new(),
        }
    }

    /// The event-ID filter block for `EnableTraceEx2` (see
    /// [`event_id_filter`]), built from the `DoesMatch` filters.
    pub fn build_filter_descriptors(&self) -> (r: Option<Vec<u8>>)
        ensures
            match event_id_filter(matched_ids(self.filters@)) {
                Some(bytes) => r matches Some(v) && v@ == bytes,
                None => r is None,
            },
    {
        let mut ids: Vec<u16> = Vec::new();
        let n = self.filters.len();
        let mut i: usize = 0;
        while i < n
            invariant
                n == self.filters@.len(),
                i <= n,
                ids@ == matched_ids(self.filters@.take(i as int)),
            decreases n - i,
        {
            assert(self.filters@.take(i + 1).drop_last() =~= self.filters@.take(i as int));
            match self.filters[i].condition {
                FilterCondition::DoesMatch(id) => {
                    ids.push(id);
                },
                FilterCondition::DoesNotMatch(_) => {},
            }
            i = i + 1;
        }
        assert(self.filters@.take(n as int) =~= self.filters@);
        if ids.len() == 0 {
            return None;
        }
        let mut buffer: Vec<u8> = Vec::new();
        buffer.push(1u8);
        buffer.push(0u8);
        push_le16(&mut buffer, (ids.len() % 0x1_0000) as u16);
        let m = ids.len();
        let mut k: usize = 0;
        while k < m
            invariant
                m == ids@.len(),
                k <= m,
                buffer@ == seq![1u8, 0u8] + le16((m % 0x1_0000) as u16) + le16_all(ids@.take(k as int)),
            decreases m - k,
        {
            assert(ids@.take(k + 1).drop_last() =~= ids@.take(k as int));
            push_le16(&mut buffer, ids[k]);
            k = k + 1;
        }
        assert(ids@.take(m as int) =~= ids@);
        Some(buffer)
    }
}

/// What `EnableTraceEx2` is called with to enable a provider.
#[derive(Clone, Debug)]
pub struct EnableParameters {
    pub provider: Guid,
    pub level: u8,
    pub any_keyword: u64,
    pub all_keyword: u64,
    /// `EnableProperty` of `ENABLE_TRACE_PARAMETERS`.
    pub enable_property: u32,
    /// The event-ID filter block, if any.
    pub event_id_filter: Option<Vec<u8>>,
}

/// Which callback to run for an event.
#[derive(Clone, Copy, Debug, PartialEq, Eq, Structural)]
pub enum CallbackRef {
    /// Callback `index` of filter `filter`.
    Filter { filter: usize, index: usize },
    /// Global callback `index` of the session.
    Global { index: usize },
}

/// The callbacks of the filters that an event with ID `id` passes: for each
/// such filter in order, its callbacks in order.
pub open spec fn filter_callbacks<C>(filters: Seq<EventFilter<C>>, id: u16) -> Seq<CallbackRef>
    decreases filters.len(),
{
    if filters.len() == 0 {
        Seq::empty()
    } else {
        let i = filters.len() - 1;
        filter_callbacks(filters.drop_last(), id) + if condition_holds(filters.last().condition, id) {
            Seq::new(
                filters.last().callbacks@.len(),
                |j: int| CallbackRef::Filter { filter: i as usize, index: j as usize },
            )
        } else {
            Seq::empty()
        }
    }
}

/// Whether an event with ID `id` passes at least one of the filters.
pub open spec fn passes_any<C>(filters: Seq<EventFilter<C>>, id: u16) -> bool
    decreases filters.len(),
{
    filters.len() > 0 && (passes_any(filters.drop_last(), id) || condition_holds(
        filters.last().condition,
        id,
    ))
}

/// All global callbacks, each once, in order.
pub open spec fn global_run(globals: nat) -> Seq<CallbackRef> {
    Seq::new(globals, |j: int| CallbackRef::Global { index: j as usize })
}

/// The callbacks that run for an event with ID `id`, given the session's
/// filters and its number of global callbacks: the callbacks of each filter
/// that the event passes, in filter order, and then, when it passes at
/// least one filter, every global callback once.
pub open spec fn fired_callbacks<C>(filters: Seq<EventFilter<C>>, globals: nat, id: u16) -> Seq<
    CallbackRef,
> {
    filter_callbacks(filters, id) + if passes_any(filters, id) {
        global_run(globals)
    } else {
        Seq::empty()
    }
}

/// A user-mode trace session and the single provider it enables.
pub struct UserTrace<C> {
    pub session_name: String,
    pub provider: Option<ProviderConfig<C>>,
    /// Callbacks that run on every matched event.
    pub global_callbacks: Vec<C>,
}

/// The callbacks that run for an event from provider `provider_guid` with
/// ID `id` (see [`fired_callbacks`]): none unless the session has a
/// provider, and none for events of another provider.
pub open spec fn dispatched_callbacks<C>(trace: UserTrace<C>, provider_guid: GuidView, id: u16) -> Seq<
    CallbackRef,
> {
    match trace.provider {
        None => Seq::empty(),
        Some(p) => if p.guid@ != provider_guid {
            Seq::empty()
        } else {
            fired_callbacks(p.filters@, trace.global_callbacks@.len(), id)
        },
    }
}

impl<C> UserTrace<C> {
    /// A session named `name` without a provider or callbacks.
    pub fn new(name: &str) -> (t: Self)
        ensures
            t.session_name@ == name@,
            t.provider is None,
            t.global_callbacks@ == Seq::<C>::empty(),
    {
        UserTrace { session_name: name.to_owned(), provider: None, global_callbacks: Vec::new() }
    }

    /// Sets the provider from its GUID string, with the default settings
    /// (see [`ProviderConfig::new`]) and the name under which it is
    /// registered (see [`provider_name`]). A provider set before is
    /// replaced, with its filters.
    pub fn provider_guid(self, guid_str: &str, registered: &Vec<ProviderEntry>) -> (t: Self)
        requires
            guid_from_str(guid_str@) is Some,
        ensures
            t.session_name == self.session_name,
            t.global_callbacks == self.global_callbacks,
            t.provider matches Some(p) && p.name@ == provider_name_of(guid_str@, registered@)
                && p.guid@ == guid_from_str(guid_str@)->0 && p.any_keyword == 0 && p.all_keyword
                == 0 && p.level == LogLevel::Verbose && p.trace_flags is None && p.filters@
                == Seq::<EventFilter<C>>::empty(),
    {
        let name = provider_name(guid_str, registered);
        let mut t = self;
        t.provider = Some(ProviderConfig::new(guid_str, name));
        t
    }

    /// Sets the trace flags of the provider; without a provider nothing
    /// changes.
    pub fn enable_flags(self, flags: u32) -> (t: Self)
        ensures
            t.session_name == self.session_name,
            t.global_callbacks == self.global_callbacks,
            match self.provider {
                None => t.provider is None,
                Some(p) => t.provider matches Some(q) && q.name == p.name && q.guid == p.guid
                    && q.any_keyword == p.any_keyword && q.all_keyword == p.all_keyword && q.level
                    == p.level && q.trace_flags == Some(flags) && q.filters == p.filters,
            },
    {
        let mut t = self;
        match t.provider {
            Some(p) => {
                let mut p = p;
                p.trace_flags = Some(flags);
                t.provider = Some(p);
            },
            None => {},
        }
        t
    }

    /// Appends filters to the provider's, in order; without a provider
    /// they are dropped.
    pub fn add_filters(self, filters: Vec<EventFilter<C>>) -> (t: Self)
        ensures
            t.session_name == self.session_name,
            t.global_callbacks == self.global_callbacks,
            match self.provider {
                None => t.provider is None,
                Some(p) => t.provider matches Some(q) && q.name == p.name && q.guid == p.guid
                    && q.any_keyword == p.any_keyword && q.all_keyword == p.all_keyword && q.level
                    == p.level && q.trace_flags == p.trace_flags && q.filters@ == p.filters@
                    + filters@,
            },
    {
        let mut t = self;
        let mut filters = filters;
        match t.provider {
            Some(p) => {
                let mut p = p;
                p.filters.append(&mut filters);
                t.provider = Some(p);
            },
            None => {},
        }
        t
    }

    /// Adds a global callback after those already there. Global callbacks
    /// run once on every event that passes at least one filter.
    pub fn add_callback(self, callback: C) -> (t: Self)
        ensures
            t.session_name == self.session_name,
            t.provider == self.provider,
            t.global_callbacks@ == self.global_callbacks@.push(callback),
    {
        let mut t = self;
        t.global_callbacks.push(callback);
        t
    }

    /// The name of the session.
    pub fn get_session_name(&self) -> (s: String)
        ensures
            s@ == self.session_name@,
    {
        self.session_name.clone()
    }

    /// The GUID of the provider, if one is set.
    pub fn provider_guid_value(&self) -> (r: Option<Guid>)
        ensures
            match self.provider {
                Some(p) => r == Some(p.guid),
                None => r is None,
            },
    {
        match &self.provider {
            Some(p) => Some(p.guid),
            None => None,
        }
    }

    /// The provider's filters; none without a provider.
    pub fn filters(&self) -> (r: &[EventFilter<C>])
        ensures
            match self.provider {
                Some(p) => r@ == p.filters@,
                None => r@ == Seq::<EventFilter<C>>::empty(),
            },
    {
        match &self.provider {
            Some(p) => p.filters.as_slice(),
            None => &[],
        }
    }

    /// The global callbacks.
    pub fn global_callbacks(&self) -> (r: &[C])
        ensures
            r@ == self.global_callbacks@,
    {
        self.global_callbacks.as_slice()
    }

    /// The parameters with which `EnableTraceEx2` enables the provider:
    /// its GUID, level and keywords, its trace flags (zero when unset) and
    /// the event-ID filter block of its `DoesMatch` filters. `None` without
    /// a provider, which is then not enabled.
    pub fn enable_parameters(&self) -> (r: Option<EnableParameters>)
        ensures
            match self.provider {
                None => r is None,
                Some(p) => r matches Some(e) && e.provider == p.guid && e.level == level_value(
                    p.level,
                ) && e.any_keyword == p.any_keyword && e.all_keyword == p.all_keyword
                    && e.enable_property == (match p.trace_flags {
                    Some(f) => f,
                    None => 0u32,
                }) && match event_id_filter(matched_ids(p.filters@)) {
                    Some(bytes) => e.event_id_filter matches Some(v) && v@ == bytes,
                    None => e.event_id_filter is None,
                },
            },
    {
        match &self.provider {
            None => None,
            Some(p) => {
                let enable_property = match p.trace_flags {
                    Some(f) => f,
                    None => 0,
                };
                Some(
                    EnableParameters {
                        provider: p.guid,
                        level: p.level.value(),
                        any_keyword: p.any_keyword,
                        all_keyword: p.all_keyword,
                        enable_property,
                        event_id_filter: p.build_filter_descriptors(),
                    },
                )
            },
        }
    }

    /// The properties a user-mode session is started with: a fresh random
    /// session GUID, real-time delivery, 64 KB buffers, two to twenty of
    /// them, a flush every second, and no kernel flags.
    pub fn session_properties(&self) -> (p: TraceProperties)
        ensures
            (p.session_guid.data3 % 256) / 16 == 4,
            p.session_guid.data4[0] / 64 == 2,
            p.log_file_mode == EVENT_TRACE_REAL_TIME_MODE,
            p.buffer_size == 64,
            p.minimum_buffers == 2,
            p.maximum_buffers == 20,
            p.flush_timer == 1,
            p.enable_flags == 0,
    {
        TraceProperties {
            session_guid: random_session_guid(),
            log_file_mode: EVENT_TRACE_REAL_TIME_MODE,
            buffer_size: 64,
            minimum_buffers: 2,
            maximum_buffers: 20,
            flush_timer: 1,
            enable_flags: 0,
        }
    }

    /// The callbacks to run, in order, for `event` (see
    /// [`dispatched_callbacks`]): those of each filter the event passes,
    /// each time followed by all global callbacks.
    pub fn callbacks_for(&self, event: &Event) -> (r: Vec<CallbackRef>)
        ensures
            r@ == dispatched_callbacks(*self, event.provider_id@, event.event_id),
    {
        let mut out: Vec<CallbackRef> = Vec::new();
        match &self.provider {
            None => {},
            Some(p) => {
                if guids_equal(&p.guid, &event.provider_id) {
                    let g = self.global_callbacks.len();
                    let n = p.filters.len();
                    let mut any = false;
                    let mut i: usize = 0;
                    while i < n
                        invariant
                            n == p.filters@.len(),
                            g == self.global_callbacks@.len(),
                            i <= n,
                            out@ == filter_callbacks(p.filters@.take(i as int), event.event_id),
                            any == passes_any(p.filters@.take(i as int), event.event_id),
                        decreases n - i,
                    {
                        let filter = &p.filters[i];
                        assert(p.filters@.take(i + 1).drop_last() =~= p.filters@.take(i as int));
                        assert(p.filters@.take(i + 1).last() == *filter);
                        if filter.condition.matches(event.event_id) {
                            any = true;
                            let ghost before = out@;
                            let m = filter.callbacks.len();
                            let mut j: usize = 0;
                            while j < m
                                invariant
                                    m == filter.callbacks@.len(),
                                    j <= m,
                                    out@ == before + Seq::new(
                                        j as nat,
                                        |k: int| CallbackRef::Filter { filter: i, index: k as usize },
                                    ),
                                decreases m - j,
                            {
                                out.push(CallbackRef::Filter { filter: i, index: j });
                                assert(Seq::new(
                                    j as nat,
                                    |k: int| CallbackRef::Filter { filter: i, index: k as usize },
                                ).push(CallbackRef::Filter { filter: i, index: j }) =~= Seq::new(
                                    (j + 1) as nat,
                                    |k: int| CallbackRef::Filter { filter: i, index: k as usize },
                                ));
                                j = j + 1;
                            }
                            assert(out@ =~= filter_callbacks(p.filters@.take(i + 1), event.event_id));
                        } else {
                            assert(out@ =~= filter_callbacks(p.filters@.take(i + 1), event.event_id));
                        }
                        i = i + 1;
                    }
                    assert(p.filters@.take(n as int) =~= p.filters@);
                    let ghost filtered = out@;
                    if any {
                        let mut j: usize = 0;
                        while j < g
                            invariant
                                j <= g,
                                out@ == filtered + Seq::new(
                                    j as nat,
                                    |k: int| CallbackRef::Global { index: k as usize },
                                ),
                            decreases g - j,
                        {
                            out.push(CallbackRef::Global { index: j });
                            assert(Seq::new(
                                j as nat,
                                |k: int| CallbackRef::Global { index: k as usize },
                            ).push(CallbackRef::Global { index: j }) =~= Seq::new(
                                (j + 1) as nat,
                                |k: int| CallbackRef::Global { index: k as usize },
                            ));
                            j = j + 1;
                        }
                    }
                    assert(out@ =~= fired_callbacks(p.filters@, g as nat, event.event_id));
                }
            },
        }
        out
    }
}

/// Whether a callback reference names a callback that exists: a callback
/// of an existing filter, or an existing global callback.
pub open spec fn refers_within<C>(r: CallbackRef, filters: Seq<EventFilter<C>>, globals: nat) -> bool {
    match r {
        CallbackRef::Filter { filter, index } => filter < filters.len() && index
            < filters[filter as int].callbacks@.len(),
        CallbackRef::Global { index } => index < globals,
    }
}

/// Whether every length that a callback reference may index fits in `usize`.
pub open spec fn lengths_fit<C>(filters: Seq<EventFilter<C>>, globals: nat) -> bool {
    &&& filters.len() <= usize::MAX
    &&& globals <= usize::MAX
    &&& forall|i: int| 0 <= i < filters.len() ==> #[trigger] filters[i].callbacks@.len() <= usize::MAX
}

proof fn lemma_filter_callbacks_within<C>(filters: Seq<EventFilter<C>>, globals: nat, id: u16)
    requires
        lengths_fit(filters, globals),
    ensures
        forall|k: int| 0 <= k < filter_callbacks(filters, id).len() ==> refers_within(
            #[trigger] filter_callbacks(filters, id)[k],
            filters,
            globals,
        ) && filter_callbacks(filters, id)[k] is Filter,
    decreases filters.len(),
{
    if filters.len() > 0 {
        let init = filters.drop_last();
        assert forall|i: int| 0 <= i < init.len() implies #[trigger] init[i].callbacks@.len() <= usize::MAX by {
            assert(init[i] == filters[i]);
        }
        lemma_filter_callbacks_within(init, globals, id);
        let prev = filter_callbacks(init, id);
        let whole = filter_callbacks(filters, id);
        assert forall|k: int| 0 <= k < whole.len() implies refers_within(
            #[trigger] whole[k],
            filters,
            globals,
        ) && whole[k] is Filter by {
            if k < prev.len() {
                assert(whole[k] == prev[k]);
                assert(refers_within(prev[k], init, globals));
                match prev[k] {
                    CallbackRef::Filter { filter, index } => {
                        assert(init[filter as int] == filters[filter as int]);
                    },
                    CallbackRef::Global { index } => {},
                }
            } else {
                assert(filters.last().callbacks@.len() <= usize::MAX);
            }
        }
    }
}

proof fn lemma_fired_within<C>(filters: Seq<EventFilter<C>>, globals: nat, id: u16)
    requires
        lengths_fit(filters, globals),
    ensures
        forall|k: int| 0 <= k < fired_callbacks(filters, globals, id).len() ==> refers_within(
            #[trigger] fired_callbacks(filters, globals, id)[k],
            filters,
            globals,
        ),
{
    lemma_filter_callbacks_within(filters, globals, id);
    let fc = filter_callbacks(filters, id);
    let whole = fired_callbacks(filters, globals, id);
    assert forall|k: int| 0 <= k < whole.len() implies refers_within(#[trigger] whole[k], filters, globals) by {
        if k < fc.len() {
            assert(whole[k] == fc[k]);
        } else {
            assert(whole[k] == global_run(globals)[k - fc.len()]);
        }
    }
}

/// Every callback that dispatch names exists, so running the named
/// callbacks never indexes outside the session's filters and callbacks.
pub proof fn lemma_dispatch_within_bounds<C>(trace: UserTrace<C>, provider_guid: GuidView, id: u16)
    requires
        trace.provider matches Some(p) ==> lengths_fit(p.filters@, trace.global_callbacks@.len()),
    ensures
        forall|k: int| 0 <= k < dispatched_callbacks(trace, provider_guid, id).len() ==> match trace.provider {
            Some(p) => refers_within(
                #[trigger] dispatched_callbacks(trace, provider_guid, id)[k],
                p.filters@,
                trace.global_callbacks@.len(),
            ),
            None => false,
        },
{
    match trace.provider {
        Some(p) => {
            lemma_fired_within(p.filters@, trace.global_callbacks@.len(), id);
        },
        None => {},
    }
}

/// Whether a callback reference, where it names a filter's callback, names
/// one of a filter that an event with ID `id` passes.
pub open spec fn filter_passes<C>(r: CallbackRef, filters: Seq<EventFilter<C>>, id: u16) -> bool {
    match r {
        CallbackRef::Filter { filter, index } => filter < filters.len() && condition_holds(
            filters[filter as int].condition,
            id,
        ),
        CallbackRef::Global { index } => true,
    }
}

proof fn lemma_fired_pass<C>(filters: Seq<EventFilter<C>>, globals: nat, id: u16)
    requires
        filters.len() <= usize::MAX,
    ensures
        forall|k: int| 0 <= k < fired_callbacks(filters, globals, id).len() ==> filter_passes(
            #[trigger] fired_callbacks(filters, globals, id)[k],
            filters,
            id,
        ),
{
    lemma_filter_callbacks_meet(filters, id);
    let fc = filter_callbacks(filters, id);
    let whole = fired_callbacks(filters, globals, id);
    assert forall|k: int| 0 <= k < whole.len() implies filter_passes(#[trigger] whole[k], filters, id) by {
        if k < fc.len() {
            assert(whole[k] == fc[k]);
        } else {
            assert(whole[k] == global_run(globals)[k - fc.len()]);
        }
    }
}

proof fn lemma_filter_callbacks_meet<C>(filters: Seq<EventFilter<C>>, id: u16)
    requires
        filters.len() <= usize::MAX,
    ensures
        forall|k: int| 0 <= k < filter_callbacks(filters, id).len() ==> filter_passes(
            #[trigger] filter_callbacks(filters, id)[k],
            filters,
            id,
        ),
    decreases filters.len(),
{
    if filters.len() > 0 {
        let init = filters.drop_last();
        lemma_filter_callbacks_meet(init, id);
        let prev = filter_callbacks(init, id);
        let whole = filter_callbacks(filters, id);
        assert forall|k: int| 0 <= k < whole.len() implies filter_passes(#[trigger] whole[k], filters, id) by {
            if k < prev.len() {
                assert(whole[k] == prev[k]);
                assert(filter_passes(prev[k], init, id));
                match prev[k] {
                    CallbackRef::Filter { filter, index } => {
                        assert(init[filter as int] == filters[filter as int]);
                    },
                    CallbackRef::Global { index } => {},
                }
            }
        }
    }
}

/// Filter-level callbacks run only for events that pass their filter: every
/// filter callback that dispatch names belongs to a filter whose condition
/// the event's ID meets.
pub proof fn lemma_filter_callbacks_pass<C>(trace: UserTrace<C>, provider_guid: GuidView, id: u16)
    requires
        trace.provider matches Some(p) ==> p.filters@.len() <= usize::MAX,
    ensures
        forall|k: int| 0 <= k < dispatched_callbacks(trace, provider_guid, id).len() ==> match trace.provider {
            Some(p) => filter_passes(#[trigger] dispatched_callbacks(trace, provider_guid, id)[k], p.filters@, id),
            None => false,
        },
{
    match trace.provider {
        Some(p) => {
            lemma_fired_pass(p.filters@, trace.global_callbacks@.len(), id);
        },
        None => {},
    }
}

/// Each global callback runs exactly once for an event that passes at least
/// one filter of the session's provider, and not at all otherwise: a global
/// callback is named by dispatch exactly when the event is the provider's
/// and passes some filter, and never twice.
pub proof fn lemma_globals_run_once<C>(trace: UserTrace<C>, provider_guid: GuidView, id: u16)
    requires
        trace.provider matches Some(p) ==> lengths_fit(p.filters@, trace.global_callbacks@.len()),
    ensures
        forall|j: int|
            0 <= j < trace.global_callbacks@.len() ==> (#[trigger] dispatched_callbacks(
                trace,
                provider_guid,
                id,
            ).contains(CallbackRef::Global { index: j as usize }) <==> (trace.provider matches Some(
                p,
            ) && p.guid@ == provider_guid && passes_any(p.filters@, id))),
        forall|a: int, b: int|
            0 <= a < b < dispatched_callbacks(trace, provider_guid, id).len() && (
            #[trigger] dispatched_callbacks(trace, provider_guid, id)[a]) is Global ==> dispatched_callbacks(
                trace,
                provider_guid,
                id,
            )[a] != #[trigger] dispatched_callbacks(trace, provider_guid, id)[b],
{
    let g = trace.global_callbacks@.len();
    let d = dispatched_callbacks(trace, provider_guid, id);
    match trace.provider {
        Some(p) => {
            if p.guid@ == provider_guid {
                let fc = filter_callbacks(p.filters@, id);
                lemma_filter_callbacks_within(p.filters@, g, id);
                assert forall|j: int| 0 <= j < g implies #[trigger] d.contains(
                    CallbackRef::Global { index: j as usize },
                ) <==> passes_any(p.filters@, id) by {
                    if passes_any(p.filters@, id) {
                        assert(d[fc.len() + j] == CallbackRef::Global { index: j as usize });
                    }
                    if d.contains(CallbackRef::Global { index: j as usize }) {
                        let k = choose|k: int| 0 <= k < d.len() && d[k] == CallbackRef::Global { index: j as usize };
                        if k < fc.len() {
                            assert(d[k] == fc[k]);
                        }
                    }
                }
                assert forall|a: int, b: int|
                    0 <= a < b < d.len() && (#[trigger] d[a]) is Global implies d[a] != #[trigger] d[b] by {
                    if a < fc.len() {
                        assert(d[a] == fc[a]);
                    } else {
                        assert(d[a] == global_run(g)[a - fc.len()]);
                        assert(d[b] == global_run(g)[b - fc.len()]);
                    }
                }
            } else {
                assert forall|j: int| 0 <= j < g implies !#[trigger] d.contains(
                    CallbackRef::Global { index: j as usize },
                ) by {
                    assert(d.len() == 0);
                }
            }
        },
        None => {
            assert forall|j: int| 0 <= j < g implies !#[trigger] d.contains(
                CallbackRef::Global { index: j as usize },
            ) by {
                assert(d.len() == 0);
            }
        },
    }
}

/// An event passes some filter exactly when the condition of one of the
/// filters, whichever it is, holds for the event's ID.
proof fn lemma_passes_any_some_filter<C>(filters: Seq<EventFilter<C>>, id: u16)
    ensures
        passes_any(filters, id) <==> exists|i: int|
            0 <= i < filters.len() && condition_holds(#[trigger] filters[i].condition, id),
    decreases filters.len(),
{
    if filters.len() > 0 {
        let init = filters.drop_last();
        lemma_passes_any_some_filter(init, id);
        if passes_any(init, id) {
            let i = choose|i: int| 0 <= i < init.len() && condition_holds(#[trigger] init[i].condition, id);
            assert(filters[i] == init[i]);
        }
        if exists|i: int| 0 <= i < filters.len() && condition_holds(#[trigger] filters[i].condition, id) {
            let i = choose|i: int| 0 <= i < filters.len() && condition_holds(#[trigger] filters[i].condition, id);
            if i < filters.len() - 1 {
                assert(init[i] == filters[i]);
            }
        }
    }
}

/// Whether the global callbacks run is decided by all the filters, not by
/// one of them: a global callback is dispatched for an event exactly when
/// the event is the session's provider's and the condition of some filter,
/// whichever it is, holds for the event's ID.
pub proof fn lemma_globals_follow_any_filter<C>(trace: UserTrace<C>, provider_guid: GuidView, id: u16)
    requires
        trace.provider matches Some(p) ==> lengths_fit(p.filters@, trace.global_callbacks@.len()),
    ensures
        forall|j: int|
            0 <= j < trace.global_callbacks@.len() ==> (#[trigger] dispatched_callbacks(
                trace,
                provider_guid,
                id,
            ).contains(CallbackRef::Global { index: j as usize }) <==> (trace.provider matches Some(p)
                && p.guid@ == provider_guid && exists|i: int|
                0 <= i < p.filters@.len() && condition_holds(#[trigger] p.filters@[i].condition, id))),
{
    lemma_globals_run_once(trace, provider_guid, id);
    match trace.provider {
        Some(p) => {
            lemma_passes_any_some_filter(p.filters@, id);
        },
        None => {},
    }
}

/// An event of another provider than the session's runs no callback.
pub proof fn lemma_other_provider_runs_nothing<C>(trace: UserTrace<C>, provider_guid: GuidView, id: u16)
    requires
        trace.provider matches Some(p) && p.guid@ != provider_guid,
    ensures
        dispatched_callbacks(trace, provider_guid, id).len() == 0,
{
}

proof fn lemma_le16_all_len(ids: Seq<u16>)
    ensures
        le16_all(ids).len() == 2 * ids.len(),
    decreases ids.len(),
{
    if ids.len() > 0 {
        lemma_le16_all_len(ids.drop_last());
    }
}

/// The event-ID filter block holds four header bytes and two bytes per ID,
/// and it lets events in (its first byte is 1).
pub proof fn lemma_event_id_filter_layout(ids: Seq<u16>)
    ensures
        event_id_filter(ids) matches Some(b) ==> b.len() == 4 + 2 * ids.len() && b[0] == 1 && b[1] == 0,
        event_id_filter(ids) is None <==> ids.len() == 0,
{
    lemma_le16_all_len(ids);
}

} // verus!
