//! The library's model of an ETW event record: the header fields that the
//! detection logic reads and the extended data items that carry call stacks.

use vstd::prelude::*;
use crate::guid::Guid;

verus! {

/// Which events an event filter lets through, by event ID.
#[derive(Clone, Copy, Debug, PartialEq, Eq, Structural)]
pub enum FilterCondition {
    DoesMatch(u16),
    DoesNotMatch(u16),
}

/// Whether an event with ID `id` passes `condition`.
pub open spec fn condition_holds(condition: FilterCondition, id: u16) -> bool {
    match condition {
        FilterCondition::DoesMatch(x) => id == x,
        FilterCondition::DoesNotMatch(x) => id != x,
    }
}

impl FilterCondition {
    /// Whether an event with ID `event_id` passes this condition.
    pub fn matches(&self, event_id: u16) -> (r: bool)
        ensures
            r == condition_holds(*self, event_id),
    {
        match self {
            FilterCondition::DoesMatch(id) => event_id == *id,
            FilterCondition::DoesNotMatch(id) => event_id != *id,
        }
    }
}

/// One extended data item of an event record: its type tag and the bytes
/// that it carries (exactly `DataSize` bytes of the record).
#[derive(Clone, Debug)]
pub struct ExtendedDataItem {
    pub ext_type: u16,
    pub data: Vec<u8>,
}

impl View for ExtendedDataItem {
    type V = (u16, Seq<u8>);

    open spec fn view(&self) -> (u16, Seq<u8>) {
        (self.ext_type, self.data@)
    }
}

/// An event delivered by a trace session: the header fields and the
/// extended data items, copied out of the record that Windows hands to the
/// callback.
#[derive(Clone, Debug)]
pub struct Event {
    pub process_id: u32,
    pub thread_id: u32,
    pub event_id: u16,
    pub provider_id: Guid,
    pub extended_data: Vec<ExtendedDataItem>,
}

impl Event {
    /// The views of the extended data items, in record order.
    pub open spec fn items(&self) -> Seq<(u16, Seq<u8>)> {
        self.extended_data@.map_values(|item: ExtendedDataItem| item@)
    }

    pub fn new(
        process_id: u32,
        thread_id: u32,
        event_id: u16,
        provider_id: Guid,
        extended_data: Vec<ExtendedDataItem>,
    ) -> (e: Event)
        ensures
            e.process_id == process_id,
            e.thread_id == thread_id,
            e.event_id == event_id,
            e.provider_id == provider_id,
            e.extended_data == extended_data,
    {
        Event { process_id, thread_id, event_id, provider_id, extended_data }
    }

    /// The process ID of the event header.
    pub fn pid(&self) -> (r: u32)
        ensures
            r == self.process_id,
    {
        self.process_id
    }

    /// The thread ID of the event header.
    pub fn tid(&self) -> (r: u32)
        ensures
            r == self.thread_id,
    {
        self.thread_id
    }

    /// The event ID of the event descriptor.
    pub fn id(&self) -> (r: u16)
        ensures
            r == self.event_id,
    {
        self.event_id
    }

    /// The GUID of the provider that logged the event.
    pub fn provider_guid(&self) -> (r: Guid)
        ensures
            r == self.provider_id,
    {
        self.provider_id
    }
}

} // verus!
