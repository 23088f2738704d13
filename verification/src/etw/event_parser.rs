//! Extraction of call stacks from the extended data of an event record.

use vstd::prelude::*;
use crate::etw::errors::EtwError;
use crate::etw::types::{Event, ExtendedDataItem};
use crate::text::{encode_utf16, utf16_of};

verus! {

/// Extended data item type of a stack trace with 32-bit addresses.
pub const EVENT_HEADER_EXT_TYPE_STACK_TRACE32: u16 = 5;

/// Extended data item type of a stack trace with 64-bit addresses.
pub const EVENT_HEADER_EXT_TYPE_STACK_TRACE64: u16 = 6;

/// Size of the `MatchId` that precedes the addresses of a stack trace item.
pub const STACK_TRACE_HEADER_SIZE: usize = 8;

/// The little-endian 32-bit number at `b[at..at + 4]`.
pub open spec fn le_u32(b: Seq<u8>, at: int) -> nat {
    (b[at] + b[at + 1] * 0x100 + b[at + 2] * 0x1_0000 + b[at + 3] * 0x100_0000) as nat
}

/// The little-endian 64-bit number at `b[at..at + 8]`.
pub open spec fn le_u64(b: Seq<u8>, at: int) -> nat {
    (le_u32(b, at) + le_u32(b, at + 4) * 0x1_0000_0000) as nat
}

/// The return addresses that one extended data item carries. A
/// `STACK_TRACE64` item holds an 8-byte match ID and then 8-byte addresses;
/// a `STACK_TRACE32` item holds the match ID and then 4-byte addresses,
/// widened to 64 bits. Trailing bytes that do not make a whole address are
/// ignored; an item shorter than the match ID, or of another type, carries
/// none.
pub open spec fn item_frames(item: (u16, Seq<u8>)) -> Seq<u64> {
    let data = item.1;
    if data.len() < 8 {
        Seq::empty()
    } else if item.0 == 6 {
        Seq::new(((data.len() - 8) / 8) as nat, |k: int| le_u64(data, 8 + 8 * k) as u64)
    } else if item.0 == 5 {
        Seq::new(((data.len() - 8) / 4) as nat, |k: int| le_u32(data, 8 + 4 * k) as u64)
    } else {
        Seq::empty()
    }
}

/// The return addresses of all items, in item order.
pub open spec fn stack_frames(items: Seq<(u16, Seq<u8>)>) -> Seq<u64>
    decreases items.len(),
{
    if items.len() == 0 {
        Seq::empty()
    } else {
        stack_frames(items.drop_last()) + item_frames(items.last())
    }
}

fn read_le_u32(b: &Vec<u8>, at: usize) -> (r: u32)
    requires
        at + 4 <= b@.len(),
    ensures
        r == le_u32(b@, at as int),
{
    let _len = b.len();
    b[at] as u32 + b[at + 1] as u32 * 0x100 + b[at + 2] as u32 * 0x1_0000 + b[at + 3] as u32
        * 0x100_0000
}

fn read_le_u64(b: &Vec<u8>, at: usize) -> (r: u64)
    requires
        at + 8 <= b@.len(),
    ensures
        r == le_u64(b@, at as int),
{
    let _len = b.len();
    read_le_u32(b, at) as u64 + read_le_u32(b, at + 4) as u64 * 0x1_0000_0000
}

/// Appends the addresses that `item` carries to `out`.
fn push_item_frames(out: &mut Vec<u64>, item: &ExtendedDataItem)
    ensures
        final(out)@ == old(out)@ + item_frames(item@),
{
    let data = &item.data;
    let size = data.len();
    if size < STACK_TRACE_HEADER_SIZE {
        return;
    }
    let ghost base = out@;
    if item.ext_type == EVENT_HEADER_EXT_TYPE_STACK_TRACE64 {
        let count = (size - 8) / 8;
        let mut k: usize = 0;
        while k < count
            invariant
                size == data@.len(),
                size >= 8,
                count == (size - 8) / 8,
                k <= count,
                out@ == base + Seq::new(k as nat, |j: int| le_u64(data@, 8 + 8 * j) as u64),
            decreases count - k,
        {
            out.push(read_le_u64(data, 8 + 8 * k));
            assert(Seq::new(k as nat, |j: int| le_u64(data@, 8 + 8 * j) as u64).push(
                le_u64(data@, 8 + 8 * k) as u64,
            ) =~= Seq::new((k + 1) as nat, |j: int| le_u64(data@, 8 + 8 * j) as u64));
            k = k + 1;
        }
        assert(item_frames(item@) =~= Seq::new(count as nat, |j: int| le_u64(data@, 8 + 8 * j) as u64));
    } else if item.ext_type == EVENT_HEADER_EXT_TYPE_STACK_TRACE32 {
        let count = (size - 8) / 4;
        let mut k: usize = 0;
        while k < count
            invariant
                size == data@.len(),
                size >= 8,
                count == (size - 8) / 4,
                k <= count,
                out@ == base + Seq::new(k as nat, |j: int| le_u32(data@, 8 + 4 * j) as u64),
            decreases count - k,
        {
            out.push(read_le_u32(data, 8 + 4 * k) as u64);
            assert(Seq::new(k as nat, |j: int| le_u32(data@, 8 + 4 * j) as u64).push(
                le_u32(data@, 8 + 4 * k) as u64,
            ) =~= Seq::new((k + 1) as nat, |j: int| le_u32(data@, 8 + 4 * j) as u64));
            k = k + 1;
        }
        assert(item_frames(item@) =~= Seq::new(count as nat, |j: int| le_u32(data@, 8 + 4 * j) as u64));
    } else {
        assert(item_frames(item@) =~= Seq::empty());
        assert(out@ =~= base + item_frames(item@));
    }
}

/// Reads call stacks out of event records.
pub struct EventParser;

impl EventParser {
    /// The call stack that an event carries: the return addresses of all
    /// its stack-trace items, in order (see [`item_frames`]). Empty when the
    /// event carries none.
    pub fn parse_stack_trace(event: &Event) -> (call_stack: Vec<u64>)
        ensures
            call_stack@ == stack_frames(event.items()),
    {
        let mut call_stack: Vec<u64> = Vec::new();
        let items = &event.extended_data;
        let n = items.len();
        let mut i: usize = 0;
        while i < n
            invariant
                n == items@.len(),
                i <= n,
                items == event.extended_data,
                call_stack@ == stack_frames(event.items().take(i as int)),
            decreases n - i,
        {
            push_item_frames(&mut call_stack, &items[i]);
            assert(event.items().take(i + 1).drop_last() =~= event.items().take(i as int));
            i = i + 1;
        }
        assert(event.items().take(n as int) =~= event.items());
        call_stack
    }
}

impl Event {
    /// The call stack that this event carries (see
    /// [`EventParser::parse_stack_trace`]).
    pub fn stack_trace(&self) -> (r: Vec<u64>)
        ensures
            r@ == stack_frames(self.items()),
    {
        EventParser::parse_stack_trace(self)
    }
}

/// `EVENT_HEADER_FLAG_32_BIT_HEADER`: the event was logged by a 32-bit
/// process.
pub const EVENT_HEADER_FLAG_32_BIT_HEADER: u16 = 0x20;

/// `EVENT_HEADER_FLAG_64_BIT_HEADER`: the event was logged by a 64-bit
/// process.
pub const EVENT_HEADER_FLAG_64_BIT_HEADER: u16 = 0x40;

/// The size in bytes of a pointer in the event's data, from the flags of its
/// header: 4 for a 32-bit logger, else 8 for a 64-bit logger, else the size
/// of a pointer of this process.
pub fn pointer_size(header_flags: u16) -> (r: u32)
    ensures
        header_flags & 0x20 != 0 ==> r == 4,
        header_flags & 0x20 == 0 && header_flags & 0x40 != 0 ==> r == 8,
        header_flags & 0x20 == 0 && header_flags & 0x40 == 0 ==> r == core::mem::size_of::<usize>(),
{
    broadcast use vstd::layout::layout_of_primitives;

    if header_flags & EVENT_HEADER_FLAG_32_BIT_HEADER != 0 {
        4
    } else if header_flags & EVENT_HEADER_FLAG_64_BIT_HEADER != 0 {
        8
    } else {
        let size = core::mem::size_of::<usize>();
        assert(size == 4 || size == 8);
        size as u32
    }
}

/// Whether `i` is the first index of `names` at which `target` stands.
pub open spec fn first_match(names: Seq<Seq<u16>>, target: Seq<u16>, i: int) -> bool {
    &&& 0 <= i < names.len()
    &&& names[i] == target
    &&& forall|j: int| 0 <= j < i ==> names[j] != target
}

/// The index of the top-level property called `property_name`, given the
/// UTF-16 names of the top-level properties in schema order (each without
/// its terminating zero): the first whose name is exactly the UTF-16
/// encoding of `property_name`. When none is, the error names the property.
pub fn find_property(names: &Vec<Vec<u16>>, property_name: &str) -> (r: Result<usize, EtwError>)
    ensures
        match r {
            Ok(i) => first_match(names@.map_values(|n: Vec<u16>| n@), utf16_of(property_name@), i as int),
            Err(e) => (e matches EtwError::PropertyNotFound(s) && s@ == property_name@) && forall|j: int|
                0 <= j < names@.len() ==> names@[j]@ != utf16_of(property_name@),
        },
{
    let target = encode_utf16(property_name);
    let n = names.len();
    let mut i: usize = 0;
    while i < n
        invariant
            n == names@.len(),
            i <= n,
            target@ == utf16_of(property_name@),
            forall|j: int| 0 <= j < i ==> names@[j]@ != target@,
        decreases n - i,
    {
        if same_units(&names[i], &target) {
            return Ok(i);
        }
        i = i + 1;
    }
    Err(EtwError::PropertyNotFound(property_name.to_owned()))
}

/// Whether two sequences of code units are equal.
fn same_units(a: &Vec<u16>, b: &Vec<u16>) -> (r: bool)
    ensures
        r == (a@ == b@),
{
    if a.len() != b.len() {
        return false;
    }
    let n = a.len();
    let mut i: usize = 0;
    while i < n
        invariant
            n == a@.len(),
            n == b@.len(),
            i <= n,
            forall|j: int| 0 <= j < i ==> a@[j] == b@[j],
        decreases n - i,
    {
        if a[i] != b[i] {
            return false;
        }
        i = i + 1;
    }
    assert(a@ =~= b@);
    true
}

/// A 64-bit stack item of 8 + 8n bytes carries n frames, a 32-bit one of
/// 8 + 4n bytes carries n, and items of other types carry none.
pub proof fn lemma_item_frame_counts(ext_type: u16, data: Seq<u8>)
    ensures
        ext_type == 6 && data.len() >= 8 ==> item_frames((ext_type, data)).len() == (data.len() - 8) / 8,
        ext_type == 5 && data.len() >= 8 ==> item_frames((ext_type, data)).len() == (data.len() - 8) / 4,
        ext_type != 5 && ext_type != 6 ==> item_frames((ext_type, data)).len() == 0,
{
}

/// The frames of several items are those of each item, in item order.
pub proof fn lemma_stack_frames_append(items: Seq<(u16, Seq<u8>)>, more: Seq<(u16, Seq<u8>)>)
    ensures
        stack_frames(items + more) == stack_frames(items) + stack_frames(more),
    decreases more.len(),
{
    if more.len() == 0 {
        assert(items + more =~= items);
        assert(stack_frames(items) + stack_frames(more) =~= stack_frames(items));
    } else {
        lemma_stack_frames_append(items, more.drop_last());
        assert((items + more).drop_last() =~= items + more.drop_last());
        assert(stack_frames(items) + stack_frames(more) =~= stack_frames(items) + stack_frames(
            more.drop_last(),
        ) + item_frames(more.last()));
    }
}

} // verus!
