//! Schemas of the events of a manifest-based provider: names, parameters
//! and their types, keyed by event ID, built from the event information
//! that TDH reports for the provider's manifest.

use vstd::prelude::*;
use std::collections::HashMap;
use crate::guid::Guid;
use crate::text::{
    concat, dec_digit, decimal_string, dec_digits, is_white_space, lemma_trimmed_has_no_outer_white_space,
    pad_right, push_padded, trim, trimmed,
};

verus! {

broadcast use vstd::std_specs::hash::group_hash_axioms;

// ---------------------------------------------------------------------------
// Type names
// ---------------------------------------------------------------------------

/// The name of a TDH input type (`TDH_INTYPE_*`); `Unknown` for codes past the table.
pub open spec fn in_type_name(v: u16) -> Seq<char> {
    if v == 0 {
        "Null"@
    } else if v == 1 {
        "UnicodeString"@
    } else if v == 2 {
        "AnsiString"@
    } else if v == 3 {
        "Int8"@
    } else if v == 4 {
        "UInt8"@
    } else if v == 5 {
        "Int16"@
    } else if v == 6 {
        "UInt16"@
    } else if v == 7 {
        "Int32"@
    } else if v == 8 {
        "UInt32"@
    } else if v == 9 {
        "Int64"@
    } else if v == 10 {
        "UInt64"@
    } else if v == 11 {
        "Float"@
    } else if v == 12 {
        "Double"@
    } else if v == 13 {
        "Boolean"@
    } else if v == 14 {
        "Binary"@
    } else if v == 15 {
        "Guid"@
    } else if v == 16 {
        "Pointer"@
    } else if v == 17 {
        "FileTime"@
    } else if v == 18 {
        "SystemTime"@
    } else if v == 19 {
        "SID"@
    } else if v == 20 {
        "HexInt32"@
    } else if v == 21 {
        "HexInt64"@
    } else if v == 22 {
        "CountedString"@
    } else if v == 23 {
        "CountedAnsiString"@
    } else if v == 24 {
        "ReversedCountedString"@
    } else if v == 25 {
        "ReversedCountedAnsiString"@
    } else if v == 26 {
        "NonNullTerminatedString"@
    } else if v == 27 {
        "NonNullTerminatedAnsiString"@
    } else if v == 28 {
        "UnicodeChar"@
    } else if v == 29 {
        "AnsiChar"@
    } else if v == 30 {
        "SizeT"@
    } else if v == 31 {
        "HexDump"@
    } else if v == 32 {
        "WbemSID"@
    } else {
        "Unknown"@
    }
}

/// The name of a TDH output type (`TDH_OUTTYPE_*`); `Default` for codes past the table.
pub open spec fn out_type_name(v: u16) -> Seq<char> {
    if v == 0 {
        "Null"@
    } else if v == 1 {
        "String"@
    } else if v == 2 {
        "DateTime"@
    } else if v == 3 {
        "Byte"@
    } else if v == 4 {
        "UnsignedByte"@
    } else if v == 5 {
        "Short"@
    } else if v == 6 {
        "UnsignedShort"@
    } else if v == 7 {
        "Int"@
    } else if v == 8 {
        "UnsignedInt"@
    } else if v == 9 {
        "Long"@
    } else if v == 10 {
        "UnsignedLong"@
    } else if v == 11 {
        "Float"@
    } else if v == 12 {
        "Double"@
    } else if v == 13 {
        "Boolean"@
    } else if v == 14 {
        "Guid"@
    } else if v == 15 {
        "HexBinary"@
    } else if v == 16 {
        "HexInt8"@
    } else if v == 17 {
        "HexInt16"@
    } else if v == 18 {
        "HexInt32"@
    } else if v == 19 {
        "HexInt64"@
    } else if v == 20 {
        "PID"@
    } else if v == 21 {
        "TID"@
    } else if v == 22 {
        "Port"@
    } else if v == 23 {
        "IPv4"@
    } else if v == 24 {
        "IPv6"@
    } else if v == 25 {
        "SocketAddress"@
    } else if v == 26 {
        "CimDateTime"@
    } else if v == 27 {
        "EtwTime"@
    } else if v == 28 {
        "Xml"@
    } else if v == 29 {
        "ErrorCode"@
    } else if v == 30 {
        "Win32Error"@
    } else if v == 31 {
        "NtStatus"@
    } else if v == 32 {
        "HResult"@
    } else if v == 33 {
        "DateTimeCultureInsensitive"@
    } else if v == 34 {
        "Json"@
    } else if v == 35 {
        "Utf8"@
    } else if v == 36 {
        "Pkcs7WithTypeInfo"@
    } else {
        "Default"@
    }
}

/// The input-type names of the TDH codes: each code from 0 to 32 has the
/// name of its `TDH_INTYPE_*` constant, and every later code is `Unknown`.
/// Among the integer types, each unsigned code follows the signed one of
/// the same width and bears its name behind a `U`.
pub proof fn lemma_in_type_names(v: u16)
    ensures
        v == 0 ==> in_type_name(v) == "Null"@,
        v == 1 ==> in_type_name(v) == "UnicodeString"@,
        v == 2 ==> in_type_name(v) == "AnsiString"@,
        v == 3 ==> in_type_name(v) == "Int8"@,
        v == 4 ==> in_type_name(v) == "UInt8"@,
        v == 5 ==> in_type_name(v) == "Int16"@,
        v == 6 ==> in_type_name(v) == "UInt16"@,
        v == 7 ==> in_type_name(v) == "Int32"@,
        v == 8 ==> in_type_name(v) == "UInt32"@,
        v == 9 ==> in_type_name(v) == "Int64"@,
        v == 10 ==> in_type_name(v) == "UInt64"@,
        v == 11 ==> in_type_name(v) == "Float"@,
        v == 12 ==> in_type_name(v) == "Double"@,
        v == 13 ==> in_type_name(v) == "Boolean"@,
        v == 14 ==> in_type_name(v) == "Binary"@,
        v == 15 ==> in_type_name(v) == "Guid"@,
        v == 16 ==> in_type_name(v) == "Pointer"@,
        v == 17 ==> in_type_name(v) == "FileTime"@,
        v == 18 ==> in_type_name(v) == "SystemTime"@,
        v == 19 ==> in_type_name(v) == "SID"@,
        v == 20 ==> in_type_name(v) == "HexInt32"@,
        v == 21 ==> in_type_name(v) == "HexInt64"@,
        v == 22 ==> in_type_name(v) == "CountedString"@,
        v == 23 ==> in_type_name(v) == "CountedAnsiString"@,
        v == 24 ==> in_type_name(v) == "ReversedCountedString"@,
        v == 25 ==> in_type_name(v) == "ReversedCountedAnsiString"@,
        v == 26 ==> in_type_name(v) == "NonNullTerminatedString"@,
        v == 27 ==> in_type_name(v) == "NonNullTerminatedAnsiString"@,
        v == 28 ==> in_type_name(v) == "UnicodeChar"@,
        v == 29 ==> in_type_name(v) == "AnsiChar"@,
        v == 30 ==> in_type_name(v) == "SizeT"@,
        v == 31 ==> in_type_name(v) == "HexDump"@,
        v == 32 ==> in_type_name(v) == "WbemSID"@,
        v > 32 ==> in_type_name(v) == "Unknown"@,
        3 <= v <= 9 && v % 2 == 1 ==> in_type_name((v + 1) as u16) == "U"@ + in_type_name(v),
{
    reveal_strlit("U");
    reveal_strlit("Int8");
    reveal_strlit("UInt8");
    reveal_strlit("Int16");
    reveal_strlit("UInt16");
    reveal_strlit("Int32");
    reveal_strlit("UInt32");
    reveal_strlit("Int64");
    reveal_strlit("UInt64");
}

/// The output-type names of the TDH codes: each code from 0 to 36 has the
/// name of its `TDH_OUTTYPE_*` constant, and every later code is `Default`.
/// Among the integer types, each unsigned code follows the signed one of
/// the same width and bears its name behind `Unsigned`.
pub proof fn lemma_out_type_names(v: u16)
    ensures
        v == 0 ==> out_type_name(v) == "Null"@,
        v == 1 ==> out_type_name(v) == "String"@,
        v == 2 ==> out_type_name(v) == "DateTime"@,
        v == 3 ==> out_type_name(v) == "Byte"@,
        v == 4 ==> out_type_name(v) == "UnsignedByte"@,
        v == 5 ==> out_type_name(v) == "Short"@,
        v == 6 ==> out_type_name(v) == "UnsignedShort"@,
        v == 7 ==> out_type_name(v) == "Int"@,
        v == 8 ==> out_type_name(v) == "UnsignedInt"@,
        v == 9 ==> out_type_name(v) == "Long"@,
        v == 10 ==> out_type_name(v) == "UnsignedLong"@,
        v == 11 ==> out_type_name(v) == "Float"@,
        v == 12 ==> out_type_name(v) == "Double"@,
        v == 13 ==> out_type_name(v) == "Boolean"@,
        v == 14 ==> out_type_name(v) == "Guid"@,
        v == 15 ==> out_type_name(v) == "HexBinary"@,
        v == 16 ==> out_type_name(v) == "HexInt8"@,
        v == 17 ==> out_type_name(v) == "HexInt16"@,
        v == 18 ==> out_type_name(v) == "HexInt32"@,
        v == 19 ==> out_type_name(v) == "HexInt64"@,
        v == 20 ==> out_type_name(v) == "PID"@,
        v == 21 ==> out_type_name(v) == "TID"@,
        v == 22 ==> out_type_name(v) == "Port"@,
        v == 23 ==> out_type_name(v) == "IPv4"@,
        v == 24 ==> out_type_name(v) == "IPv6"@,
        v == 25 ==> out_type_name(v) == "SocketAddress"@,
        v == 26 ==> out_type_name(v) == "CimDateTime"@,
        v == 27 ==> out_type_name(v) == "EtwTime"@,
        v == 28 ==> out_type_name(v) == "Xml"@,
        v == 29 ==> out_type_name(v) == "ErrorCode"@,
        v == 30 ==> out_type_name(v) == "Win32Error"@,
        v == 31 ==> out_type_name(v) == "NtStatus"@,
        v == 32 ==> out_type_name(v) == "HResult"@,
        v == 33 ==> out_type_name(v) == "DateTimeCultureInsensitive"@,
        v == 34 ==> out_type_name(v) == "Json"@,
        v == 35 ==> out_type_name(v) == "Utf8"@,
        v == 36 ==> out_type_name(v) == "Pkcs7WithTypeInfo"@,
        v > 36 ==> out_type_name(v) == "Default"@,
        3 <= v <= 9 && v % 2 == 1 ==> out_type_name((v + 1) as u16) == "Unsigned"@ + out_type_name(v),
{
    reveal_strlit("Unsigned");
    reveal_strlit("Byte");
    reveal_strlit("UnsignedByte");
    reveal_strlit("Short");
    reveal_strlit("UnsignedShort");
    reveal_strlit("Int");
    reveal_strlit("UnsignedInt");
    reveal_strlit("Long");
    reveal_strlit("UnsignedLong");
}

/// The name of a TDH input type (see [`in_type_name`]).
pub fn map_in_type(v: u16) -> (s: String)
    ensures
        s@ == in_type_name(v),
{
    let name: &'static str = match v {
        0 => "Null",
        1 => "UnicodeString",
        2 => "AnsiString",
        3 => "Int8",
        4 => "UInt8",
        5 => "Int16",
        6 => "UInt16",
        7 => "Int32",
        8 => "UInt32",
        9 => "Int64",
        10 => "UInt64",
        11 => "Float",
        12 => "Double",
        13 => "Boolean",
        14 => "Binary",
        15 => "Guid",
        16 => "Pointer",
        17 => "FileTime",
        18 => "SystemTime",
        19 => "SID",
        20 => "HexInt32",
        21 => "HexInt64",
        22 => "CountedString",
        23 => "CountedAnsiString",
        24 => "ReversedCountedString",
        25 => "ReversedCountedAnsiString",
        26 => "NonNullTerminatedString",
        27 => "NonNullTerminatedAnsiString",
        28 => "UnicodeChar",
        29 => "AnsiChar",
        30 => "SizeT",
        31 => "HexDump",
        32 => "WbemSID",
        _ => "Unknown",
    };
    name.to_owned()
}

/// The name of a TDH output type (see [`out_type_name`]).
pub fn map_out_type(v: u16) -> (s: String)
    ensures
        s@ == out_type_name(v),
{
    let name: &'static str = match v {
        0 => "Null",
        1 => "String",
        2 => "DateTime",
        3 => "Byte",
        4 => "UnsignedByte",
        5 => "Short",
        6 => "UnsignedShort",
        7 => "Int",
        8 => "UnsignedInt",
        9 => "Long",
        10 => "UnsignedLong",
        11 => "Float",
        12 => "Double",
        13 => "Boolean",
        14 => "Guid",
        15 => "HexBinary",
        16 => "HexInt8",
        17 => "HexInt16",
        18 => "HexInt32",
        19 => "HexInt64",
        20 => "PID",
        21 => "TID",
        22 => "Port",
        23 => "IPv4",
        24 => "IPv6",
        25 => "SocketAddress",
        26 => "CimDateTime",
        27 => "EtwTime",
        28 => "Xml",
        29 => "ErrorCode",
        30 => "Win32Error",
        31 => "NtStatus",
        32 => "HResult",
        33 => "DateTimeCultureInsensitive",
        34 => "Json",
        35 => "Utf8",
        36 => "Pkcs7WithTypeInfo",
        _ => "Default",
    };
    name.to_owned()
}

// ---------------------------------------------------------------------------
// The event information of a manifest, as TDH reports it
// ---------------------------------------------------------------------------

/// One entry of `EventPropertyInfoArray`: the property's name (as stored,
/// untrimmed), its flags, and the two 16-bit fields of its type union, read
/// either as input and output type or as the first member and member count
/// of a structure.
#[derive(Clone, Debug)]
pub struct PropertyInfo {
    pub name: String,
    pub flags: u32,
    pub in_type: u16,
    pub out_type: u16,
    pub struct_start_index: u16,
    pub num_struct_members: u16,
}

/// The descriptor of an event, as the manifest declares it.
#[derive(Clone, Copy, Debug, PartialEq, Eq)]
pub struct EventDescriptor {
    pub id: u16,
    pub version: u8,
    pub level: u8,
    pub opcode: u8,
    pub keyword: u64,
}

/// What TDH reports of one event of a manifest: its descriptor, the three
/// strings that may name it (as stored, untrimmed; empty where absent) and
/// all its property entries.
#[derive(Clone, Debug)]
pub struct ManifestEvent {
    pub descriptor: EventDescriptor,
    pub event_message: String,
    pub task_name: String,
    pub opcode_name: String,
    pub properties: Vec<PropertyInfo>,
}

// ---------------------------------------------------------------------------
// Properties
// ---------------------------------------------------------------------------

/// One parameter (field) of an event.
#[derive(Clone, Debug)]
pub struct EventProperty {
    pub name: String,
    /// e.g. `UnicodeString`, `Int32`
    pub in_type: String,
    /// e.g. `PID`, `Port`, `Null`
    pub out_type: String,
    pub is_struct: bool,
    /// Array size (1 for a scalar).
    pub count: u16,
}

/// Name, input type, output type, structure flag and count of a property.
pub type PropertyView = (Seq<char>, Seq<char>, Seq<char>, bool, u16);

impl View for EventProperty {
    type V = PropertyView;

    open spec fn view(&self) -> PropertyView {
        (self.name@, self.in_type@, self.out_type@, self.is_struct, self.count)
    }
}

pub open spec fn property_views(props: Seq<EventProperty>) -> Seq<PropertyView> {
    props.map_values(|p: EventProperty| p@)
}

/// Whether an entry describes a structure (`PropertyStruct`, flag bit 0).
pub open spec fn is_struct_entry(p: PropertyInfo) -> bool {
    p.flags % 2 == 1
}

/// The parameter that a non-structure entry describes.
pub open spec fn leaf_property(p: PropertyInfo) -> PropertyView {
    (trimmed(p.name@), in_type_name(p.in_type), out_type_name(p.out_type), false, 1u16)
}

/// The members of a structure named `prefix`: each named `prefix.member`.
pub open spec fn prefixed(prefix: Seq<char>, members: Seq<PropertyView>) -> Seq<PropertyView> {
    members.map_values(
        |m: PropertyView| (prefix + "."@ + m.0, m.1, m.2, m.3, m.4),
    )
}

/// The parameters that the entries `start`, `start + 1`, ... (`count` of
/// them, stopping at the end of `props`) describe, structures flattened into
/// their members. `fuel` bounds the depth of nested structures.
pub open spec fn flatten(props: Seq<PropertyInfo>, start: int, count: nat, fuel: nat) -> Seq<
    PropertyView,
>
    decreases fuel, count,
{
    if count == 0 || start < 0 || start >= props.len() {
        Seq::empty()
    } else {
        let p = props[start];
        let here = if is_struct_entry(p) {
            if fuel == 0 {
                Seq::empty()
            } else {
                prefixed(
                    trimmed(p.name@),
                    flatten(
                        props,
                        p.struct_start_index as int,
                        p.num_struct_members as nat,
                        (fuel - 1) as nat,
                    ),
                )
            }
        } else {
            seq![leaf_property(p)]
        };
        here + flatten(props, start + 1, (count - 1) as nat, fuel)
    }
}

/// Whether flattening the given entries would nest structures deeper than
/// `fuel`.
pub open spec fn exceeds_depth(props: Seq<PropertyInfo>, start: int, count: nat, fuel: nat) -> bool
    decreases fuel, count,
{
    if count == 0 || start < 0 || start >= props.len() {
        false
    } else {
        let p = props[start];
        (is_struct_entry(p) && (fuel == 0 || exceeds_depth(
            props,
            p.struct_start_index as int,
            p.num_struct_members as nat,
            (fuel - 1) as nat,
        ))) || exceeds_depth(props, start + 1, (count - 1) as nat, fuel)
    }
}

/// Whether the structures of an event nest finitely. A chain of nested
/// structures longer than the number of entries repeats an entry, and then
/// the structure contains itself and flattening never ends; so nesting is
/// finite exactly when no chain exceeds that depth.
pub open spec fn nesting_is_finite(props: Seq<PropertyInfo>) -> bool {
    !exceeds_depth(props, 0, props.len(), props.len())
}

/// The parameters of an event, structures flattened into their members.
/// Every entry is visited from the first, members of structures included,
/// as TDH lists them.
pub open spec fn event_properties(props: Seq<PropertyInfo>) -> Seq<PropertyView> {
    flatten(props, 0, props.len(), props.len())
}

fn exceeds_depth_exec(props: &Vec<PropertyInfo>, start: usize, count: usize, fuel: usize) -> (r: bool)
    ensures
        r == exceeds_depth(props@, start as int, count as nat, fuel as nat),
    decreases fuel, count,
{
    let n = props.len();
    let mut i: usize = 0;
    while i < count
        invariant
            n == props@.len(),
            i <= count,
            exceeds_depth(props@, start as int, count as nat, fuel as nat) == exceeds_depth(
                props@,
                start + i,
                (count - i) as nat,
                fuel as nat,
            ),
        decreases count - i,
    {
        if start >= n || n - start <= i {
            return false;
        }
        let p = &props[start + i];
        if p.flags % 2 == 1 {
            if fuel == 0 {
                return true;
            }
            if exceeds_depth_exec(
                props,
                p.struct_start_index as usize,
                p.num_struct_members as usize,
                fuel - 1,
            ) {
                return true;
            }
        }
        i = i + 1;
    }
    false
}

/// Whether the structures of an event nest finitely (see
/// [`nesting_is_finite`]).
pub fn nesting_terminates(props: &Vec<PropertyInfo>) -> (r: bool)
    ensures
        r == nesting_is_finite(props@),
{
    !exceeds_depth_exec(props, 0, props.len(), props.len())
}

fn flatten_exec(props: &Vec<PropertyInfo>, start: usize, count: usize, fuel: usize) -> (r: Vec<
    EventProperty,
>)
    requires
        !exceeds_depth(props@, start as int, count as nat, fuel as nat),
    ensures
        property_views(r@) == flatten(props@, start as int, count as nat, fuel as nat),
    decreases fuel, count,
{
    let n = props.len();
    let mut out: Vec<EventProperty> = Vec::new();
    let mut i: usize = 0;
    while i < count
        invariant
            n == props@.len(),
            i <= count,
            !exceeds_depth(props@, start + i, (count - i) as nat, fuel as nat),
            property_views(out@) + flatten(props@, start + i, (count - i) as nat, fuel as nat)
                == flatten(props@, start as int, count as nat, fuel as nat),
        decreases count - i,
    {
        if start >= n || n - start <= i {
            assert(property_views(out@) =~= property_views(out@) + flatten(
                props@,
                start + i,
                (count - i) as nat,
                fuel as nat,
            ));
            return out;
        }
        let p = &props[start + i];
        let ghost before = property_views(out@);
        if p.flags % 2 == 1 {
            let members = flatten_exec(
                props,
                p.struct_start_index as usize,
                p.num_struct_members as usize,
                fuel - 1,
            );
            let prefix = trim(p.name.as_str());
            let m = members.len();
            let mut j: usize = 0;
            while j < m
                invariant
                    m == members@.len(),
                    j <= m,
                    property_views(out@) == before + prefixed(
                        prefix@,
                        property_views(members@).take(j as int),
                    ),
                decreases m - j,
            {
                let member = &members[j];
                let dotted = concat(prefix.as_str(), ".");
                let name = concat(dotted.as_str(), member.name.as_str());
                let ghost out_before = out@;
                out.push(
                    EventProperty {
                        name,
                        in_type: member.in_type.clone(),
                        out_type: member.out_type.clone(),
                        is_struct: member.is_struct,
                        count: member.count,
                    },
                );
                assert(property_views(members@).take(j + 1) =~= property_views(members@).take(
                    j as int,
                ).push(member@));
                assert(property_views(out@) =~= property_views(out_before).push(
                    (prefix@ + "."@ + member@.0, member@.1, member@.2, member@.3, member@.4),
                ));
                assert(prefixed(prefix@, property_views(members@).take(j + 1)) =~= prefixed(
                    prefix@,
                    property_views(members@).take(j as int),
                ).push((prefix@ + "."@ + member@.0, member@.1, member@.2, member@.3, member@.4)));
                assert(property_views(out@) =~= before + prefixed(
                    prefix@,
                    property_views(members@).take(j + 1),
                ));
                j = j + 1;
            }
            assert(property_views(members@).take(m as int) =~= property_views(members@));
        } else {
            let name = trim(p.name.as_str());
            out.push(
                EventProperty {
                    name,
                    in_type: map_in_type(p.in_type),
                    out_type: map_out_type(p.out_type),
                    is_struct: false,
                    count: 1,
                },
            );
            assert(property_views(out@) =~= before + seq![leaf_property(*p)]);
        }
        i = i + 1;
    }
    assert(flatten(props@, start + i, (count - i) as nat, fuel as nat) =~= Seq::empty());
    assert(property_views(out@) =~= property_views(out@) + flatten(
        props@,
        start + i,
        (count - i) as nat,
        fuel as nat,
    ));
    out
}

/// The parameters of an event (see [`event_properties`]). The structures
/// must nest finitely: use [`nesting_terminates`] where that is not known.
pub fn parse_properties(props: &Vec<PropertyInfo>) -> (r: Vec<EventProperty>)
    requires
        nesting_is_finite(props@),
    ensures
        property_views(r@) == event_properties(props@),
{
    flatten_exec(props, 0, props.len(), props.len())
}


// ---------------------------------------------------------------------------
// Event schemas
// ---------------------------------------------------------------------------

/// The schema of one event.
#[derive(Clone, Debug)]
pub struct EventSchema {
    pub id: u16,
    pub version: u8,
    /// Resolved friendly name.
    pub name: String,
    pub task_name: String,
    pub opcode_name: String,
    pub level: u8,
    pub opcode: u8,
    pub keyword: u64,
    pub properties: Vec<EventProperty>,
}

/// The mathematical value of a schema: all text as character sequences.
#[verifier::ext_equal]
pub struct SchemaView {
    pub id: u16,
    pub version: u8,
    pub name: Seq<char>,
    pub task_name: Seq<char>,
    pub opcode_name: Seq<char>,
    pub level: u8,
    pub opcode: u8,
    pub keyword: u64,
    pub properties: Seq<PropertyView>,
}

impl View for EventSchema {
    type V = SchemaView;

    open spec fn view(&self) -> SchemaView {
        SchemaView {
            id: self.id,
            version: self.version,
            name: self.name@,
            task_name: self.task_name@,
            opcode_name: self.opcode_name@,
            level: self.level,
            opcode: self.opcode,
            keyword: self.keyword,
            properties: property_views(self.properties@),
        }
    }
}

/// The friendly name of an event: its message if it has one; else its task
/// name, joined to its opcode name by `_` when it has one; else `Event_`
/// and its ID.
pub open spec fn event_name_of(message: Seq<char>, task: Seq<char>, opcode: Seq<char>, id: u16) -> Seq<
    char,
> {
    if message.len() > 0 {
        message
    } else if task.len() > 0 {
        if opcode.len() > 0 {
            task + "_"@ + opcode
        } else {
            task
        }
    } else {
        "Event_"@ + dec_digits(id as nat)
    }
}

/// The schema of a manifest event: descriptor fields, trimmed names, the
/// friendly name (see [`event_name_of`]) and the flattened parameters (see
/// [`event_properties`]).
pub open spec fn schema_of(e: ManifestEvent) -> SchemaView {
    let message = trimmed(e.event_message@);
    let task = trimmed(e.task_name@);
    let opcode = trimmed(e.opcode_name@);
    SchemaView {
        id: e.descriptor.id,
        version: e.descriptor.version,
        name: event_name_of(message, task, opcode, e.descriptor.id),
        task_name: task,
        opcode_name: opcode,
        level: e.descriptor.level,
        opcode: e.descriptor.opcode,
        keyword: e.descriptor.keyword,
        properties: event_properties(e.properties@),
    }
}

/// The friendly name of an event (see [`event_name_of`]).
pub fn resolve_event_name(message: &String, task: &String, opcode: &String, id: u16) -> (name: String)
    ensures
        name@ == event_name_of(message@, task@, opcode@, id),
{
    if !message.as_str().is_empty() {
        message.clone()
    } else if !task.as_str().is_empty() {
        if !opcode.as_str().is_empty() {
            let joined = concat(task.as_str(), "_");
            concat(joined.as_str(), opcode.as_str())
        } else {
            task.clone()
        }
    } else {
        concat("Event_", decimal_string(id as u64).as_str())
    }
}

/// The schema of a manifest event (see [`schema_of`]). Its structures must
/// nest finitely (see [`nesting_terminates`]).
pub fn parse_event_schema(event: &ManifestEvent) -> (schema: EventSchema)
    requires
        nesting_is_finite(event.properties@),
    ensures
        schema@ == schema_of(*event),
{
    let message = trim(event.event_message.as_str());
    let task_name = trim(event.task_name.as_str());
    let opcode_name = trim(event.opcode_name.as_str());
    let name = resolve_event_name(&message, &task_name, &opcode_name, event.descriptor.id);
    let properties = parse_properties(&event.properties);
    EventSchema {
        id: event.descriptor.id,
        version: event.descriptor.version,
        name,
        task_name,
        opcode_name,
        level: event.descriptor.level,
        opcode: event.descriptor.opcode,
        keyword: event.descriptor.keyword,
        properties,
    }
}

// ---------------------------------------------------------------------------
// The manifest of a provider
// ---------------------------------------------------------------------------

/// The schemas of a manifest's events by event ID; where two events share
/// an ID, the later one is kept.
pub open spec fn schemas_of(events: Seq<ManifestEvent>) -> Map<u16, SchemaView>
    decreases events.len(),
{
    if events.len() == 0 {
        Map::empty()
    } else {
        schemas_of(events.drop_last()).insert(events.last().descriptor.id, schema_of(events.last()))
    }
}

/// Whether the structures of every event nest finitely.
pub open spec fn all_nest_finitely(events: Seq<ManifestEvent>) -> bool {
    forall|i: int| 0 <= i < events.len() ==> nesting_is_finite(#[trigger] events[i].properties@)
}

/// The IDs below `k` that `ids` holds, in increasing order.
pub open spec fn ids_below(ids: Set<u16>, k: nat) -> Seq<u16>
    decreases k,
{
    if k == 0 {
        Seq::empty()
    } else if ids.contains((k - 1) as u16) {
        ids_below(ids, (k - 1) as nat).push((k - 1) as u16)
    } else {
        ids_below(ids, (k - 1) as nat)
    }
}

/// The number of distinct 16-bit event IDs.
pub open spec fn id_space() -> nat {
    0x1_0000
}

/// What the summary shows of a parameter's output type: ` - ` for the
/// uninformative `Null` and `Default`.
pub open spec fn out_display(out_type: Seq<char>) -> Seq<char> {
    if out_type == "Null"@ || out_type == "Default"@ {
        " - "@
    } else {
        out_type
    }
}

/// The summary line of one parameter.
pub open spec fn property_line(p: PropertyView) -> Seq<char> {
    "   -> Parameter: "@ + pad_right(p.0, 35) + " [Type: "@ + pad_right(p.1, 15) + " | Out: "@
        + out_display(p.2) + "]\n"@
}

/// The summary lines of parameters, in order.
pub open spec fn property_lines(ps: Seq<PropertyView>) -> Seq<char>
    decreases ps.len(),
{
    if ps.len() == 0 {
        Seq::empty()
    } else {
        property_lines(ps.drop_last()) + property_line(ps.last())
    }
}

/// The summary of one event: its ID and name, then its parameters or a note
/// that it has none.
pub open spec fn schema_text(s: SchemaView) -> Seq<char> {
    "\n[Event ID: "@ + dec_digits(s.id as nat) + "] Name: "@ + s.name + "\n"@ + if s.properties.len()
        == 0 {
        "   (No parameters defined)\n"@
    } else {
        property_lines(s.properties)
    }
}

/// The summaries of the events with IDs below `k`, in increasing ID order.
pub open spec fn schemas_text(m: Map<u16, SchemaView>, k: nat) -> Seq<char>
    decreases k,
{
    if k == 0 {
        Seq::empty()
    } else if m.dom().contains((k - 1) as u16) {
        schemas_text(m, (k - 1) as nat) + schema_text(m[(k - 1) as u16])
    } else {
        schemas_text(m, (k - 1) as nat)
    }
}

/// The summary of a manifest: a header with the number of events, then
/// every event in increasing ID order.
pub open spec fn manifest_text(m: Map<u16, SchemaView>) -> Seq<char> {
    "--- Manifest Summary (Total Events: "@ + dec_digits(m.dom().len()) + ") ---\n"@
        + schemas_text(m, id_space())
}

fn push_str(out: &mut String, s: &str)
    ensures
        final(out)@ == old(out)@ + s@,
{
    out.append(s);
}

fn push_property_line(out: &mut String, p: &EventProperty)
    ensures
        final(out)@ == old(out)@ + property_line(p@),
{
    push_str(out, "   -> Parameter: ");
    push_padded(out, p.name.as_str(), 35);
    push_str(out, " [Type: ");
    push_padded(out, p.in_type.as_str(), 15);
    push_str(out, " | Out: ");
    let out_chars = crate::text::chars_of(p.out_type.as_str());
    let null = crate::text::chars_of("Null");
    let default = crate::text::chars_of("Default");
    if crate::text::same_chars(&out_chars, &null) || crate::text::same_chars(&out_chars, &default) {
        push_str(out, " - ");
    } else {
        push_str(out, p.out_type.as_str());
    }
    push_str(out, "]\n");
    assert(final(out)@ =~= old(out)@ + property_line(p@));
}

fn push_schema_text(out: &mut String, s: &EventSchema)
    ensures
        final(out)@ == old(out)@ + schema_text(s@),
{
    let ghost start = out@;
    push_str(out, "\n[Event ID: ");
    push_str(out, decimal_string(s.id as u64).as_str());
    push_str(out, "] Name: ");
    push_str(out, s.name.as_str());
    push_str(out, "\n");
    let ghost head = out@;
    assert(head =~= start + ("\n[Event ID: "@ + dec_digits(s.id as nat) + "] Name: "@ + s.name@
        + "\n"@));
    let n = s.properties.len();
    if n == 0 {
        push_str(out, "   (No parameters defined)\n");
    } else {
        let mut i: usize = 0;
        while i < n
            invariant
                n == s.properties@.len(),
                i <= n,
                out@ == head + property_lines(property_views(s.properties@).take(i as int)),
            decreases n - i,
        {
            push_property_line(out, &s.properties[i]);
            assert(property_views(s.properties@).take(i + 1).drop_last() =~= property_views(
                s.properties@,
            ).take(i as int));
            i = i + 1;
        }
        assert(property_views(s.properties@).take(n as int) =~= property_views(s.properties@));
    }
    assert(final(out)@ =~= start + schema_text(s@));
}

impl EventProperty {
    /// The line that describes this parameter in a manifest summary (see
    /// [`property_line`]), e.g.
    /// `   -> Parameter: ProcessID ... [Type: UInt32 ... | Out: PID]`.
    pub fn summary(&self) -> (text: String)
        ensures
            text@ == property_line(self@),
    {
        let mut out = String::new();
        push_property_line(&mut out, self);
        out
    }
}

impl EventSchema {
    /// The text that describes this event in a manifest summary (see
    /// [`schema_text`]): its ID and name, then one line per parameter.
    pub fn summary(&self) -> (text: String)
        ensures
            text@ == schema_text(self@),
    {
        let mut out = String::new();
        push_schema_text(&mut out, self);
        out
    }
}

/// The schemas of the events of one provider, by event ID.
pub struct ManifestParser {
    provider_guid: Guid,
    events: HashMap<u16, EventSchema>,
}

impl ManifestParser {
    /// The schemas by event ID.
    pub closed spec fn schemas(&self) -> Map<u16, SchemaView> {
        self.events@.map_values(|s: EventSchema| s@)
    }

    /// The provider whose manifest this is.
    pub closed spec fn provider(&self) -> Guid {
        self.provider_guid
    }

    /// The schemas of a provider's manifest events (see [`schemas_of`]).
    /// `events` lists the events whose information TDH could report, in
    /// manifest order; their structures must nest finitely.
    pub fn new(provider_guid: Guid, events: Vec<ManifestEvent>) -> (parser: Self)
        requires
            all_nest_finitely(events@),
        ensures
            parser.provider() == provider_guid,
            parser.schemas() == schemas_of(events@),
    {
        let mut map: HashMap<u16, EventSchema> = HashMap::new();
        let n = events.len();
        let mut i: usize = 0;
        while i < n
            invariant
                n == events@.len(),
                i <= n,
                all_nest_finitely(events@),
                map@.map_values(|s: EventSchema| s@) == schemas_of(events@.take(i as int)),
            decreases n - i,
        {
            let event = &events[i];
            assert(nesting_is_finite(events@[i as int].properties@));
            let schema = parse_event_schema(event);
            let ghost before = map@;
            map.insert(event.descriptor.id, schema);
            assert(events@.take(i + 1).drop_last() =~= events@.take(i as int));
            assert(map@.map_values(|s: EventSchema| s@) =~= before.map_values(|s: EventSchema| s@).insert(
                event.descriptor.id,
                schema_of(*event),
            ));
            i = i + 1;
        }
        assert(events@.take(n as int) =~= events@);
        ManifestParser { provider_guid, events: map }
    }

    /// The GUID of the provider.
    pub fn provider_guid(&self) -> (g: Guid)
        ensures
            g == self.provider(),
    {
        self.provider_guid
    }

    /// The friendly name of event `event_id`, if the manifest defines it.
    pub fn get_event_name(&self, event_id: u16) -> (r: Option<String>)
        ensures
            match r {
                Some(name) => self.schemas().contains_key(event_id) && name@ == self.schemas()[event_id].name,
                None => !self.schemas().contains_key(event_id),
            },
    {
        match self.events.get(&event_id) {
            Some(schema) => Some(schema.name.clone()),
            None => None,
        }
    }

    /// The parameters of event `event_id`, if the manifest defines it.
    pub fn get_event_properties(&self, event_id: u16) -> (r: Option<&[EventProperty]>)
        ensures
            match r {
                Some(ps) => self.schemas().contains_key(event_id) && property_views(ps@)
                    == self.schemas()[event_id].properties,
                None => !self.schemas().contains_key(event_id),
            },
    {
        match self.events.get(&event_id) {
            Some(schema) => Some(schema.properties.as_slice()),
            None => None,
        }
    }

    /// The full schema of event `event_id`, if the manifest defines it.
    pub fn get_schema(&self, event_id: u16) -> (r: Option<&EventSchema>)
        ensures
            match r {
                Some(s) => self.schemas().contains_key(event_id) && s@ == self.schemas()[event_id],
                None => !self.schemas().contains_key(event_id),
            },
    {
        self.events.get(&event_id)
    }

    /// The IDs of all defined events, in increasing order.
    pub fn list_event_ids(&self) -> (ids: Vec<u16>)
        ensures
            ids@ == ids_below(self.schemas().dom(), id_space()),
    {
        let mut ids: Vec<u16> = Vec::new();
        let mut k: u32 = 0;
        while k < 0x1_0000
            invariant
                k <= 0x1_0000,
                ids@ == ids_below(self.schemas().dom(), k as nat),
            decreases 0x1_0000 - k,
        {
            let id = k as u16;
            if self.events.contains_key(&id) {
                ids.push(id);
            }
            k = k + 1;
        }
        ids
    }

    /// A human-readable summary of the manifest (see [`manifest_text`]).
    pub fn summary(&self) -> (text: String)
        ensures
            text@ == manifest_text(self.schemas()),
    {
        let mut out = String::new();
        push_str(&mut out, "--- Manifest Summary (Total Events: ");
        let count = self.events.len();
        assert(self.schemas().dom() =~= self.events@.dom());
        assert(count == self.schemas().dom().len());
        push_str(&mut out, decimal_string(count as u64).as_str());
        push_str(&mut out, ") ---\n");
        let ghost head = out@;
        let mut k: u32 = 0;
        while k < 0x1_0000
            invariant
                k <= 0x1_0000,
                out@ == head + schemas_text(self.schemas(), k as nat),
            decreases 0x1_0000 - k,
        {
            let id = k as u16;
            match self.events.get(&id) {
                Some(schema) => {
                    push_schema_text(&mut out, schema);
                },
                None => {},
            }
            k = k + 1;
        }
        assert(out@ =~= manifest_text(self.schemas()));
        out
    }
}

/// The list of event IDs is in strictly increasing order and holds exactly
/// the defined IDs below `k`.
pub proof fn lemma_ids_below(ids: Set<u16>, k: nat)
    requires
        k <= id_space(),
    ensures
        forall|i: int, j: int|
            0 <= i < j < ids_below(ids, k).len() ==> #[trigger] ids_below(ids, k)[i] < #[trigger] ids_below(ids, k)[j],
        forall|x: u16| #[trigger] ids_below(ids, k).contains(x) <==> (ids.contains(x) && x < k),
    decreases k,
{
    if k > 0 {
        let prev = ids_below(ids, (k - 1) as nat);
        lemma_ids_below(ids, (k - 1) as nat);
        let top = (k - 1) as u16;
        if ids.contains(top) {
            let cur = prev.push(top);
            assert forall|i: int, j: int| 0 <= i < j < cur.len() implies #[trigger] cur[i] < #[trigger] cur[j] by {
                if j < prev.len() {
                    assert(cur[i] == prev[i] && cur[j] == prev[j]);
                } else {
                    assert(prev.contains(cur[i]));
                }
            }
            assert forall|x: u16| #[trigger] cur.contains(x) <==> (ids.contains(x) && x < k) by {
                if x == top {
                    assert(cur[prev.len() as int] == top);
                } else {
                    if cur.contains(x) {
                        let i = choose|i: int| 0 <= i < cur.len() && cur[i] == x;
                        if i < prev.len() {
                            assert(prev[i] == x);
                            assert(prev.contains(x));
                        }
                    }
                    if ids.contains(x) && x < k {
                        assert(prev.contains(x));
                        let i = choose|i: int| 0 <= i < prev.len() && prev[i] == x;
                        assert(cur[i] == x);
                    }
                }
            }
        } else {
            assert forall|x: u16| #[trigger] prev.contains(x) <==> (ids.contains(x) && x < k) by {
                if x == top {
                    assert(!ids.contains(x));
                }
            }
        }
    }
}

/// What a lookup by event ID finds among the schemas built from a list of
/// manifest events: a schema exactly when some event has that ID, and then
/// the schema of the last event with it.
pub proof fn lemma_schemas_of(events: Seq<ManifestEvent>, id: u16)
    ensures
        schemas_of(events).contains_key(id) <==> exists|i: int|
            0 <= i < events.len() && #[trigger] events[i].descriptor.id == id,
        schemas_of(events).contains_key(id) ==> exists|i: int|
            0 <= i < events.len() && #[trigger] events[i].descriptor.id == id && (forall|j: int|
                i < j < events.len() ==> events[j].descriptor.id != id) && schemas_of(events)[id]
                == schema_of(events[i]),
    decreases events.len(),
{
    if events.len() > 0 {
        let init = events.drop_last();
        let n = events.len() - 1;
        lemma_schemas_of(init, id);
        if events[n].descriptor.id == id {
            assert(schemas_of(events)[id] == schema_of(events[n]));
        } else {
            assert(schemas_of(events).contains_key(id) == schemas_of(init).contains_key(id));
            if exists|i: int| 0 <= i < events.len() && #[trigger] events[i].descriptor.id == id {
                let i = choose|i: int| 0 <= i < events.len() && #[trigger] events[i].descriptor.id == id;
                assert(init[i] == events[i]);
            }
            if schemas_of(init).contains_key(id) {
                let i = choose|i: int|
                    0 <= i < init.len() && #[trigger] init[i].descriptor.id == id && (forall|j: int|
                        i < j < init.len() ==> init[j].descriptor.id != id) && schemas_of(init)[id]
                        == schema_of(init[i]);
                assert(events[i] == init[i]);
                assert forall|j: int| i < j < events.len() implies events[j].descriptor.id != id by {
                    if j < n {
                        assert(events[j] == init[j]);
                    }
                }
            }
        }
    }
}

/// Whether `s` neither begins nor ends with white space.
pub open spec fn no_outer_white_space(s: Seq<char>) -> bool {
    s.len() > 0 ==> !is_white_space(s[0]) && !is_white_space(s.last())
}

proof fn lemma_dec_digits_shape(n: nat)
    ensures
        dec_digits(n).len() > 0,
        dec_digits(n).last() == dec_digit(n % 10),
    decreases n,
{
    if n >= 10 {
        lemma_dec_digits_shape(n / 10);
    }
}

proof fn lemma_flatten_names(props: Seq<PropertyInfo>, start: int, count: nat, fuel: nat)
    ensures
        forall|k: int|
            0 <= k < flatten(props, start, count, fuel).len() ==> no_outer_white_space(
                #[trigger] flatten(props, start, count, fuel)[k].0,
            ),
    decreases fuel, count,
{
    reveal_strlit(".");
    if count == 0 || start < 0 || start >= props.len() {
    } else {
        let p = props[start];
        lemma_flatten_names(props, start + 1, (count - 1) as nat, fuel);
        let rest = flatten(props, start + 1, (count - 1) as nat, fuel);
        lemma_trimmed_has_no_outer_white_space(p.name@);
        let here = if is_struct_entry(p) {
            if fuel == 0 {
                Seq::empty()
            } else {
                let members = flatten(
                    props,
                    p.struct_start_index as int,
                    p.num_struct_members as nat,
                    (fuel - 1) as nat,
                );
                lemma_flatten_names(
                    props,
                    p.struct_start_index as int,
                    p.num_struct_members as nat,
                    (fuel - 1) as nat,
                );
                let prefix = trimmed(p.name@);
                assert forall|k: int| 0 <= k < members.len() implies no_outer_white_space(
                    #[trigger] prefixed(prefix, members)[k].0,
                ) by {
                    let m = members[k];
                    assert(no_outer_white_space(m.0));
                    let name = prefix + "."@ + m.0;
                    assert(prefixed(prefix, members)[k].0 == name);
                    if prefix.len() > 0 {
                        assert(name[0] == prefix[0]);
                    } else {
                        assert(name[0] == '.');
                    }
                    if m.0.len() > 0 {
                        assert(name.last() == m.0.last());
                    } else {
                        assert(name.last() == '.');
                    }
                }
                prefixed(prefix, members)
            }
        } else {
            seq![leaf_property(p)]
        };
        let whole = flatten(props, start, count, fuel);
        assert(whole == here + rest);
        assert forall|k: int| 0 <= k < whole.len() implies no_outer_white_space(#[trigger] whole[k].0) by {
            if k < here.len() {
                assert(whole[k] == here[k]);
            } else {
                assert(whole[k] == rest[k - here.len()]);
            }
        }
    }
}

/// The names in a schema have no leading or trailing white space: the
/// event's name, its task and opcode names, and every parameter name.
pub proof fn lemma_schema_names_have_no_outer_white_space(e: ManifestEvent)
    ensures
        no_outer_white_space(schema_of(e).name),
        no_outer_white_space(schema_of(e).task_name),
        no_outer_white_space(schema_of(e).opcode_name),
        forall|k: int|
            0 <= k < schema_of(e).properties.len() ==> no_outer_white_space(
                #[trigger] schema_of(e).properties[k].0,
            ),
{
    reveal_strlit("_");
    reveal_strlit("Event_");
    let message = trimmed(e.event_message@);
    let task = trimmed(e.task_name@);
    let opcode = trimmed(e.opcode_name@);
    lemma_trimmed_has_no_outer_white_space(e.event_message@);
    lemma_trimmed_has_no_outer_white_space(e.task_name@);
    lemma_trimmed_has_no_outer_white_space(e.opcode_name@);
    lemma_flatten_names(e.properties@, 0, e.properties@.len(), e.properties@.len());
    let name = event_name_of(message, task, opcode, e.descriptor.id);
    if message.len() == 0 && task.len() > 0 && opcode.len() > 0 {
        assert(name == task + "_"@ + opcode);
        assert(name[0] == task[0]);
        assert(name.last() == opcode.last());
    } else if message.len() == 0 && task.len() == 0 {
        let digits = dec_digits(e.descriptor.id as nat);
        lemma_dec_digits_shape(e.descriptor.id as nat);
        assert(name == "Event_"@ + digits);
        assert(name[0] == 'E');
        assert(name.last() == digits.last());
    }
}

/// Every event has a non-empty friendly name.
pub proof fn lemma_event_name_not_empty(message: Seq<char>, task: Seq<char>, opcode: Seq<char>, id: u16)
    ensures
        event_name_of(message, task, opcode, id).len() > 0,
{
    reveal_strlit("Event_");
}

/// Whether every structure entry lists its members after itself, as TDH
/// lays structures out.
pub open spec fn members_follow(props: Seq<PropertyInfo>) -> bool {
    forall|i: int|
        0 <= i < props.len() && is_struct_entry(#[trigger] props[i]) ==> props[i].struct_start_index > i
}

proof fn lemma_forward_depth(props: Seq<PropertyInfo>, start: int, count: nat, fuel: nat)
    requires
        members_follow(props),
        0 <= start,
        start + fuel >= props.len(),
    ensures
        !exceeds_depth(props, start, count, fuel),
    decreases fuel, count,
{
    if count == 0 || start >= props.len() {
    } else {
        let p = props[start];
        if is_struct_entry(p) {
            assert(p.struct_start_index > start);
            lemma_forward_depth(props, p.struct_start_index as int, p.num_struct_members as nat, (fuel - 1) as nat);
        }
        lemma_forward_depth(props, start + 1, (count - 1) as nat, fuel);
    }
}

/// Structures whose members follow them always nest finitely, so such an
/// event can always be parsed.
pub proof fn lemma_forward_structs_nest_finitely(props: Seq<PropertyInfo>)
    requires
        members_follow(props),
    ensures
        nesting_is_finite(props),
{
    lemma_forward_depth(props, 0, props.len(), props.len());
}

/// A property list without structures always flattens, into one parameter
/// per entry.
pub proof fn lemma_flat_properties(props: Seq<PropertyInfo>)
    requires
        forall|i: int| 0 <= i < props.len() ==> !is_struct_entry(#[trigger] props[i]),
    ensures
        nesting_is_finite(props),
        event_properties(props) == props.map_values(|p: PropertyInfo| leaf_property(p)),
{
    lemma_flat_range(props, 0, props.len(), props.len());
    assert(props.subrange(0, props.len() as int) =~= props);
}

proof fn lemma_flat_range(props: Seq<PropertyInfo>, start: int, count: nat, fuel: nat)
    requires
        forall|i: int| 0 <= i < props.len() ==> !is_struct_entry(#[trigger] props[i]),
        0 <= start <= props.len(),
        start + count == props.len(),
    ensures
        !exceeds_depth(props, start, count, fuel),
        flatten(props, start, count, fuel) == props.subrange(start, props.len() as int).map_values(
            |p: PropertyInfo| leaf_property(p),
        ),
    decreases count,
{
    if count > 0 {
        lemma_flat_range(props, start + 1, (count - 1) as nat, fuel);
        assert(props.subrange(start, props.len() as int).map_values(|p: PropertyInfo| leaf_property(p))
            =~= seq![leaf_property(props[start])] + props.subrange(start + 1, props.len() as int).map_values(
            |p: PropertyInfo| leaf_property(p),
        ));
    } else {
        assert(props.subrange(start, props.len() as int).map_values(|p: PropertyInfo| leaf_property(p))
            =~= Seq::empty());
    }
}

} // verus!
