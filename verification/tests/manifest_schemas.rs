use observer::etw::manifest_parser::{
    map_in_type, map_out_type, nesting_terminates, parse_event_schema, parse_properties, resolve_event_name,
    EventDescriptor, ManifestEvent, PropertyInfo,
};
use observer::etw::{EventProperty, EventSchema, ManifestParser};
use observer::guid::Guid;

/// Microsoft-Windows-Kernel-Process, {22FB2CD6-0E7B-422B-A0C7-2FAD1FD0E716}.
const KERNEL_PROCESS_GUID: Guid = Guid {
    data1: 0x22FB2CD6,
    data2: 0x0E7B,
    data3: 0x422B,
    data4: [0xA0, 0xC7, 0x2F, 0xAD, 0x1F, 0xD0, 0xE7, 0x16],
};

fn leaf(name: &str, in_type: u16, out_type: u16) -> PropertyInfo {
    PropertyInfo { name: name.to_string(), flags: 0, in_type, out_type, struct_start_index: 0, num_struct_members: 0 }
}

fn structure(name: &str, start: u16, members: u16) -> PropertyInfo {
    PropertyInfo {
        name: name.to_string(),
        flags: 1,
        in_type: 0,
        out_type: 0,
        struct_start_index: start,
        num_struct_members: members,
    }
}

fn descriptor(id: u16) -> EventDescriptor {
    EventDescriptor { id, version: 2, level: 4, opcode: 1, keyword: 0x8000_0000_0000_0010 }
}

fn manifest_event(id: u16, message: &str, task: &str, opcode: &str, properties: Vec<PropertyInfo>) -> ManifestEvent {
    ManifestEvent {
        descriptor: descriptor(id),
        event_message: message.to_string(),
        task_name: task.to_string(),
        opcode_name: opcode.to_string(),
        properties,
    }
}

/// The events of the Kernel-Process manifest that these tests read, as TDH
/// reports them (names untrimmed, as stored).
fn kernel_process_events() -> Vec<ManifestEvent> {
    vec![
        manifest_event(
            1,
            "",
            "ProcessStart ",
            " Start",
            vec![
                leaf("ProcessID", 8, 0),
                leaf("CreateTime", 17, 0),
                leaf("ParentProcessID", 8, 0),
                leaf("SessionID", 8, 0),
                leaf("ImageName", 1, 0),
            ],
        ),
        manifest_event(2, "", "ProcessStop", "Stop", vec![leaf("ProcessID", 8, 20), leaf("ExitCode", 8, 0)]),
        manifest_event(5, "", "ImageLoad", "", vec![leaf("ImageBase", 16, 0)]),
    ]
}

fn load_kernel_process() -> ManifestParser {
    ManifestParser::new(KERNEL_PROCESS_GUID, kernel_process_events())
}

fn names(props: &[EventProperty]) -> Vec<String> {
    props.iter().map(|p| p.name.clone()).collect()
}

// The four tests below stand in for tests that read the Kernel-Process
// manifest from the system's TDH service: they keep those tests' checks but
// build the parser from the events above, as TDH reports them.

#[test]
fn test_load_manifest_success() {
    let parser = load_kernel_process();
    assert_eq!(parser.provider_guid(), KERNEL_PROCESS_GUID, "Parser should be for the Kernel-Process provider");

    let ids = parser.list_event_ids();
    assert!(!ids.is_empty(), "Kernel-Process should have events");
    assert!(ids.contains(&1), "Should contain Event ID 1 (Process Start)");
}

#[test]
fn test_event_schema_content() {
    let parser = load_kernel_process();
    let schema = parser.get_schema(1).expect("Event ID 1 should exist");

    assert!(!schema.name.is_empty());
    assert!(!schema.name.starts_with("Event_"), "Should have resolved a friendly name");

    let has_pid = schema.properties.iter().any(|p| p.name.contains("ProcessID") || p.name.contains("ProcessId"));
    assert!(has_pid, "Event ID 1 should have a ProcessID field");
}

#[test]
fn test_debug_formatting() {
    let parser = load_kernel_process();
    let output = parser.summary();

    assert!(output.contains("--- Manifest Summary"));
    assert!(output.contains("[Event ID: 1]"));
    assert!(output.contains("-> Parameter:"));
}

#[test]
fn test_invalid_provider() {
    let bad_guid = Guid { data1: 0x11111111, data2: 0x2222, data3: 0x3333, data4: [0x44; 8] };
    // A provider that the system does not know has no manifest events, so
    // TDH reports none for it.
    let parser = ManifestParser::new(bad_guid, Vec::new());
    assert!(parser.list_event_ids().is_empty(), "Random provider should have no events");
}

#[test]
fn type_names() {
    assert_eq!(map_in_type(0), "Null");
    assert_eq!(map_in_type(1), "UnicodeString");
    assert_eq!(map_in_type(8), "UInt32");
    assert_eq!(map_in_type(21), "HexInt64");
    assert_eq!(map_in_type(32), "WbemSID");
    assert_eq!(map_in_type(33), "Unknown");
    assert_eq!(map_in_type(u16::MAX), "Unknown");
    assert_eq!(map_out_type(0), "Null");
    assert_eq!(map_out_type(20), "PID");
    assert_eq!(map_out_type(22), "Port");
    assert_eq!(map_out_type(36), "Pkcs7WithTypeInfo");
    assert_eq!(map_out_type(37), "Default");
}

#[test]
fn event_names_are_resolved_by_precedence() {
    let s = |x: &str| x.to_string();
    assert_eq!(resolve_event_name(&s("Process %1 started"), &s("ProcessStart"), &s("Start"), 1), "Process %1 started");
    assert_eq!(resolve_event_name(&s(""), &s("ProcessStart"), &s("Start"), 1), "ProcessStart_Start");
    assert_eq!(resolve_event_name(&s(""), &s("ImageLoad"), &s(""), 5), "ImageLoad");
    assert_eq!(resolve_event_name(&s(""), &s(""), &s("Start"), 42), "Event_42");
    assert_eq!(resolve_event_name(&s(""), &s(""), &s(""), 0), "Event_0");
}

#[test]
fn schema_fields_are_trimmed_and_copied() {
    let schema: EventSchema = parse_event_schema(&kernel_process_events()[0]);
    assert_eq!(schema.id, 1);
    assert_eq!(schema.version, 2);
    assert_eq!(schema.level, 4);
    assert_eq!(schema.opcode, 1);
    assert_eq!(schema.keyword, 0x8000_0000_0000_0010);
    assert_eq!(schema.name, "ProcessStart_Start");
    assert_eq!(schema.task_name, "ProcessStart");
    assert_eq!(schema.opcode_name, "Start");
    assert_eq!(names(&schema.properties), vec!["ProcessID", "CreateTime", "ParentProcessID", "SessionID", "ImageName"]);
    assert_eq!(schema.properties[1].in_type, "FileTime");
    assert_eq!(schema.properties[4].in_type, "UnicodeString");
    assert!(schema.properties.iter().all(|p| !p.is_struct && p.count == 1));

    let blank = parse_event_schema(&manifest_event(9, "  ", " ", "", vec![]));
    assert_eq!(blank.name, "Event_9");
    assert!(blank.properties.is_empty());
}

#[test]
fn structures_are_flattened_with_dotted_names() {
    // Entry 0 is a structure of entries 2 and 3; entry 3 is a structure of
    // entry 4. Every entry is listed, members included.
    let props = vec![
        structure(" Header ", 2, 2),
        leaf("Status", 8, 30),
        leaf("Size", 8, 0),
        structure("Inner", 4, 1),
        leaf("Flag", 13, 0),
    ];
    assert!(nesting_terminates(&props));
    let flat = parse_properties(&props);
    assert_eq!(
        names(&flat),
        vec!["Header.Size", "Header.Inner.Flag", "Status", "Size", "Inner.Flag", "Flag"]
    );
    assert_eq!(flat[1].in_type, "Boolean");
    assert_eq!(flat[2].out_type, "Win32Error");
}

#[test]
fn member_ranges_stop_at_the_last_entry() {
    let props = vec![structure("S", 1, 10), leaf("A", 4, 0)];
    assert!(nesting_terminates(&props));
    assert_eq!(names(&parse_properties(&props)), vec!["S.A", "A"]);
}

#[test]
fn self_containing_structures_are_detected() {
    assert!(!nesting_terminates(&vec![structure("Loop", 0, 1)]));
    assert!(!nesting_terminates(&vec![leaf("A", 1, 0), structure("B", 2, 1), structure("C", 1, 1)]));
    assert!(nesting_terminates(&vec![]));
    assert!(nesting_terminates(&vec![structure("Empty", 0, 0)]));
}

#[test]
fn lookups_by_event_id() {
    let parser = load_kernel_process();
    assert_eq!(parser.list_event_ids(), vec![1, 2, 5]);
    assert_eq!(parser.get_event_name(2), Some("ProcessStop_Stop".to_string()));
    assert_eq!(parser.get_event_name(5), Some("ImageLoad".to_string()));
    assert_eq!(parser.get_event_name(3), None);
    assert_eq!(names(parser.get_event_properties(2).unwrap()), vec!["ProcessID", "ExitCode"]);
    assert!(parser.get_event_properties(4).is_none());
    assert!(parser.get_schema(0).is_none());
}

#[test]
fn later_descriptor_of_an_id_wins() {
    let events = vec![
        manifest_event(7, "first", "", "", vec![]),
        manifest_event(3, "three", "", "", vec![]),
        manifest_event(7, "second", "", "", vec![]),
    ];
    let parser = ManifestParser::new(KERNEL_PROCESS_GUID, events);
    assert_eq!(parser.list_event_ids(), vec![3, 7]);
    assert_eq!(parser.get_event_name(7), Some("second".to_string()));
}

#[test]
fn summary_text_is_exact() {
    let events = vec![
        manifest_event(5, "", "ImageLoad", "", vec![leaf("ImageBase", 16, 0), leaf("ProcessID", 8, 20)]),
        manifest_event(1, "Start", "", "", vec![]),
    ];
    let parser = ManifestParser::new(KERNEL_PROCESS_GUID, events);
    let expected = format!(
        "--- Manifest Summary (Total Events: 2) ---\n\
         \n[Event ID: 1] Name: Start\n   (No parameters defined)\n\
         \n[Event ID: 5] Name: ImageLoad\n\
         {}{}",
        format!("   -> Parameter: {:<35} [Type: {:<15} | Out: {}]\n", "ImageBase", "Pointer", " - "),
        format!("   -> Parameter: {:<35} [Type: {:<15} | Out: {}]\n", "ProcessID", "UInt32", "PID"),
    );
    assert_eq!(parser.summary(), expected);
}

#[test]
fn empty_manifest_summary() {
    let parser = ManifestParser::new(KERNEL_PROCESS_GUID, vec![]);
    assert_eq!(parser.summary(), "--- Manifest Summary (Total Events: 0) ---\n");
}

#[test]
fn single_schema_and_property_summaries() {
    let parser = load_kernel_process();
    let schema = parser.get_schema(5).unwrap();
    let line = format!("   -> Parameter: {:<35} [Type: {:<15} | Out: {}]\n", "ImageBase", "Pointer", " - ");
    assert_eq!(schema.properties[0].summary(), line);
    assert_eq!(schema.summary(), format!("\n[Event ID: 5] Name: ImageLoad\n{}", line));
    let empty = parse_event_schema(&manifest_event(9, "Nine", "", "", vec![]));
    assert_eq!(empty.summary(), "\n[Event ID: 9] Name: Nine\n   (No parameters defined)\n");
}

#[test]
fn names_lose_unicode_white_space() {
    let schema = parse_event_schema(&manifest_event(
        3,
        "",
        "\u{3000}\tThreadStart\u{85}\u{2009}",
        "\u{A0}Start\n",
        vec![leaf(" \u{2028}TID\u{200A}", 8, 21)],
    ));
    assert_eq!(schema.task_name, "ThreadStart");
    assert_eq!(schema.opcode_name, "Start");
    assert_eq!(schema.name, "ThreadStart_Start");
    assert_eq!(schema.properties[0].name, "TID");
    // Characters that are not Unicode white space stay.
    let kept = parse_event_schema(&manifest_event(4, "\u{200B}x\u{FEFF}", "", "", vec![]));
    assert_eq!(kept.name, "\u{200B}x\u{FEFF}");
}
