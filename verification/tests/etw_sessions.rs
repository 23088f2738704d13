use observer::etw::event_parser::{EVENT_HEADER_EXT_TYPE_STACK_TRACE32, EVENT_HEADER_EXT_TYPE_STACK_TRACE64};
use observer::etw::filter::{DoesMatch, DoesNotMatch};
use observer::etw::kernel::{perfinfo_guid, system_trace_control_guid, KERNEL_LOGGER_NAME};
use observer::etw::session::{
    kernel_retry_outcome, start_step, user_retry_outcome, StartStep, ERROR_ALREADY_EXISTS,
    EVENT_TRACE_REAL_TIME_MODE,
};
use observer::etw::user::{provider_name, CallbackRef, ProviderEntry};
use observer::etw::{EtwError, Event, EventFilter, EventParser, ExtendedDataItem, FilterCondition, KernelTrace, LogLevel, UserTrace};
use observer::guid::{parse_guid, Guid};
use observer::etw::event_parser::find_property;
use observer::etw::event_parser::pointer_size;
use observer::etw::errors::{
    check_size_query, check_status, format_size_query, manifest_size_query, ERROR_INSUFFICIENT_BUFFER,
};
use observer::etw::session::{start_layout, stop_layout};

const PROVIDER: &str = "22FB2CD6-0E7B-422B-A0C7-2FAD1FD0E716";

fn provider() -> Guid {
    parse_guid(PROVIDER).unwrap()
}

fn other_guid() -> Guid {
    Guid { data1: 0x11111111, data2: 0x2222, data3: 0x3333, data4: [0x44; 8] }
}

fn item(ext_type: u16, data: Vec<u8>) -> ExtendedDataItem {
    ExtendedDataItem { ext_type, data }
}

fn stack64(frames: &[u64]) -> ExtendedDataItem {
    let mut data = vec![0xAA; 8];
    for f in frames {
        data.extend_from_slice(&f.to_le_bytes());
    }
    item(EVENT_HEADER_EXT_TYPE_STACK_TRACE64, data)
}

fn stack32(frames: &[u32]) -> ExtendedDataItem {
    let mut data = vec![0xBB; 8];
    for f in frames {
        data.extend_from_slice(&f.to_le_bytes());
    }
    item(EVENT_HEADER_EXT_TYPE_STACK_TRACE32, data)
}

fn event(id: u16, provider_id: Guid) -> Event {
    Event::new(10, 20, id, provider_id, vec![])
}

#[test]
fn event_header_accessors() {
    let e = Event::new(4, 8, 15, provider(), vec![]);
    assert_eq!(e.pid(), 4);
    assert_eq!(e.tid(), 8);
    assert_eq!(e.id(), 15);
    assert_eq!(e.provider_guid(), provider());
}

#[test]
fn stack_trace_of_64_bit_item() {
    let e = Event::new(1, 1, 1, provider(), vec![stack64(&[0x7FF8_0001_0000, 0xFFFF_F800_0000_0001])]);
    assert_eq!(EventParser::parse_stack_trace(&e), vec![0x7FF8_0001_0000, 0xFFFF_F800_0000_0001]);
    assert_eq!(e.stack_trace(), vec![0x7FF8_0001_0000, 0xFFFF_F800_0000_0001]);
}

#[test]
fn stack_trace_of_32_bit_item_is_widened() {
    let e = Event::new(1, 1, 1, provider(), vec![stack32(&[0x7700_1000, 0xFFFF_FFFF])]);
    assert_eq!(e.stack_trace(), vec![0x7700_1000, 0xFFFF_FFFF]);
}

#[test]
fn stack_trace_skips_other_items_and_partial_frames() {
    let mut partial = stack64(&[0x1234]);
    partial.data.extend_from_slice(&[1, 2, 3]);
    let e = Event::new(
        1,
        1,
        1,
        provider(),
        vec![
            item(1, vec![9; 16]),
            item(EVENT_HEADER_EXT_TYPE_STACK_TRACE64, vec![0; 7]),
            partial,
            stack32(&[0x42]),
        ],
    );
    assert_eq!(e.stack_trace(), vec![0x1234, 0x42]);
    assert!(event(1, provider()).stack_trace().is_empty());
}

#[test]
fn etw_error_messages() {
    assert_eq!(EtwError::WindowsError(1450).message(), "Windows API Error Code: 1450");
    assert_eq!(EtwError::TdhParseError.message(), "Failed to parse TDH property");
    assert_eq!(EtwError::SessionAlreadyExists.message(), "Session already exists");
    assert_eq!(EtwError::PropertyNotFound("ImageName".to_string()).message(), "ImageName property not found");
    assert_eq!(EtwError::Unknown.message(), "Unknown error occurred");
}

#[test]
fn start_status_decides_the_next_step() {
    assert!(matches!(start_step(0), StartStep::Started));
    assert!(matches!(start_step(ERROR_ALREADY_EXISTS), StartStep::StopAndRetry));
    assert!(matches!(start_step(5), StartStep::Failed(EtwError::WindowsError(5))));
    assert!(user_retry_outcome(0).is_ok());
    assert!(matches!(user_retry_outcome(183), Err(EtwError::SessionAlreadyExists)));
    assert!(kernel_retry_outcome(0).is_ok());
    assert!(matches!(kernel_retry_outcome(87), Err(EtwError::WindowsError(87))));
}

#[test]
fn log_levels() {
    assert_eq!(LogLevel::Critical.value(), 1);
    assert_eq!(LogLevel::Error.value(), 2);
    assert_eq!(LogLevel::Warning.value(), 3);
    assert_eq!(LogLevel::Info.value(), 4);
    assert_eq!(LogLevel::Verbose.value(), 5);
    assert_eq!(LogLevel::default(), LogLevel::Verbose);
}

#[test]
fn filter_conditions() {
    assert!(DoesMatch(4).matches(4));
    assert!(!DoesMatch(4).matches(5));
    assert!(DoesNotMatch(4).matches(5));
    assert!(!DoesNotMatch(4).matches(4));
    let mut f: EventFilter<u8> = EventFilter::new(FilterCondition::DoesMatch(9));
    f.add_callback(1);
    f.add_callback(2);
    assert_eq!(f.callbacks, vec![1, 2]);
}

#[test]
fn provider_names_come_from_the_registry() {
    let registered = vec![
        ProviderEntry { guid: other_guid(), name: "Other".to_string() },
        ProviderEntry { guid: provider(), name: "Microsoft-Windows-Kernel-Process".to_string() },
        ProviderEntry { guid: provider(), name: "Duplicate".to_string() },
    ];
    assert_eq!(provider_name(PROVIDER, &registered), "Microsoft-Windows-Kernel-Process");
    assert_eq!(provider_name(PROVIDER, &registered[..1].to_vec()), PROVIDER);
    assert_eq!(provider_name(PROVIDER, &vec![]), PROVIDER);
}

#[test]
fn user_trace_builder() {
    let registered = vec![ProviderEntry { guid: provider(), name: "Kernel-Process".to_string() }];
    let trace: UserTrace<u8> = UserTrace::new("ObserverSession");
    assert_eq!(trace.get_session_name(), "ObserverSession");
    assert_eq!(trace.provider_guid_value(), None);
    assert!(trace.filters().is_empty());
    assert!(trace.enable_parameters().is_none());

    // Without a provider, flags and filters are dropped.
    let trace = trace.enable_flags(4).add_filters(vec![EventFilter::new(DoesMatch(1))]);
    assert!(trace.provider.is_none());

    let trace = trace
        .provider_guid(PROVIDER, &registered)
        .enable_flags(0x4)
        .add_filters(vec![EventFilter::new(DoesMatch(1)), EventFilter::new(DoesNotMatch(2))])
        .add_filters(vec![EventFilter::new(DoesMatch(0x0102))])
        .add_callback(7);
    assert_eq!(trace.provider_guid_value(), Some(provider()));
    assert_eq!(trace.filters().len(), 3);
    assert_eq!(trace.global_callbacks(), &[7]);
    let p = trace.provider.as_ref().unwrap();
    assert_eq!(p.name, "Kernel-Process");
    assert_eq!(p.trace_flags, Some(4));
    assert_eq!(p.level, LogLevel::Verbose);
    assert_eq!((p.any_keyword, p.all_keyword), (0, 0));
}

#[test]
fn enable_parameters_carry_the_event_id_filter() {
    let trace: UserTrace<u8> = UserTrace::new("s")
        .provider_guid(PROVIDER, &vec![])
        .add_filters(vec![
            EventFilter::new(DoesMatch(1)),
            EventFilter::new(DoesNotMatch(3)),
            EventFilter::new(DoesMatch(0x0102)),
        ]);
    let params = trace.enable_parameters().unwrap();
    assert_eq!(params.provider, provider());
    assert_eq!(params.level, 5);
    assert_eq!(params.enable_property, 0);
    assert_eq!(params.event_id_filter, Some(vec![1, 0, 2, 0, 1, 0, 0x02, 0x01]));
    let p = trace.provider.as_ref().unwrap();
    assert_eq!(p.build_filter_descriptors(), Some(vec![1, 0, 2, 0, 1, 0, 0x02, 0x01]));

    let only_exclusions: UserTrace<u8> =
        UserTrace::new("s").provider_guid(PROVIDER, &vec![]).add_filters(vec![EventFilter::new(DoesNotMatch(3))]);
    assert_eq!(only_exclusions.enable_parameters().unwrap().event_id_filter, None);

    let flagged: UserTrace<u8> = UserTrace::new("s").provider_guid(PROVIDER, &vec![]).enable_flags(0x4);
    assert_eq!(flagged.enable_parameters().unwrap().enable_property, 4);
}

#[test]
fn user_session_properties() {
    let trace: UserTrace<u8> = UserTrace::new("s");
    let a = trace.session_properties();
    assert_eq!(a.log_file_mode, EVENT_TRACE_REAL_TIME_MODE);
    assert_eq!((a.buffer_size, a.minimum_buffers, a.maximum_buffers, a.flush_timer), (64, 2, 20, 1));
    assert_eq!(a.enable_flags, 0);
    // A random version-4 GUID of the RFC 4122 variant.
    assert_eq!((a.session_guid.data3 & 0xF0) >> 4, 4);
    assert_eq!(a.session_guid.data4[0] >> 6, 2);
    let b = trace.session_properties();
    assert_ne!(a.session_guid, b.session_guid);
}

#[test]
fn callbacks_follow_filters_then_globals_once() {
    let mut first = EventFilter::new(DoesMatch(1));
    first.add_callback(10u8);
    first.add_callback(11u8);
    let mut second = EventFilter::new(DoesNotMatch(2));
    second.add_callback(20u8);
    let trace = UserTrace::new("s")
        .provider_guid(PROVIDER, &vec![])
        .add_filters(vec![first, second])
        .add_callback(90u8)
        .add_callback(91u8);

    assert_eq!(
        trace.callbacks_for(&event(1, provider())),
        vec![
            CallbackRef::Filter { filter: 0, index: 0 },
            CallbackRef::Filter { filter: 0, index: 1 },
            CallbackRef::Filter { filter: 1, index: 0 },
            CallbackRef::Global { index: 0 },
            CallbackRef::Global { index: 1 },
        ]
    );
    assert_eq!(
        trace.callbacks_for(&event(3, provider())),
        vec![
            CallbackRef::Filter { filter: 1, index: 0 },
            CallbackRef::Global { index: 0 },
            CallbackRef::Global { index: 1 },
        ]
    );
    assert_eq!(trace.callbacks_for(&event(2, provider())), vec![]);
    // Events of another provider run nothing.
    assert_eq!(trace.callbacks_for(&event(1, other_guid())), vec![]);
    // Without a provider nothing runs either.
    let bare: UserTrace<u8> = UserTrace::new("s").add_callback(1);
    assert_eq!(bare.callbacks_for(&event(1, provider())), vec![]);
}

#[test]
fn kernel_trace_builder() {
    let trace: KernelTrace<u8> = KernelTrace::new()
        .enable_flags(0x80)
        .enable_stack_walk(0x0000_0033)
        .enable_stack_walk(0x0001_0134)
        .add_callback(3);
    assert_eq!(trace.get_session_name(), KERNEL_LOGGER_NAME);
    assert_eq!(trace.get_session_name(), "NT Kernel Logger");
    assert_eq!(trace.global_callbacks(), &[3]);
    assert_eq!(trace.stack_walk_events, vec![0x33, 0x0134]);
    assert_eq!(trace.stack_tracing_types(), vec![0x33, 0x34]);
    let props = trace.session_properties();
    assert_eq!(props.session_guid, system_trace_control_guid());
    assert_eq!(props.enable_flags, 0x80);
    assert_eq!(props.log_file_mode, EVENT_TRACE_REAL_TIME_MODE);
    assert_eq!((props.buffer_size, props.minimum_buffers, props.maximum_buffers, props.flush_timer), (64, 4, 40, 1));
}

#[test]
fn well_known_guids() {
    assert_eq!(system_trace_control_guid(), parse_guid("9E814AAD-3204-11D2-9A82-006008A86939").unwrap());
    assert_eq!(perfinfo_guid(), parse_guid("CE1DBFB4-137E-4DA6-87B0-3F59AA102CBC").unwrap());
}

#[test]
fn property_lookup_by_utf16_name() {
    let names: Vec<Vec<u16>> = ["ProcessID", "ImageName", "ProcessID"]
        .iter()
        .map(|n| n.encode_utf16().collect())
        .collect();
    assert_eq!(find_property(&names, "ImageName").unwrap(), 1);
    assert_eq!(find_property(&names, "ProcessID").unwrap(), 0);
    // The name must match exactly, not as a prefix.
    assert!(matches!(
        find_property(&names, "Process"),
        Err(EtwError::PropertyNotFound(ref n)) if n == "Process"
    ));
    let astral: Vec<Vec<u16>> = vec!["\u{1F600}x".encode_utf16().collect()];
    assert_eq!(astral[0], vec![0xD83D, 0xDE00, 0x78]);
    assert_eq!(find_property(&astral, "\u{1F600}x").unwrap(), 0);
    assert!(find_property(&vec![], "a").is_err());
}

#[test]
fn pointer_size_follows_header_flags() {
    assert_eq!(pointer_size(0x20), 4);
    assert_eq!(pointer_size(0x60), 4);
    assert_eq!(pointer_size(0x40), 8);
    assert_eq!(pointer_size(0x0), std::mem::size_of::<usize>() as u32);
    assert_eq!(pointer_size(0x100), std::mem::size_of::<usize>() as u32);
}

#[test]
fn status_outcomes() {
    assert!(check_status(0).is_ok());
    assert!(matches!(check_status(5), Err(EtwError::WindowsError(5))));
    assert!(check_size_query(ERROR_INSUFFICIENT_BUFFER).is_ok());
    assert!(matches!(check_size_query(0), Err(EtwError::WindowsError(0))));
    assert!(matches!(manifest_size_query(122), Ok(true)));
    assert!(matches!(manifest_size_query(0), Ok(false)));
    assert!(matches!(manifest_size_query(1168), Err(EtwError::WindowsError(1168))));
    assert!(matches!(format_size_query(0, 0), Ok(false)));
    assert!(matches!(format_size_query(122, 40), Ok(true)));
    assert!(matches!(format_size_query(0, 8), Ok(true)));
    assert!(matches!(format_size_query(1168, 8), Err(EtwError::WindowsError(1168))));
}

#[test]
fn properties_block_layouts() {
    let name: Vec<u16> = observer::text::wide_nul("NT Kernel Logger");
    assert_eq!(name.len(), 17);
    let l = start_layout(120, name.len());
    assert_eq!(l.total_size, 154);
    assert_eq!(l.words, 20);
    assert_eq!(l.logger_name_offset, 120);
    let exact = start_layout(120, 4);
    assert_eq!((exact.total_size, exact.words), (128, 16));
    let s = stop_layout(120);
    assert_eq!((s.buffer_size, s.logger_name_offset, s.log_file_name_offset), (4216, 120, 2168));
}

#[test]
fn global_callbacks_run_once_per_matched_event() {
    let trace: UserTrace<u8> = UserTrace::new("s")
        .provider_guid(PROVIDER, &vec![])
        .add_filters(vec![EventFilter::new(DoesNotMatch(4)), EventFilter::new(DoesNotMatch(6))])
        .add_callback(1);
    assert_eq!(trace.callbacks_for(&event(1, provider())), vec![CallbackRef::Global { index: 0 }]);
    assert_eq!(trace.callbacks_for(&event(4, provider())), vec![CallbackRef::Global { index: 0 }]);
    // A provider without filters passes no event, so nothing runs.
    let unfiltered: UserTrace<u8> = UserTrace::new("s").provider_guid(PROVIDER, &vec![]).add_callback(1);
    assert_eq!(unfiltered.callbacks_for(&event(1, provider())), vec![]);
}
