use observer::detect::direct::{allowed_modules, direct_syscall_alert, is_allowed_direct_module};
use observer::detect::engine::{build_context, forwards_event, MIN_USER_FRAMES};
use observer::detect::indirect::{
    allowed_system_modules, indirect_call_origin, indirect_syscall_alert, is_malicious_origin,
    is_noise_symbol, is_syscall_trampoline,
};
use observer::detect::utils::KERNEL_RANGE_START;
use observer::detect::{filter_kernel_addresses, DetectionError, SyscallAlert, SyscallEventContext};
use observer::detect::indirect::walk_symbol;

const KERNEL_ADDR: u64 = 0xFFFF_F803_1234_5678;

fn context_of(frames: &[u64]) -> SyscallEventContext {
    build_context(42, frames.to_vec()).expect("three user frames make a context")
}

fn owned(pairs: &[(&'static str, &str)]) -> Vec<(&'static str, String)> {
    pairs.iter().map(|(k, v)| (*k, v.to_string())).collect()
}

#[test]
fn kernel_addresses_are_removed_in_order() {
    let mut frames = vec![KERNEL_ADDR, 0x7FFE_1000, KERNEL_RANGE_START, 0x1000, KERNEL_RANGE_START - 1, u64::MAX];
    filter_kernel_addresses(&mut frames);
    assert_eq!(frames, vec![0x7FFE_1000, 0x1000, KERNEL_RANGE_START - 1]);
}

#[test]
fn filtering_twice_changes_nothing_more() {
    let mut frames = vec![KERNEL_ADDR, 0x10, 0x20, KERNEL_ADDR, 0x30];
    filter_kernel_addresses(&mut frames);
    let once = frames.clone();
    filter_kernel_addresses(&mut frames);
    assert_eq!(frames, once);
}

#[test]
fn filtering_an_empty_stack_keeps_it_empty() {
    let mut frames: Vec<u64> = Vec::new();
    filter_kernel_addresses(&mut frames);
    assert!(frames.is_empty());
}

#[test]
fn context_needs_three_user_frames() {
    assert_eq!(MIN_USER_FRAMES, 3);
    assert!(build_context(7, vec![]).is_none());
    assert!(build_context(7, vec![0x10, 0x20]).is_none());
    assert!(build_context(7, vec![KERNEL_ADDR, 0x10, KERNEL_ADDR, 0x20]).is_none());
    let ctx = build_context(7, vec![KERNEL_ADDR, 0x10, 0x20, KERNEL_ADDR, 0x30]).unwrap();
    assert_eq!(ctx.process_id, 7);
    assert_eq!(&*ctx.user_frames, &[0x10, 0x20, 0x30]);
}

#[test]
fn own_and_idle_process_events_are_not_forwarded() {
    assert!(forwards_event(1234, 99));
    assert!(!forwards_event(99, 99));
    assert!(!forwards_event(u32::MAX, 99));
    assert!(forwards_event(0, 99));
}

#[test]
fn direct_allow_list() {
    assert_eq!(
        allowed_modules(),
        vec!["ntdll.dll", "win32u.dll", "wow64win.dll", "wow64.dll", "wow64cpu.dll", "kernelbase.dll"]
    );
    assert!(is_allowed_direct_module("ntdll.dll"));
    assert!(is_allowed_direct_module("NTDLL.DLL"));
    assert!(is_allowed_direct_module("KernelBase.dll"));
    assert!(!is_allowed_direct_module("kernel32.dll"));
    assert!(!is_allowed_direct_module("ntdll.dll.bak"));
    assert!(!is_allowed_direct_module(""));
}

#[test]
fn direct_syscall_from_allowed_module_raises_nothing() {
    let module: Result<String, DetectionError> = Ok("Win32u.DLL".to_string());
    assert!(direct_syscall_alert(10, 0x7FF8_0000_1000, &module).is_none());
}

#[test]
fn direct_syscall_from_other_module_is_reported() {
    let module: Result<String, DetectionError> = Ok("Malware.EXE".to_string());
    let alert: SyscallAlert = direct_syscall_alert(10, 0x7FF6_1234_0000, &module).unwrap();
    assert_eq!(alert.detector_name, "Direct Syscall");
    assert_eq!(alert.process_id, 10);
    assert_eq!(alert.primary_action, "Syscall executed from an unauthorized module bounds");
    assert_eq!(alert.context, owned(&[("Module", "Malware.EXE"), ("Address", "0x7FF612340000")]));
}

#[test]
fn direct_syscall_from_unbacked_memory_is_reported() {
    let module: Result<String, DetectionError> = Err(DetectionError::WindowsError(487));
    let alert = direct_syscall_alert(11, 0x1F0000, &module).unwrap();
    assert_eq!(alert.detector_name, "Direct Syscall");
    assert_eq!(alert.process_id, 11);
    assert_eq!(alert.primary_action, "Syscall executed from unbacked or anonymous memory");
    assert_eq!(alert.context, owned(&[("Address", "0x1F0000")]));
}

#[test]
fn noise_symbols() {
    assert!(is_noise_symbol("ntdll!LdrInitializeThunk"));
    assert!(is_noise_symbol("ntdll!LdrShutdownProcess+0x1a"));
    assert!(is_noise_symbol("RtlExitUserProcess"));
    assert!(!is_noise_symbol("ntdll!NtAllocateVirtualMemory"));
    assert!(!is_noise_symbol(""));
}

#[test]
fn syscall_trampolines() {
    assert!(is_syscall_trampoline("NtAllocateVirtualMemory"));
    assert!(is_syscall_trampoline("ZwProtectVirtualMemory"));
    assert!(is_syscall_trampoline("nt"));
    // Only the first two letters are looked at.
    assert!(is_syscall_trampoline("ntdll!NtOpenProcess"));
    assert!(!is_syscall_trampoline("RtlUserThreadStart"));
    assert!(!is_syscall_trampoline("n"));
    assert!(!is_syscall_trampoline(""));
}

#[test]
fn call_origin_is_the_second_frame_of_a_trampoline_stack() {
    let ctx = context_of(&[0x100, 0x200, 0x300]);
    let resolved = vec!["NtWriteVirtualMemory".to_string(), "evil+0x10".to_string()];
    assert_eq!(indirect_call_origin(&ctx, &resolved, false), Some(0x200));
    // A walk that met a start-up symbol checks nothing.
    assert_eq!(indirect_call_origin(&ctx, &resolved, true), None);
    // Fewer than two resolved symbols check nothing.
    assert_eq!(indirect_call_origin(&ctx, &resolved[..1].to_vec(), false), None);
    // A top frame that is no syscall stub checks nothing.
    let other = vec!["RtlAllocateHeap".to_string(), "evil".to_string()];
    assert_eq!(indirect_call_origin(&ctx, &other, false), None);
}

#[test]
fn indirect_allow_list_has_the_subsystem_modules() {
    let modules = allowed_system_modules();
    assert_eq!(modules.len(), 20);
    assert_eq!(modules[0], "ntdll.dll");
    assert_eq!(modules[19], "themeservice.dll");
    assert!(modules.contains(&"windows.storage.dll"));
}

#[test]
fn malicious_origins() {
    let unbacked: Result<String, DetectionError> = Err(DetectionError::Other("no module".to_string()));
    assert!(is_malicious_origin(&unbacked));
    assert!(is_malicious_origin(&Ok("payload.exe".to_string())));
    // An executable is flagged even when its name contains an allowed module.
    assert!(is_malicious_origin(&Ok("ntdll.dll.EXE".to_string())));
    assert!(is_malicious_origin(&Ok("unknown.dll".to_string())));
    assert!(!is_malicious_origin(&Ok("KERNEL32.DLL".to_string())));
    // A module matches when its name contains an allowed one.
    assert!(!is_malicious_origin(&Ok("C:\\Windows\\System32\\ntdll.dll".to_string())));
}

#[test]
fn indirect_syscall_from_unbacked_memory_is_reported() {
    let module: Result<String, DetectionError> = Err(DetectionError::WindowsError(5));
    let alert = indirect_syscall_alert(300, &"NtCreateThreadEx".to_string(), 0xABC0, &module).unwrap();
    assert_eq!(alert.detector_name, "Indirect Syscall");
    assert_eq!(alert.process_id, 300);
    assert_eq!(
        alert.primary_action,
        "Execution transitioned from an unauthorized memory region into an NT API trampoline"
    );
    assert_eq!(
        alert.context,
        owned(&[
            ("Trampoline used in ntdll", "NtCreateThreadEx"),
            ("Call Origin Address", "0xABC0"),
            ("Origin Backing Module", "UNBACKED / ANONYMOUS MEMORY"),
        ])
    );
}

#[test]
fn indirect_syscall_from_executable_names_the_module() {
    let module: Result<String, DetectionError> = Ok("Loader.exe".to_string());
    let alert = indirect_syscall_alert(301, &"ZwMapViewOfSection".to_string(), 0x1_4000_1000, &module).unwrap();
    assert_eq!(alert.context[2], ("Origin Backing Module", "Loader.exe".to_string()));
    assert_eq!(alert.context[1], ("Call Origin Address", "0x140001000".to_string()));
}

#[test]
fn indirect_syscall_from_subsystem_module_raises_nothing() {
    let module: Result<String, DetectionError> = Ok("combase.dll".to_string());
    assert!(indirect_syscall_alert(302, &"NtAlpcSendWaitReceivePort".to_string(), 0x7FF0, &module).is_none());
}

#[test]
fn detection_error_messages() {
    assert_eq!(DetectionError::WindowsError(5).message(), "Windows API Error Code: 5");
    assert_eq!(
        DetectionError::DirectSyscalls("no handle".to_string()).message(),
        "Unable to perform Direct Syscalls detection: no handle"
    );
    assert_eq!(DetectionError::Other("plain".to_string()).message(), "plain");
}

#[test]
fn symbol_walk_stops_at_noise() {
    let mut resolved: Vec<String> = Vec::new();
    assert!(!walk_symbol(&mut resolved, "NtOpenProcess".to_string()));
    assert!(!walk_symbol(&mut resolved, "0x7FF612340000".to_string()));
    assert!(walk_symbol(&mut resolved, "ntdll!LdrInitializeThunk".to_string()));
    assert_eq!(resolved, vec!["NtOpenProcess".to_string(), "0x7FF612340000".to_string()]);
}
