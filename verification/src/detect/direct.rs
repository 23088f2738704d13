//! Rule of the direct syscall detector: a syscall whose top-of-stack caller
//! lies outside the few modules that legitimately issue syscalls.

use vstd::prelude::*;
use crate::detect::alert::{AlertView, SyscallAlert};
use crate::detect::errors::DetectionError;
use crate::text::{chars_of, equals_any, format_address, hex_prefixed, lowercase, to_lowercase, views_of};

verus! {

/// The modules (lower case) from which a syscall may be issued directly.
pub open spec fn direct_allowed_modules() -> Seq<Seq<char>> {
    seq![
        "ntdll.dll"@,
        "win32u.dll"@,
        "wow64win.dll"@,
        "wow64.dll"@,
        "wow64cpu.dll"@,
        "kernelbase.dll"@,
    ]
}

/// The allowed modules, as strings.
pub fn allowed_modules() -> (v: Vec<&'static str>)
    ensures
        views_of(v@) == direct_allowed_modules(),
{
    let mut v: Vec<&'static str> = Vec::new();
    v.push("ntdll.dll");
    v.push("win32u.dll");
    v.push("wow64win.dll");
    v.push("wow64.dll");
    v.push("wow64cpu.dll");
    v.push("kernelbase.dll");
    assert(views_of(v@) =~= direct_allowed_modules());
    v
}

/// The outcome of a module lookup: the module's name, or `None` where the
/// address lies in memory that no module backs.
pub open spec fn lookup_view(module: Result<String, DetectionError>) -> Option<Seq<char>> {
    match module {
        Ok(name) => Some(name@),
        Err(_) => None,
    }
}

/// What the direct syscall detector raises for a syscall whose top frame is
/// `top_address` in process `process_id`, given the module that backs that
/// address: nothing when the module's lower-cased name is allowed; an alert
/// naming the module otherwise; and an alert on unbacked memory when no
/// module backs the address.
pub open spec fn direct_syscall_verdict(
    process_id: u32,
    top_address: u64,
    module: Option<Seq<char>>,
) -> Option<AlertView> {
    match module {
        Some(name) => if direct_allowed_modules().contains(lowercase(name)) {
            None
        } else {
            Some(
                AlertView {
                    detector_name: "Direct Syscall"@,
                    process_id,
                    primary_action: "Syscall executed from an unauthorized module bounds"@,
                    context: seq![
                        ("Module"@, name),
                        ("Address"@, hex_prefixed(top_address as nat)),
                    ],
                },
            )
        },
        None => Some(
            AlertView {
                detector_name: "Direct Syscall"@,
                process_id,
                primary_action: "Syscall executed from unbacked or anonymous memory"@,
                context: seq![("Address"@, hex_prefixed(top_address as nat))],
            },
        ),
    }
}

/// Whether a module may issue syscalls directly: its lower-cased name is one
/// of the allowed modules.
pub fn is_allowed_direct_module(module_name: &str) -> (r: bool)
    ensures
        r == direct_allowed_modules().contains(lowercase(module_name@)),
{
    let lower = to_lowercase(module_name);
    let lower_chars = chars_of(lower.as_str());
    equals_any(&lower_chars, &allowed_modules())
}

/// The alert that the direct syscall detector raises, if any (see
/// [`direct_syscall_verdict`]). `module` is the outcome of looking up the
/// module that backs `top_address`.
pub fn direct_syscall_alert(
    process_id: u32,
    top_address: u64,
    module: &Result<String, DetectionError>,
) -> (alert: Option<SyscallAlert>)
    ensures
        match direct_syscall_verdict(process_id, top_address, lookup_view(*module)) {
            Some(v) => alert matches Some(a) && a@ == v,
            None => alert is None,
        },
{
    match module {
        Ok(name) => {
            if is_allowed_direct_module(name.as_str()) {
                None
            } else {
                let mut context: Vec<(&'static str, String)> = Vec::new();
                context.push(("Module", name.clone()));
                context.push(("Address", format_address(top_address)));
                let alert = SyscallAlert {
                    detector_name: "Direct Syscall",
                    process_id,
                    primary_action: "Syscall executed from an unauthorized module bounds".to_owned(),
                    context,
                };
                assert(alert@ =~= direct_syscall_verdict(process_id, top_address, lookup_view(*module))->0);
                Some(alert)
            }
        },
        Err(_) => {
            let mut context: Vec<(&'static str, String)> = Vec::new();
            context.push(("Address", format_address(top_address)));
            let alert = SyscallAlert {
                detector_name: "Direct Syscall",
                process_id,
                primary_action: "Syscall executed from unbacked or anonymous memory".to_owned(),
                context,
            };
            assert(alert@ =~= direct_syscall_verdict(process_id, top_address, lookup_view(*module))->0);
            Some(alert)
        },
    }
}

/// A syscall issued from an allowed module raises no alert, and one issued
/// from memory that no module backs always raises one.
pub proof fn lemma_direct_verdict(process_id: u32, top_address: u64, module: Option<Seq<char>>)
    ensures
        module matches Some(name) && direct_allowed_modules().contains(lowercase(name))
            ==> direct_syscall_verdict(process_id, top_address, module) is None,
        module is None ==> direct_syscall_verdict(process_id, top_address, module) is Some,
        direct_syscall_verdict(process_id, top_address, module) matches Some(a) ==> a.process_id
            == process_id && a.detector_name == "Direct Syscall"@,
{
}

/// The six modules from which a syscall may be issued directly are exactly
/// ntdll, win32u, wow64win, wow64, wow64cpu and kernelbase, whatever the case
/// of their names: a module whose lower-cased name is one of them raises no
/// alert, and any other backing module raises the alert on an unauthorized
/// module, naming that module and the address.
pub proof fn lemma_direct_allowed_modules_exactly(process_id: u32, top_address: u64, name: Seq<char>)
    ensures
        ({
            let l = lowercase(name);
            l == "ntdll.dll"@ || l == "win32u.dll"@ || l == "wow64win.dll"@ || l == "wow64.dll"@
                || l == "wow64cpu.dll"@ || l == "kernelbase.dll"@
        }) ==> direct_syscall_verdict(process_id, top_address, Some(name)) is None,
        !({
            let l = lowercase(name);
            l == "ntdll.dll"@ || l == "win32u.dll"@ || l == "wow64win.dll"@ || l == "wow64.dll"@
                || l == "wow64cpu.dll"@ || l == "kernelbase.dll"@
        }) ==> (direct_syscall_verdict(process_id, top_address, Some(name)) matches Some(a)
            && a.detector_name == "Direct Syscall"@ && a.process_id == process_id
            && a.primary_action == "Syscall executed from an unauthorized module bounds"@
            && a.context == seq![("Module"@, name), ("Address"@, hex_prefixed(top_address as nat))]),
{
    let l = lowercase(name);
    let m = direct_allowed_modules();
    assert(m[0] == "ntdll.dll"@);
    assert(m[1] == "win32u.dll"@);
    assert(m[2] == "wow64win.dll"@);
    assert(m[3] == "wow64.dll"@);
    assert(m[4] == "wow64cpu.dll"@);
    assert(m[5] == "kernelbase.dll"@);
    if m.contains(l) {
        let k = choose|k: int| 0 <= k < m.len() && m[k] == l;
        assert(k == 0 || k == 1 || k == 2 || k == 3 || k == 4 || k == 5);
    }
}

} // verus!
