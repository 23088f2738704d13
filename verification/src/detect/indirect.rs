//! Rules of the indirect syscall detector: execution that jumps from an
//! unexpected region straight into an NT API syscall stub.

use vstd::prelude::*;
use crate::detect::alert::{AlertView, SyscallAlert};
use crate::detect::context::SyscallEventContext;
use crate::detect::direct::lookup_view;
use crate::detect::errors::DetectionError;
use crate::text::{
    chars_of, contains, contains_any, ends_with, format_address, has_infix, has_prefix, has_suffix,
    hex_prefixed, lowercase, starts_with, to_lowercase,
};

verus! {

/// Whether a resolved symbol belongs to process start-up or shut-down, whose
/// stacks are not evidence of anything: its lower-cased name contains
/// `ldrinitializethunk`, `ldrshutdownprocess` or `rtlexituserprocess`.
pub open spec fn is_noise(symbol: Seq<char>) -> bool {
    has_infix(lowercase(symbol), "ldrinitializethunk"@) || has_infix(
        lowercase(symbol),
        "ldrshutdownprocess"@,
    ) || has_infix(lowercase(symbol), "rtlexituserprocess"@)
}

/// Whether a resolved symbol is an NT API syscall stub: its lower-cased name
/// starts with `nt` or `zw`.
pub open spec fn is_trampoline(symbol: Seq<char>) -> bool {
    has_prefix(lowercase(symbol), "nt"@) || has_prefix(lowercase(symbol), "zw"@)
}

/// The modules (lower case) of the Windows subsystem that may call straight
/// into a syscall stub; a module matches when its lower-cased name contains
/// one of them.
pub open spec fn indirect_allowed_modules() -> Seq<Seq<char>> {
    seq![
        "ntdll.dll"@,
        "kernelbase.dll"@,
        "kernel32.dll"@,
        "rpcrt4.dll"@,
        "combase.dll"@,
        "mswsock.dll"@,
        "sechost.dll"@,
        "advapi32.dll"@,
        "win32u.dll"@,
        "wow64.dll"@,
        "wow64win.dll"@,
        "wow64cpu.dll"@,
        "ucrtbase.dll"@,
        "ws2_32.dll"@,
        "user32.dll"@,
        "crypt32.dll"@,
        "bcrypt.dll"@,
        "appcore.dll"@,
        "windows.storage.dll"@,
        "themeservice.dll"@,
    ]
}

/// Where a stack walk leads to a check of its call origin: the walk met no
/// start-up or shut-down symbol, resolved at least two frames, and the top
/// frame is a syscall stub. The call origin is then the second frame.
pub open spec fn call_origin(frames: Seq<u64>, resolved: Seq<Seq<char>>, hit_noise: bool) -> Option<
    u64,
> {
    if !hit_noise && resolved.len() >= 2 && frames.len() >= 2 && is_trampoline(resolved[0]) {
        Some(frames[1])
    } else {
        None
    }
}

/// Whether the memory at a call origin may not call a syscall stub: it is
/// unbacked, or its module is an executable, or its module is none of the
/// allowed subsystem modules.
pub open spec fn origin_is_malicious(module: Option<Seq<char>>) -> bool {
    match module {
        None => true,
        Some(name) => has_suffix(lowercase(name), ".exe"@) || !(exists|k: int|
            0 <= k < indirect_allowed_modules().len() && has_infix(
                lowercase(name),
                #[trigger] indirect_allowed_modules()[k],
            )),
    }
}

/// What the indirect syscall detector raises when the stub `trampoline` was
/// reached from `origin` in process `process_id`, given the module that
/// backs `origin`.
pub open spec fn indirect_syscall_verdict(
    process_id: u32,
    trampoline: Seq<char>,
    origin: u64,
    module: Option<Seq<char>>,
) -> Option<AlertView> {
    if origin_is_malicious(module) {
        Some(
            AlertView {
                detector_name: "Indirect Syscall"@,
                process_id,
                primary_action: "Execution transitioned from an unauthorized memory region into an NT API trampoline"@,
                context: seq![
                    ("Trampoline used in ntdll"@, trampoline),
                    ("Call Origin Address"@, hex_prefixed(origin as nat)),
                    (
                        "Origin Backing Module"@,
                        match module {
                            Some(name) => name,
                            None => "UNBACKED / ANONYMOUS MEMORY"@,
                        },
                    ),
                ],
            },
        )
    } else {
        None
    }
}

/// The allowed subsystem modules, as strings.
pub fn allowed_system_modules() -> (v: Vec<&'static str>)
    ensures
        v@.len() == indirect_allowed_modules().len(),
        forall|k: int| 0 <= k < v@.len() ==> #[trigger] v@[k]@ == indirect_allowed_modules()[k],
{
    let mut v: Vec<&'static str> = Vec::new();
    v.push("ntdll.dll");
    v.push("kernelbase.dll");
    v.push("kernel32.dll");
    v.push("rpcrt4.dll");
    v.push("combase.dll");
    v.push("mswsock.dll");
    v.push("sechost.dll");
    v.push("advapi32.dll");
    v.push("win32u.dll");
    v.push("wow64.dll");
    v.push("wow64win.dll");
    v.push("wow64cpu.dll");
    v.push("ucrtbase.dll");
    v.push("ws2_32.dll");
    v.push("user32.dll");
    v.push("crypt32.dll");
    v.push("bcrypt.dll");
    v.push("appcore.dll");
    v.push("windows.storage.dll");
    v.push("themeservice.dll");
    v
}

/// Whether a resolved symbol belongs to process start-up or shut-down (see
/// [`is_noise`]).
pub fn is_noise_symbol(symbol: &str) -> (r: bool)
    ensures
        r == is_noise(symbol@),
{
    let lower = to_lowercase(symbol);
    let l = chars_of(lower.as_str());
    contains(&l, &chars_of("ldrinitializethunk")) || contains(&l, &chars_of("ldrshutdownprocess"))
        || contains(&l, &chars_of("rtlexituserprocess"))
}

/// Whether a resolved symbol is an NT API syscall stub (see
/// [`is_trampoline`]).
pub fn is_syscall_trampoline(symbol: &str) -> (r: bool)
    ensures
        r == is_trampoline(symbol@),
{
    let lower = to_lowercase(symbol);
    let l = chars_of(lower.as_str());
    starts_with(&l, &chars_of("nt")) || starts_with(&l, &chars_of("zw"))
}

/// One step of the walk over the resolved symbols of a stack: a start-up or
/// shut-down symbol stops the walk and is not kept; any other symbol is kept
/// after those before it. Returns whether the walk stops.
pub fn walk_symbol(resolved: &mut Vec<String>, symbol: String) -> (stop: bool)
    ensures
        stop == is_noise(symbol@),
        stop ==> final(resolved)@ == old(resolved)@,
        !stop ==> final(resolved)@ == old(resolved)@.push(symbol),
{
    if is_noise_symbol(symbol.as_str()) {
        true
    } else {
        resolved.push(symbol);
        false
    }
}

/// The call origin whose backing module must be checked, if any (see
/// [`call_origin`]). `resolved` holds the symbols of the first frames of
/// `context`, in order, and `hit_noise` says whether the walk stopped at a
/// start-up or shut-down symbol.
pub fn indirect_call_origin(
    context: &SyscallEventContext,
    resolved: &Vec<String>,
    hit_noise: bool,
) -> (r: Option<u64>)
    ensures
        r == call_origin(
            context.user_frames@,
            resolved@.map_values(|s: String| s@),
            hit_noise,
        ),
{
    if hit_noise || resolved.len() < 2 || context.user_frames.len() < 2 {
        return None;
    }
    if is_syscall_trampoline(resolved[0].as_str()) {
        Some(context.user_frames[1])
    } else {
        None
    }
}

/// Whether the module at a call origin may not call a syscall stub (see
/// [`origin_is_malicious`]).
pub fn is_malicious_origin(module: &Result<String, DetectionError>) -> (r: bool)
    ensures
        r == origin_is_malicious(lookup_view(*module)),
{
    match module {
        Ok(name) => {
            let lower = to_lowercase(name.as_str());
            let l = chars_of(lower.as_str());
            if ends_with(&l, &chars_of(".exe")) {
                true
            } else {
                let allowed = allowed_system_modules();
                let found = contains_any(&l, &allowed);
                assert(found == (exists|k: int|
                    0 <= k < indirect_allowed_modules().len() && has_infix(
                        lowercase(name@),
                        #[trigger] indirect_allowed_modules()[k],
                    ))) by {
                    if found {
                        let k = choose|k: int|
                            0 <= k < allowed@.len() && has_infix(l@, #[trigger] allowed@[k]@);
                        assert(allowed@[k]@ == indirect_allowed_modules()[k]);
                    }
                    if exists|k: int|
                        0 <= k < indirect_allowed_modules().len() && has_infix(
                            lowercase(name@),
                            #[trigger] indirect_allowed_modules()[k],
                        ) {
                        let k = choose|k: int|
                            0 <= k < indirect_allowed_modules().len() && has_infix(
                                lowercase(name@),
                                #[trigger] indirect_allowed_modules()[k],
                            );
                        assert(has_infix(l@, allowed@[k]@));
                    }
                }
                !found
            }
        },
        Err(_) => true,
    }
}

/// The alert that the indirect syscall detector raises, if any (see
/// [`indirect_syscall_verdict`]). `module` is the outcome of looking up the
/// module that backs `origin`.
pub fn indirect_syscall_alert(
    process_id: u32,
    trampoline: &String,
    origin: u64,
    module: &Result<String, DetectionError>,
) -> (alert: Option<SyscallAlert>)
    ensures
        match indirect_syscall_verdict(process_id, trampoline@, origin, lookup_view(*module)) {
            Some(v) => alert matches Some(a) && a@ == v,
            None => alert is None,
        },
{
    if !is_malicious_origin(module) {
        return None;
    }
    let backing = match module {
        Ok(name) => name.clone(),
        Err(_) => "UNBACKED / ANONYMOUS MEMORY".to_owned(),
    };
    let mut context: Vec<(&'static str, String)> = Vec::new();
    context.push(("Trampoline used in ntdll", trampoline.clone()));
    context.push(("Call Origin Address", format_address(origin)));
    context.push(("Origin Backing Module", backing));
    let alert = SyscallAlert {
        detector_name: "Indirect Syscall",
        process_id,
        primary_action: "Execution transitioned from an unauthorized memory region into an NT API trampoline".to_owned(),
        context,
    };
    assert(alert@ =~= indirect_syscall_verdict(process_id, trampoline@, origin, lookup_view(*module))->0);
    Some(alert)
}

/// A call origin in unbacked memory or in an executable always raises an
/// alert, whatever else its name contains; one in an allowed subsystem
/// module that is not an executable raises none.
pub proof fn lemma_indirect_verdict(process_id: u32, trampoline: Seq<char>, origin: u64, module: Option<Seq<char>>)
    ensures
        module is None ==> indirect_syscall_verdict(process_id, trampoline, origin, module) is Some,
        module matches Some(name) && has_suffix(lowercase(name), ".exe"@) ==> indirect_syscall_verdict(
            process_id,
            trampoline,
            origin,
            module,
        ) is Some,
        module matches Some(name) && !has_suffix(lowercase(name), ".exe"@) && has_infix(
            lowercase(name),
            "ntdll.dll"@,
        ) ==> indirect_syscall_verdict(process_id, trampoline, origin, module) is None,
{
    match module {
        Some(name) => {
            if has_infix(lowercase(name), "ntdll.dll"@) {
                assert(has_infix(lowercase(name), indirect_allowed_modules()[0]));
            }
        },
        None => {},
    }
}

/// The subsystem modules that may call a syscall stub are exactly ntdll,
/// kernelbase, kernel32, rpcrt4, combase, mswsock, sechost, advapi32,
/// win32u, wow64, wow64win, wow64cpu, ucrtbase, ws2_32, user32, crypt32,
/// bcrypt, appcore, windows.storage and themeservice: a call origin whose
/// backing module is not an executable and whose lower-cased name contains
/// one of their names raises no alert, and a backing module whose
/// lower-cased name contains none of them raises the alert, naming it.
pub proof fn lemma_indirect_allowed_modules_exactly(
    process_id: u32,
    trampoline: Seq<char>,
    origin: u64,
    name: Seq<char>,
)
    ensures
        !has_suffix(lowercase(name), ".exe"@) && ({
            let l = lowercase(name);
            has_infix(l, "ntdll.dll"@) || has_infix(l, "kernelbase.dll"@) ||
                has_infix(l, "kernel32.dll"@) || has_infix(l, "rpcrt4.dll"@) ||
                has_infix(l, "combase.dll"@) || has_infix(l, "mswsock.dll"@) ||
                has_infix(l, "sechost.dll"@) || has_infix(l, "advapi32.dll"@) ||
                has_infix(l, "win32u.dll"@) || has_infix(l, "wow64.dll"@) ||
                has_infix(l, "wow64win.dll"@) || has_infix(l, "wow64cpu.dll"@) ||
                has_infix(l, "ucrtbase.dll"@) || has_infix(l, "ws2_32.dll"@) ||
                has_infix(l, "user32.dll"@) || has_infix(l, "crypt32.dll"@) ||
                has_infix(l, "bcrypt.dll"@) || has_infix(l, "appcore.dll"@) ||
                has_infix(l, "windows.storage.dll"@) || has_infix(l, "themeservice.dll"@)
        }) ==> indirect_syscall_verdict(process_id, trampoline, origin, Some(name)) is None,
        !({
            let l = lowercase(name);
            has_infix(l, "ntdll.dll"@) || has_infix(l, "kernelbase.dll"@) ||
                has_infix(l, "kernel32.dll"@) || has_infix(l, "rpcrt4.dll"@) ||
                has_infix(l, "combase.dll"@) || has_infix(l, "mswsock.dll"@) ||
                has_infix(l, "sechost.dll"@) || has_infix(l, "advapi32.dll"@) ||
                has_infix(l, "win32u.dll"@) || has_infix(l, "wow64.dll"@) ||
                has_infix(l, "wow64win.dll"@) || has_infix(l, "wow64cpu.dll"@) ||
                has_infix(l, "ucrtbase.dll"@) || has_infix(l, "ws2_32.dll"@) ||
                has_infix(l, "user32.dll"@) || has_infix(l, "crypt32.dll"@) ||
                has_infix(l, "bcrypt.dll"@) || has_infix(l, "appcore.dll"@) ||
                has_infix(l, "windows.storage.dll"@) || has_infix(l, "themeservice.dll"@)
        }) ==> (indirect_syscall_verdict(process_id, trampoline, origin, Some(name)) matches Some(a)
            && a.process_id == process_id && a.detector_name == "Indirect Syscall"@
            && a.context[2] == ("Origin Backing Module"@, name)),
{
    let l = lowercase(name);
    let m = indirect_allowed_modules();
    assert(m[0] == "ntdll.dll"@);
    assert(m[1] == "kernelbase.dll"@);
    assert(m[2] == "kernel32.dll"@);
    assert(m[3] == "rpcrt4.dll"@);
    assert(m[4] == "combase.dll"@);
    assert(m[5] == "mswsock.dll"@);
    assert(m[6] == "sechost.dll"@);
    assert(m[7] == "advapi32.dll"@);
    assert(m[8] == "win32u.dll"@);
    assert(m[9] == "wow64.dll"@);
    assert(m[10] == "wow64win.dll"@);
    assert(m[11] == "wow64cpu.dll"@);
    assert(m[12] == "ucrtbase.dll"@);
    assert(m[13] == "ws2_32.dll"@);
    assert(m[14] == "user32.dll"@);
    assert(m[15] == "crypt32.dll"@);
    assert(m[16] == "bcrypt.dll"@);
    assert(m[17] == "appcore.dll"@);
    assert(m[18] == "windows.storage.dll"@);
    assert(m[19] == "themeservice.dll"@);
    assert forall|k: int| 0 <= k < m.len() && has_infix(l, #[trigger] m[k]) implies ({
            has_infix(l, "ntdll.dll"@) || has_infix(l, "kernelbase.dll"@) ||
                has_infix(l, "kernel32.dll"@) || has_infix(l, "rpcrt4.dll"@) ||
                has_infix(l, "combase.dll"@) || has_infix(l, "mswsock.dll"@) ||
                has_infix(l, "sechost.dll"@) || has_infix(l, "advapi32.dll"@) ||
                has_infix(l, "win32u.dll"@) || has_infix(l, "wow64.dll"@) ||
                has_infix(l, "wow64win.dll"@) || has_infix(l, "wow64cpu.dll"@) ||
                has_infix(l, "ucrtbase.dll"@) || has_infix(l, "ws2_32.dll"@) ||
                has_infix(l, "user32.dll"@) || has_infix(l, "crypt32.dll"@) ||
                has_infix(l, "bcrypt.dll"@) || has_infix(l, "appcore.dll"@) ||
                has_infix(l, "windows.storage.dll"@) || has_infix(l, "themeservice.dll"@)
    }) by {
        assert(k == 0 || k == 1 || k == 2 || k == 3 || k == 4 || k == 5 || k == 6 || k == 7 || k == 8 || k == 9 || k == 10 || k == 11 || k == 12 || k == 13 || k == 14 || k == 15 || k == 16 || k == 17 || k == 18 || k == 19);
    }
}

/// Only the three start-up and shut-down routines stop a stack walk: a
/// symbol is noise if its lower-cased name contains `ldrinitializethunk`,
/// `ldrshutdownprocess` or `rtlexituserprocess`, and a symbol whose
/// lower-cased name contains none of these full names (such as a thread's
/// own start routine) is not noise, so the walk goes on past it.
pub proof fn lemma_noise_exactly(symbol: Seq<char>)
    ensures
        has_infix(lowercase(symbol), "ldrinitializethunk"@) ==> is_noise(symbol),
        has_infix(lowercase(symbol), "ldrshutdownprocess"@) ==> is_noise(symbol),
        has_infix(lowercase(symbol), "rtlexituserprocess"@) ==> is_noise(symbol),
        !has_infix(lowercase(symbol), "ldrinitializethunk"@) && !has_infix(
            lowercase(symbol),
            "ldrshutdownprocess"@,
        ) && !has_infix(lowercase(symbol), "rtlexituserprocess"@) ==> !is_noise(symbol),
{
}

/// The syscall stubs are the NT API entry points: a symbol whose lower-cased
/// name begins with `nt` or `zw` is a stub, and no other symbol is.
pub proof fn lemma_trampoline_exactly(symbol: Seq<char>)
    ensures
        has_prefix(lowercase(symbol), "nt"@) ==> is_trampoline(symbol),
        has_prefix(lowercase(symbol), "zw"@) ==> is_trampoline(symbol),
        !has_prefix(lowercase(symbol), "nt"@) && !has_prefix(lowercase(symbol), "zw"@)
            ==> !is_trampoline(symbol),
{
}

/// No call origin is checked for a walk that met a start-up or shut-down
/// symbol, or whose top frame is not a syscall stub.
pub proof fn lemma_call_origin(frames: Seq<u64>, resolved: Seq<Seq<char>>, hit_noise: bool)
    ensures
        hit_noise ==> call_origin(frames, resolved, hit_noise) is None,
        resolved.len() > 0 && !is_trampoline(resolved[0]) ==> call_origin(frames, resolved, hit_noise) is None,
        call_origin(frames, resolved, hit_noise) matches Some(o) ==> frames.len() >= 2 && o == frames[1],
{
}

} // verus!
