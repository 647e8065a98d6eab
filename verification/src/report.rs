//! Exit codes and machine-readable payloads of the command-line front end.

use vstd::prelude::*;
use crate::port::{memory_text, PortInfo};
use crate::text::{decimal, push_decimal, push_str, string_from};

verus! {

/// Success: `list`, `scan`, `kill`, `find` found, `check` available.
pub const EXIT_OK: i32 = 0;

/// Command or runtime error.
pub const EXIT_ERROR: i32 = 1;

/// `check` found the port in use.
pub const EXIT_CHECK_IN_USE: i32 = 2;

/// `find` did not find an active owner for the port.
pub const EXIT_FIND_NOT_FOUND: i32 = 3;

/// Exit code of `find`: success when an owner was found.
pub fn exit_code_for_find(found: bool) -> (code: i32)
    ensures
        code == (if found { EXIT_OK } else { EXIT_FIND_NOT_FOUND }),
{
    if found {
        EXIT_OK
    } else {
        EXIT_FIND_NOT_FOUND
    }
}

/// Exit code of `check`: success when the port is available.
pub fn exit_code_for_check(available: bool) -> (code: i32)
    ensures
        code == (if available { EXIT_OK } else { EXIT_CHECK_IN_USE }),
{
    if available {
        EXIT_OK
    } else {
        EXIT_CHECK_IN_USE
    }
}

} // verus!

verus! {

/// The machine-readable form of one port entry.
pub struct PortEntry {
    pub port: u16,
    pub protocol: String,
    pub state: String,
    pub pid: Option<u32>,
    pub process_name: String,
    pub local_addr: String,
    pub duration_secs: u64,
    /// Bit pattern of the CPU usage (`f32::to_bits`).
    pub cpu_usage_bits: u32,
    pub memory: u64,
    /// The memory as `PortInfo::format_memory` shows it.
    pub memory_human: String,
    pub user: String,
    pub command: String,
    pub parent_pid: Option<u32>,
}

/// The answer of `find --json`.
pub struct FindPayload {
    pub port: u16,
    pub in_use: bool,
    pub entry: Option<PortEntry>,
}

/// The answer of `check --json`.
pub struct CheckPayload {
    pub port: u16,
    pub available: bool,
    pub in_use: bool,
}

/// `e` holds the fields of `info`, and its memory in words.
pub open spec fn is_entry_of(e: PortEntry, info: PortInfo) -> bool {
    &&& e.port == info.port
    &&& e.protocol@ == info.protocol@
    &&& e.state@ == info.state@
    &&& e.pid == info.pid
    &&& e.process_name@ == info.process_name@
    &&& e.local_addr@ == info.local_addr@
    &&& e.duration_secs == info.duration_secs
    &&& e.cpu_usage_bits == info.cpu_usage_bits
    &&& e.memory == info.memory
    &&& e.memory_human@ == memory_text(info.memory as nat)
    &&& e.user@ == info.user@
    &&& e.command@ == info.command@
    &&& e.parent_pid == info.parent_pid
}

/// The machine-readable form of an entry.
pub fn port_info_json(info: &PortInfo) -> (e: PortEntry)
    ensures
        is_entry_of(e, *info),
{
    PortEntry {
        port: info.port,
        protocol: info.protocol.clone(),
        state: info.state.clone(),
        pid: info.pid,
        process_name: info.process_name.clone(),
        local_addr: info.local_addr.clone(),
        duration_secs: info.duration_secs,
        cpu_usage_bits: info.cpu_usage_bits,
        memory: info.memory,
        memory_human: info.format_memory(),
        user: info.user.clone(),
        command: info.command.clone(),
        parent_pid: info.parent_pid,
    }
}

/// The answer of `find --json`: in use exactly when an entry was found, and
/// then with that entry.
pub fn find_json_payload(port: u16, info: Option<&PortInfo>) -> (p: FindPayload)
    ensures
        p.port == port,
        p.in_use == info is Some,
        p.entry is Some == info is Some,
        info matches Some(i) ==> is_entry_of(p.entry.unwrap(), *i),
{
    match info {
        Some(i) => FindPayload { port, in_use: true, entry: Some(port_info_json(i)) },
        None => FindPayload { port, in_use: false, entry: None },
    }
}

/// The answer of `check --json`: in use exactly when not available.
pub fn check_json_payload(port: u16, available: bool) -> (p: CheckPayload)
    ensures
        p.port == port,
        p.available == available,
        p.in_use == !available,
{
    CheckPayload { port, available, in_use: !available }
}

/// What `check` says of a port.
pub fn check_message(port: u16, available: bool) -> (m: String)
    ensures
        m@ == "Port "@ + decimal(port as nat) + (if available {
            " is available"@
        } else {
            " is in use"@
        }),
{
    let mut m = string_from("Port ");
    push_decimal(&mut m, port as u128);
    if available {
        push_str(&mut m, " is available");
    } else {
        push_str(&mut m, " is in use");
    }
    m
}

/// What `find` says of a port that no process owns.
pub fn not_in_use_message(port: u16) -> (m: String)
    ensures
        m@ == "Port "@ + decimal(port as nat) + " is not in use"@,
{
    let mut m = string_from("Port ");
    push_decimal(&mut m, port as u128);
    push_str(&mut m, " is not in use");
    m
}

} // verus!
