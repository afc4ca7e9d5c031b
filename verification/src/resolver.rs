//! Best-effort resolution of a process identifier to a display name via the
//! host process table, with a fixed placeholder for processes that are
//! already gone.

use vstd::prelude::*;

verus! {

/// The display name owed for a process-table answer: the found name, or the
/// fixed placeholder when the lookup missed.
pub open spec fn spec_display_name(found: Option<String>) -> Seq<char> {
    match found {
        Some(n) => n@,
        None => "Unknown"@,
    }
}

/// Relies on sysinfo: `System::refresh_processes` takes a point-in-time
/// snapshot of the host process table, `System::process` looks the
/// identifier up in it, and `Process::name` is that process's name.  The
/// result depends on the live process table, so nothing is promised of it.
#[verifier::external_body]
fn lookup_process_name(pid: u64) -> Option<String> {
    let mut system = sysinfo::System::new();
    system.refresh_processes(sysinfo::ProcessesToUpdate::All, true);
    match u32::try_from(pid) {
        Ok(p) => system.process(sysinfo::Pid::from_u32(p)).map(
            |pr| pr.name().to_string_lossy().into_owned(),
        ),
        Err(_) => None,
    }
}

/// Turn a process-table answer into the display name to record: a found
/// name passes through unchanged, a miss becomes `"Unknown"`.
pub fn display_name(found: Option<String>) -> (r: String)
    ensures
        r@ == spec_display_name(found),
{
    match found {
        Some(n) => n,
        None => "Unknown".to_owned(),
    }
}

/// Best-effort display name for `pid`, from a point-in-time snapshot of the
/// host process table.  A miss (the process exited between signal delivery
/// and lookup) is expected, not an error, and yields the placeholder.  The
/// answer depends on the live process table, so no value is promised;
/// everything downstream is verified for every name this may return.
pub fn resolve(pid: u64) -> String {
    display_name(lookup_process_name(pid))
}

} // verus!
