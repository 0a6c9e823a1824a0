//! Kill-target resolution and failure reporting.
//!
//! The engine resolves the target against a fresh snapshot and states
//! exactly when each failure is reported; the OS-level termination call
//! itself happens outside the engine, and its boolean outcome is mapped
//! back through [`kill_outcome`].

use vstd::prelude::*;
use vstd::string::StringExecFns;

use crate::numfmt::dec_rep;
use crate::numfmt::u32_dec_string;
use crate::snapshot::Snapshot;

verus! {

/// Why a kill request failed: the pid did not resolve to a live process
/// in the fresh snapshot, or the OS refused or failed the termination.
/// Each variant carries the offending pid for display.
#[derive(Clone, Copy, Debug, PartialEq, Eq, Structural)]
pub enum KillError {
    NotFound(u32),
    KillFailed(u32),
}

/// The exact display message of a kill failure.
pub open spec fn kill_error_message(e: KillError) -> Seq<char> {
    match e {
        KillError::NotFound(pid) => "Process "@ + dec_rep(pid as nat) + " not found"@,
        KillError::KillFailed(pid) => "Failed to kill process "@ + dec_rep(pid as nat),
    }
}

impl KillError {
    /// The human-readable message carrying the offending pid.
    pub fn message(&self) -> (s: String)
        ensures
            s@ == kill_error_message(*self),
    {
        match self {
            KillError::NotFound(pid) => {
                let mut s = "Process ".to_owned();
                let digits = u32_dec_string(*pid);
                s.append(digits.as_str());
                s.append(" not found");
                s
            },
            KillError::KillFailed(pid) => {
                let mut s = "Failed to kill process ".to_owned();
                let digits = u32_dec_string(*pid);
                s.append(digits.as_str());
                s
            },
        }
    }
}

/// Resolve `pid` against a fresh snapshot: `Ok` exactly when the pid is
/// a live process there, `Err(NotFound(pid))` otherwise.
pub fn check_kill_target(snapshot: &Snapshot, pid: u32) -> (r: Result<(), KillError>)
    ensures
        r is Ok <==> snapshot@.has_pid(pid),
        r matches Err(e) ==> e == KillError::NotFound(pid),
{
    let n = snapshot.processes.len();
    let mut i: usize = 0;
    let mut found = false;
    while i < n
        invariant
            n == snapshot.processes.len(),
            0 <= i <= n,
            found <==> exists|k: int| 0 <= k < i && snapshot@.procs[k].id == pid,
        decreases n - i,
    {
        proof {
            assert(snapshot@.procs[i as int] == snapshot.processes@[i as int]@);
        }
        if snapshot.processes[i].id == pid {
            found = true;
        }
        i += 1;
    }
    if found {
        Ok(())
    } else {
        Err(KillError::NotFound(pid))
    }
}

/// Map the outcome of the OS termination primitive: `Ok` when the OS
/// reported success, `Err(KillFailed(pid))` when it refused or failed.
pub fn kill_outcome(pid: u32, os_reported_success: bool) -> (r: Result<(), KillError>)
    ensures
        r is Ok <==> os_reported_success,
        r matches Err(e) ==> e == KillError::KillFailed(pid),
{
    if os_reported_success {
        Ok(())
    } else {
        Err(KillError::KillFailed(pid))
    }
}

} // verus!
