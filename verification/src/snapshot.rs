//! A point-in-time snapshot of the OS process table and CPU capacity,
//! as plain values. Each engine operation works on one freshly taken
//! snapshot; nothing persists between calls.

use vstd::prelude::*;

verus! {

/// One live process, as sampled: OS-assigned id, the parent's id if the
/// process has one, a best-effort display name, the raw CPU reading and
/// the resident memory in bytes.
#[derive(Clone, Debug)]
pub struct ProcessRecord {
    pub id: u32,
    pub parent: Option<u32>,
    pub name: String,
    pub cpu_raw: u64,
    pub memory_bytes: u64,
}

/// The mathematical view of a [`ProcessRecord`].
pub ghost struct RecordModel {
    pub id: u32,
    pub parent: Option<u32>,
    pub name: Seq<char>,
    pub cpu_raw: u64,
    pub memory_bytes: u64,
}

impl View for ProcessRecord {
    type V = RecordModel;

    open spec fn view(&self) -> RecordModel {
        RecordModel {
            id: self.id,
            parent: self.parent,
            name: self.name@,
            cpu_raw: self.cpu_raw,
            memory_bytes: self.memory_bytes,
        }
    }
}

/// A full snapshot: the flat process list and the total CPU capacity
/// observed in the same sampling window (the sum of the logical CPUs'
/// usage readings, in the same unit as each record's `cpu_raw`).
#[derive(Clone, Debug)]
pub struct Snapshot {
    pub processes: Vec<ProcessRecord>,
    pub total_cpu_capacity: u64,
}

/// The mathematical view of a [`Snapshot`].
pub ghost struct SnapshotModel {
    pub procs: Seq<RecordModel>,
    pub capacity: u64,
}

impl View for Snapshot {
    type V = SnapshotModel;

    open spec fn view(&self) -> SnapshotModel {
        SnapshotModel {
            procs: self.processes@.map_values(|r: ProcessRecord| r@),
            capacity: self.total_cpu_capacity,
        }
    }
}

impl SnapshotModel {
    /// Whether `pid` resolves to a live process in this snapshot.
    pub open spec fn has_pid(self, pid: u32) -> bool {
        exists|i: int| 0 <= i < self.procs.len() && self.procs[i].id == pid
    }

    /// Whether some process in this snapshot lists `pid` as its parent.
    pub open spec fn has_child_of(self, pid: u32) -> bool {
        exists|j: int| 0 <= j < self.procs.len() && self.procs[j].parent == Some(pid)
    }

    /// A snapshot is well formed when process ids are pairwise distinct,
    /// as an OS process table keyed by id guarantees.
    pub open spec fn wf(self) -> bool {
        forall|i: int, j: int|
            0 <= i < j < self.procs.len() ==> self.procs[i].id != self.procs[j].id
    }
}

} // verus!
