//! The grouping engine: partitions a snapshot's flat process list into
//! parent-keyed groups, drops groups whose parent id does not resolve
//! to a live process, and normalizes every metric.
//!
//! The model is intentionally flat: a group holds a parent and its
//! direct children only. A grandchild appears solely under its own
//! parent; that parent may itself appear as a child in a higher group.

use vstd::prelude::*;

use crate::rounding::cpu_share_spec;
use crate::rounding::mem_hundredths_spec;
use crate::rounding::normalize_cpu;
use crate::rounding::normalize_memory;
use crate::snapshot::RecordModel;
use crate::snapshot::Snapshot;
use crate::snapshot::SnapshotModel;

verus! {

/// One child process of a group, with normalized metrics: CPU in
/// hundredths of a percent, memory in hundredths of a megabyte.
#[derive(Clone, Debug)]
pub struct ProcessItem {
    pub id: u32,
    pub name: String,
    pub cpu_usage: u64,
    pub memory_usage: u64,
}

/// The mathematical view of a [`ProcessItem`].
pub ghost struct ItemModel {
    pub id: u32,
    pub name: Seq<char>,
    pub cpu_usage: int,
    pub memory_usage: int,
}

impl View for ProcessItem {
    type V = ItemModel;

    open spec fn view(&self) -> ItemModel {
        ItemModel {
            id: self.id,
            name: self.name@,
            cpu_usage: self.cpu_usage as int,
            memory_usage: self.memory_usage as int,
        }
    }
}

/// One emitted group: a resolved parent process, its own normalized
/// metrics, its direct children, and totals summed over the children's
/// already-normalized metrics.
#[derive(Clone, Debug)]
pub struct ProcessGroup {
    pub id: u32,
    pub name: String,
    pub cpu_usage: u64,
    pub memory_usage: u64,
    pub children: Vec<ProcessItem>,
    pub total_cpu: u64,
    pub total_memory: u64,
}

/// The mathematical view of a [`ProcessGroup`].
pub ghost struct GroupModel {
    pub id: u32,
    pub name: Seq<char>,
    pub cpu_usage: int,
    pub memory_usage: int,
    pub children: Seq<ItemModel>,
    pub total_cpu: int,
    pub total_memory: int,
}

impl View for ProcessGroup {
    type V = GroupModel;

    open spec fn view(&self) -> GroupModel {
        GroupModel {
            id: self.id,
            name: self.name@,
            cpu_usage: self.cpu_usage as int,
            memory_usage: self.memory_usage as int,
            children: self.children@.map_values(|it: ProcessItem| it@),
            total_cpu: self.total_cpu as int,
            total_memory: self.total_memory as int,
        }
    }
}

/// The item a record becomes once its metrics are normalized against
/// the snapshot's total CPU capacity.
pub open spec fn item_of(r: RecordModel, capacity: int) -> ItemModel {
    ItemModel {
        id: r.id,
        name: r.name,
        cpu_usage: cpu_share_spec(r.cpu_raw as int, capacity),
        memory_usage: mem_hundredths_spec(r.memory_bytes as int),
    }
}

/// The children of `pid` among the first `n` records, in record order,
/// already normalized.
pub open spec fn child_items_upto(s: SnapshotModel, pid: u32, n: int) -> Seq<ItemModel>
    decreases n,
{
    if n <= 0 {
        Seq::empty()
    } else {
        let prev = child_items_upto(s, pid, n - 1);
        if s.procs[n - 1].parent == Some(pid) {
            prev.push(item_of(s.procs[n - 1], s.capacity as int))
        } else {
            prev
        }
    }
}

/// All children of `pid` in the snapshot, in record order.
pub open spec fn child_items(s: SnapshotModel, pid: u32) -> Seq<ItemModel> {
    child_items_upto(s, pid, s.procs.len() as int)
}

/// The exact sum of the children's already-rounded CPU shares.
pub open spec fn sum_cpu(items: Seq<ItemModel>) -> int
    decreases items.len(),
{
    if items.len() == 0 {
        0
    } else {
        sum_cpu(items.drop_last()) + items.last().cpu_usage
    }
}

/// The exact sum of the children's already-rounded memory figures.
pub open spec fn sum_mem(items: Seq<ItemModel>) -> int
    decreases items.len(),
{
    if items.len() == 0 {
        0
    } else {
        sum_mem(items.drop_last()) + items.last().memory_usage
    }
}

/// The group built around the record at index `i`, taken as the parent.
pub open spec fn group_of(s: SnapshotModel, i: int) -> GroupModel {
    let r = s.procs[i];
    let kids = child_items(s, r.id);
    GroupModel {
        id: r.id,
        name: r.name,
        cpu_usage: cpu_share_spec(r.cpu_raw as int, s.capacity as int),
        memory_usage: mem_hundredths_spec(r.memory_bytes as int),
        children: kids,
        total_cpu: crate::rounding::degrade_to_zero(sum_cpu(kids)),
        total_memory: crate::rounding::degrade_to_zero(sum_mem(kids)),
    }
}

/// The groups contributed by the first `n` records: one group per
/// record that some process lists as its parent, in record order.
pub open spec fn groups_upto(s: SnapshotModel, n: int) -> Seq<GroupModel>
    decreases n,
{
    if n <= 0 {
        Seq::empty()
    } else {
        let prev = groups_upto(s, n - 1);
        if s.has_child_of(s.procs[n - 1].id) {
            prev.push(group_of(s, n - 1))
        } else {
            prev
        }
    }
}

/// Every group the snapshot yields: exactly the records that are listed
/// as a parent by at least one process, each with its direct children.
pub open spec fn groups_spec(s: SnapshotModel) -> Seq<GroupModel> {
    groups_upto(s, s.procs.len() as int)
}

/// The views of a vector of emitted items.
pub open spec fn items_view(items: Seq<ProcessItem>) -> Seq<ItemModel> {
    items.map_values(|it: ProcessItem| it@)
}

/// The views of a vector of emitted groups.
pub open spec fn groups_view(gs: Seq<ProcessGroup>) -> Seq<GroupModel> {
    gs.map_values(|g: ProcessGroup| g@)
}

/// Whether some process in the snapshot lists `pid` as its parent.
fn has_child_of(snapshot: &Snapshot, pid: u32) -> (b: bool)
    ensures
        b == snapshot@.has_child_of(pid),
{
    let n = snapshot.processes.len();
    let mut j: usize = 0;
    let mut found = false;
    while j < n
        invariant
            n == snapshot.processes.len(),
            0 <= j <= n,
            found <==> exists|j2: int|
                0 <= j2 < j && snapshot@.procs[j2].parent == Some(pid),
        decreases n - j,
    {
        proof {
            assert(snapshot@.procs[j as int] == snapshot.processes@[j as int]@);
        }
        match snapshot.processes[j].parent {
            Some(p) => {
                if p == pid {
                    found = true;
                }
            },
            None => {},
        }
        j += 1;
    }
    found
}

/// Extending a prefix sum by one item adds exactly that item's metrics.
proof fn lemma_sum_take_step(items: Seq<ItemModel>, k: int)
    requires
        0 <= k < items.len(),
    ensures
        sum_cpu(items.take(k + 1)) == sum_cpu(items.take(k)) + items[k].cpu_usage,
        sum_mem(items.take(k + 1)) == sum_mem(items.take(k)) + items[k].memory_usage,
{
    assert(items.take(k + 1).drop_last() =~= items.take(k));
    assert(items.take(k + 1).last() == items[k]);
}

/// The children of `pid` in the snapshot, in record order, with their
/// metrics normalized against the snapshot's total CPU capacity.
fn collect_children(snapshot: &Snapshot, pid: u32) -> (items: Vec<ProcessItem>)
    ensures
        items_view(items@) == child_items(snapshot@, pid),
{
    let n = snapshot.processes.len();
    let mut items: Vec<ProcessItem> = Vec::new();
    let mut j: usize = 0;
    while j < n
        invariant
            n == snapshot.processes.len(),
            0 <= j <= n,
            items_view(items@) == child_items_upto(snapshot@, pid, j as int),
        decreases n - j,
    {
        proof {
            assert(snapshot@.procs[j as int] == snapshot.processes@[j as int]@);
        }
        let rec = &snapshot.processes[j];
        let is_child = match rec.parent {
            Some(p) => p == pid,
            None => false,
        };
        if is_child {
            let item = ProcessItem {
                id: rec.id,
                name: rec.name.clone(),
                cpu_usage: normalize_cpu(rec.cpu_raw, snapshot.total_cpu_capacity),
                memory_usage: normalize_memory(rec.memory_bytes),
            };
            proof {
                assert(item@ == item_of(snapshot@.procs[j as int], snapshot@.capacity as int));
            }
            items.push(item);
        }
        proof {
            assert(items_view(items@) =~= child_items_upto(snapshot@, pid, j as int + 1));
        }
        j += 1;
    }
    items
}

/// The group built around the parent record at index `i`: the parent's
/// own normalized metrics, its direct children, and totals summed over
/// the children's already-normalized metrics. An unrepresentable total
/// degrades to 0.
fn build_group(snapshot: &Snapshot, i: usize) -> (g: ProcessGroup)
    requires
        i < snapshot.processes.len(),
    ensures
        g@ == group_of(snapshot@, i as int),
{
    proof {
        assert(snapshot@.procs[i as int] == snapshot.processes@[i as int]@);
    }
    let parent = &snapshot.processes[i];
    let children = collect_children(snapshot, parent.id);
    let ghost kids = child_items(snapshot@, parent.id);
    let m = children.len();
    let mut acc_cpu: u128 = 0;
    let mut acc_mem: u128 = 0;
    let mut k: usize = 0;
    while k < m
        invariant
            m == children.len(),
            0 <= k <= m,
            items_view(children@) == kids,
            acc_cpu == sum_cpu(kids.take(k as int)),
            acc_mem == sum_mem(kids.take(k as int)),
            acc_cpu <= (k as u128) * (u64::MAX as u128),
            acc_mem <= (k as u128) * (u64::MAX as u128),
        decreases m - k,
    {
        proof {
            lemma_sum_take_step(kids, k as int);
            assert(kids[k as int] == children@[k as int]@);
        }
        acc_cpu = acc_cpu + children[k].cpu_usage as u128;
        acc_mem = acc_mem + children[k].memory_usage as u128;
        k += 1;
    }
    proof {
        assert(kids.take(m as int) =~= kids);
    }
    let total_cpu: u64 = if acc_cpu <= u64::MAX as u128 {
        acc_cpu as u64
    } else {
        0
    };
    let total_memory: u64 = if acc_mem <= u64::MAX as u128 {
        acc_mem as u64
    } else {
        0
    };
    let g = ProcessGroup {
        id: parent.id,
        name: parent.name.clone(),
        cpu_usage: normalize_cpu(parent.cpu_raw, snapshot.total_cpu_capacity),
        memory_usage: normalize_memory(parent.memory_bytes),
        children,
        total_cpu,
        total_memory,
    };
    proof {
        assert(g@ == group_of(snapshot@, i as int));
    }
    g
}

/// Partition the snapshot into parent-keyed groups.
///
/// A record becomes a group exactly when at least one process in the
/// same snapshot lists it as its parent; its group carries its direct
/// children in record order. A parent id that resolves to no live
/// process yields no group (its bucket is silently dropped), and a
/// record with no parent contributes to no bucket at all. The result is
/// a pure function of the snapshot; it never fails, and an empty list
/// means no resolvable groups.
pub fn get_processes(snapshot: &Snapshot) -> (out: Vec<ProcessGroup>)
    ensures
        groups_view(out@) == groups_spec(snapshot@),
{
    let n = snapshot.processes.len();
    let mut out: Vec<ProcessGroup> = Vec::new();
    let mut i: usize = 0;
    while i < n
        invariant
            n == snapshot.processes.len(),
            0 <= i <= n,
            groups_view(out@) == groups_upto(snapshot@, i as int),
        decreases n - i,
    {
        proof {
            assert(snapshot@.procs[i as int] == snapshot.processes@[i as int]@);
        }
        let pid = snapshot.processes[i].id;
        if has_child_of(snapshot, pid) {
            let g = build_group(snapshot, i);
            out.push(g);
        }
        proof {
            assert(groups_view(out@) =~= groups_upto(snapshot@, i as int + 1));
        }
        i += 1;
    }
    out
}

} // verus!
