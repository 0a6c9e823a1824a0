//! Engine-wide laws, each proved of every snapshot.

use vstd::prelude::*;

use crate::groups::GroupModel;
use crate::groups::ItemModel;
use crate::groups::child_items_upto;
use crate::groups::group_of;
use crate::groups::groups_spec;
use crate::groups::groups_upto;
use crate::groups::sum_cpu;
use crate::groups::sum_mem;
use crate::rounding::degrade_to_zero;
use crate::rounding::lemma_cpu_share_in_range;
use crate::snapshot::SnapshotModel;

verus! {

/// Every group in `groups_upto(s, n)` is built, as by `group_of`, from
/// a record among the first `n` that some process lists as its parent.
proof fn lemma_groups_upto_membership(s: SnapshotModel, n: int, k: int)
    requires
        0 <= n <= s.procs.len(),
        0 <= k < groups_upto(s, n).len(),
    ensures
        exists|i: int|
            0 <= i < n && s.procs[i].id == groups_upto(s, n)[k].id && s.has_child_of(
                s.procs[i].id,
            ) && groups_upto(s, n)[k] == group_of(s, i),
    decreases n,
{
    let prev = groups_upto(s, n - 1);
    if s.has_child_of(s.procs[n - 1].id) && k == prev.len() {
        assert(groups_upto(s, n)[k] == group_of(s, n - 1));
        assert(0 <= n - 1 < n && s.procs[n - 1].id == groups_upto(s, n)[k].id
            && s.has_child_of(s.procs[n - 1].id) && groups_upto(s, n)[k] == group_of(s, n - 1));
    } else {
        lemma_groups_upto_membership(s, n - 1, k);
        let i = choose|i: int|
            0 <= i < n - 1 && s.procs[i].id == prev[k].id && s.has_child_of(s.procs[i].id)
                && prev[k] == group_of(s, i);
        assert(groups_upto(s, n)[k] == prev[k]);
        assert(0 <= i < n && s.procs[i].id == groups_upto(s, n)[k].id && s.has_child_of(
            s.procs[i].id,
        ) && groups_upto(s, n)[k] == group_of(s, i));
    }
}

/// Every emitted group's id resolves to a process present in the same
/// snapshot, and is listed as the parent of at least one process there.
/// In particular a process with no parent never gives rise to a group
/// by itself: a group key only ever arises from an actual `Some(pid)`
/// parent reference made by some process in the snapshot.
pub proof fn lemma_group_id_resolves(s: SnapshotModel, k: int)
    requires
        0 <= k < groups_spec(s).len(),
    ensures
        s.has_pid(groups_spec(s)[k].id),
        s.has_child_of(groups_spec(s)[k].id),
{
    lemma_groups_upto_membership(s, s.procs.len() as int, k);
}

/// In a well-formed snapshot (pairwise-distinct process ids) the
/// emitted group keys are pairwise distinct as well: one group per
/// known parent, never two.
pub proof fn lemma_group_keys_distinct(s: SnapshotModel)
    requires
        s.wf(),
    ensures
        forall|k1: int, k2: int|
            0 <= k1 < k2 < groups_spec(s).len() ==> groups_spec(s)[k1].id != groups_spec(s)[k2].id,
{
    lemma_groups_upto_distinct(s, s.procs.len() as int);
}

/// Distinct record ids give distinct group keys, prefix by prefix.
proof fn lemma_groups_upto_distinct(s: SnapshotModel, n: int)
    requires
        s.wf(),
        0 <= n <= s.procs.len(),
    ensures
        forall|k1: int, k2: int|
            0 <= k1 < k2 < groups_upto(s, n).len() ==> groups_upto(s, n)[k1].id != groups_upto(
                s,
                n,
            )[k2].id,
    decreases n,
{
    if n > 0 {
        lemma_groups_upto_distinct(s, n - 1);
        let prev = groups_upto(s, n - 1);
        let cur = groups_upto(s, n);
        assert forall|k1: int, k2: int|
            0 <= k1 < k2 < cur.len() implies cur[k1].id != cur[k2].id by {
            if k2 < prev.len() {
                assert(cur[k1] == prev[k1] && cur[k2] == prev[k2]);
            } else if k2 == prev.len() {
                assert(cur[k1] == prev[k1]);
                assert(cur[k2] == group_of(s, n - 1));
                lemma_groups_upto_membership(s, n - 1, k1);
                let i = choose|i: int|
                    0 <= i < n - 1 && s.procs[i].id == prev[k1].id && s.has_child_of(
                        s.procs[i].id,
                    ) && prev[k1] == group_of(s, i);
                assert(s.procs[i].id != s.procs[n - 1].id);
            }
        }
    }
}

/// All metrics of the items of `child_items_upto` are non-negative.
proof fn lemma_child_items_nonneg(s: SnapshotModel, pid: u32, n: int)
    ensures
        forall|m: int|
            0 <= m < child_items_upto(s, pid, n).len() ==> child_items_upto(s, pid, n)[m].cpu_usage
                >= 0 && child_items_upto(s, pid, n)[m].memory_usage >= 0,
    decreases n,
{
    if n > 0 {
        lemma_child_items_nonneg(s, pid, n - 1);
        let prev = child_items_upto(s, pid, n - 1);
        let cur = child_items_upto(s, pid, n);
        assert forall|m: int|
            0 <= m < cur.len() implies cur[m].cpu_usage >= 0 && cur[m].memory_usage >= 0 by {
            if m < prev.len() {
                assert(cur[m] == prev[m]);
            }
        }
    }
}

/// A sum of items with non-negative metrics is non-negative.
proof fn lemma_sum_nonneg(items: Seq<ItemModel>)
    requires
        forall|m: int|
            0 <= m < items.len() ==> items[m].cpu_usage >= 0 && items[m].memory_usage >= 0,
    ensures
        sum_cpu(items) >= 0,
        sum_mem(items) >= 0,
    decreases items.len(),
{
    if items.len() > 0 {
        lemma_sum_nonneg(items.drop_last());
    }
}

/// A group's totals are the exact sums of its children's
/// already-rounded metrics — the sum of the rounded values, not a
/// re-rounding of raw sums — whenever those sums are representable
/// (an unrepresentable sum degrades to 0).
pub proof fn lemma_group_totals_are_sums(s: SnapshotModel, k: int)
    requires
        0 <= k < groups_spec(s).len(),
    ensures
        groups_spec(s)[k].total_cpu == degrade_to_zero(sum_cpu(groups_spec(s)[k].children)),
        groups_spec(s)[k].total_memory == degrade_to_zero(sum_mem(groups_spec(s)[k].children)),
        sum_cpu(groups_spec(s)[k].children) <= u64::MAX ==> groups_spec(s)[k].total_cpu == sum_cpu(
            groups_spec(s)[k].children,
        ),
        sum_mem(groups_spec(s)[k].children) <= u64::MAX ==> groups_spec(s)[k].total_memory
            == sum_mem(groups_spec(s)[k].children),
{
    lemma_groups_upto_membership(s, s.procs.len() as int, k);
    let i = choose|i: int|
        0 <= i < s.procs.len() && s.procs[i].id == groups_spec(s)[k].id && s.has_child_of(
            s.procs[i].id,
        ) && groups_spec(s)[k] == group_of(s, i);
    lemma_child_items_nonneg(s, s.procs[i].id, s.procs.len() as int);
    lemma_sum_nonneg(groups_spec(s)[k].children);
}

/// All CPU shares in `child_items_upto` are exactly 0 when the
/// snapshot's total CPU capacity is 0.
proof fn lemma_child_items_zero_capacity(s: SnapshotModel, pid: u32, n: int)
    requires
        s.capacity == 0,
    ensures
        forall|m: int|
            0 <= m < child_items_upto(s, pid, n).len() ==> child_items_upto(s, pid, n)[m].cpu_usage
                == 0,
    decreases n,
{
    if n > 0 {
        lemma_child_items_zero_capacity(s, pid, n - 1);
        let prev = child_items_upto(s, pid, n - 1);
        let cur = child_items_upto(s, pid, n);
        assert forall|m: int| 0 <= m < cur.len() implies cur[m].cpu_usage == 0 by {
            if m < prev.len() {
                assert(cur[m] == prev[m]);
            }
        }
    }
}

/// A sum of all-zero CPU shares is 0.
proof fn lemma_sum_cpu_zero(items: Seq<ItemModel>)
    requires
        forall|m: int| 0 <= m < items.len() ==> items[m].cpu_usage == 0,
    ensures
        sum_cpu(items) == 0,
    decreases items.len(),
{
    if items.len() > 0 {
        lemma_sum_cpu_zero(items.drop_last());
    }
}

/// When the snapshot reports a total CPU capacity of 0, every CPU
/// figure in the output — the group's own share, each child's share,
/// and the group total — is exactly 0 (never NaN-like or undefined).
pub proof fn lemma_zero_capacity_zero_cpu(s: SnapshotModel, k: int)
    requires
        s.capacity == 0,
        0 <= k < groups_spec(s).len(),
    ensures
        groups_spec(s)[k].cpu_usage == 0,
        groups_spec(s)[k].total_cpu == 0,
        forall|m: int|
            0 <= m < groups_spec(s)[k].children.len() ==> groups_spec(s)[k].children[m].cpu_usage
                == 0,
{
    lemma_groups_upto_membership(s, s.procs.len() as int, k);
    let i = choose|i: int|
        0 <= i < s.procs.len() && s.procs[i].id == groups_spec(s)[k].id && s.has_child_of(
            s.procs[i].id,
        ) && groups_spec(s)[k] == group_of(s, i);
    lemma_child_items_zero_capacity(s, s.procs[i].id, s.procs.len() as int);
    lemma_sum_cpu_zero(groups_spec(s)[k].children);
}

/// With a positive capacity and no reading above it, all child CPU
/// shares in `child_items_upto` lie in [0, 10000] hundredths.
proof fn lemma_child_items_in_range(s: SnapshotModel, pid: u32, n: int)
    requires
        0 < s.capacity,
        n <= s.procs.len(),
        forall|i: int| 0 <= i < s.procs.len() ==> s.procs[i].cpu_raw <= s.capacity,
    ensures
        forall|m: int|
            0 <= m < child_items_upto(s, pid, n).len() ==> child_items_upto(s, pid, n)[m].cpu_usage
                >= 0 && child_items_upto(s, pid, n)[m].cpu_usage <= 10000,
    decreases n,
{
    if n > 0 {
        lemma_child_items_in_range(s, pid, n - 1);
        let prev = child_items_upto(s, pid, n - 1);
        let cur = child_items_upto(s, pid, n);
        assert forall|m: int|
            0 <= m < cur.len() implies cur[m].cpu_usage >= 0 && cur[m].cpu_usage <= 10000 by {
            if m < prev.len() {
                assert(cur[m] == prev[m]);
            } else {
                lemma_cpu_share_in_range(s.procs[n - 1].cpu_raw as int, s.capacity as int);
            }
        }
    }
}

/// When the snapshot's total CPU capacity is positive and no raw
/// reading exceeds it, every normalized CPU percentage in the output —
/// the group's own share and each child's — lies in the closed range
/// [0, 100] (in hundredths: [0, 10000]).
pub proof fn lemma_output_cpu_within_range(s: SnapshotModel, k: int)
    requires
        0 < s.capacity,
        forall|i: int| 0 <= i < s.procs.len() ==> s.procs[i].cpu_raw <= s.capacity,
        0 <= k < groups_spec(s).len(),
    ensures
        0 <= groups_spec(s)[k].cpu_usage <= 10000,
        forall|m: int|
            0 <= m < groups_spec(s)[k].children.len() ==> groups_spec(s)[k].children[m].cpu_usage
                >= 0 && groups_spec(s)[k].children[m].cpu_usage <= 10000,
{
    lemma_groups_upto_membership(s, s.procs.len() as int, k);
    let i = choose|i: int|
        0 <= i < s.procs.len() && s.procs[i].id == groups_spec(s)[k].id && s.has_child_of(
            s.procs[i].id,
        ) && groups_spec(s)[k] == group_of(s, i);
    lemma_cpu_share_in_range(s.procs[i].cpu_raw as int, s.capacity as int);
    lemma_child_items_in_range(s, s.procs[i].id, s.procs.len() as int);
}

/// Two snapshots have the same shape when they list the same process
/// ids with the same parent references, record for record — metric
/// readings are free to differ.
pub open spec fn same_shape(a: SnapshotModel, b: SnapshotModel) -> bool {
    &&& a.procs.len() == b.procs.len()
    &&& forall|i: int|
        0 <= i < a.procs.len() ==> a.procs[i].id == b.procs[i].id && a.procs[i].parent
            == b.procs[i].parent
}

/// Two item lists carry the same membership: the same children, by id,
/// in the same order.
pub open spec fn items_same_membership(x: Seq<ItemModel>, y: Seq<ItemModel>) -> bool {
    &&& x.len() == y.len()
    &&& forall|m: int| 0 <= m < x.len() ==> x[m].id == y[m].id
}

/// Two group lists carry the same membership: the same group keys, in
/// the same order, each with the same children by id.
pub open spec fn groups_same_membership(x: Seq<GroupModel>, y: Seq<GroupModel>) -> bool {
    &&& x.len() == y.len()
    &&& forall|k: int|
        0 <= k < x.len() ==> x[k].id == y[k].id && items_same_membership(
            x[k].children,
            y[k].children,
        )
}

/// Same-shaped snapshots agree on which pids are listed as parents.
proof fn lemma_has_child_same_shape(a: SnapshotModel, b: SnapshotModel, pid: u32)
    requires
        same_shape(a, b),
    ensures
        a.has_child_of(pid) == b.has_child_of(pid),
{
    if a.has_child_of(pid) {
        let j = choose|j: int| 0 <= j < a.procs.len() && a.procs[j].parent == Some(pid);
        assert(b.procs[j].parent == Some(pid));
    }
    if b.has_child_of(pid) {
        let j = choose|j: int| 0 <= j < b.procs.len() && b.procs[j].parent == Some(pid);
        assert(a.procs[j].parent == Some(pid));
    }
}

/// Same-shaped snapshots yield child lists with the same membership.
proof fn lemma_children_same_shape(a: SnapshotModel, b: SnapshotModel, pid: u32, n: int)
    requires
        same_shape(a, b),
        0 <= n <= a.procs.len(),
    ensures
        items_same_membership(child_items_upto(a, pid, n), child_items_upto(b, pid, n)),
    decreases n,
{
    if n > 0 {
        lemma_children_same_shape(a, b, pid, n - 1);
    }
}

/// Same-shaped group-list prefixes have the same membership.
proof fn lemma_groups_upto_same_shape(a: SnapshotModel, b: SnapshotModel, n: int)
    requires
        same_shape(a, b),
        0 <= n <= a.procs.len(),
    ensures
        groups_same_membership(groups_upto(a, n), groups_upto(b, n)),
    decreases n,
{
    if n > 0 {
        lemma_groups_upto_same_shape(a, b, n - 1);
        lemma_has_child_same_shape(a, b, a.procs[n - 1].id);
        if a.has_child_of(a.procs[n - 1].id) {
            lemma_children_same_shape(a, b, a.procs[n - 1].id, a.procs.len() as int);
        }
    }
}

/// Idempotence of grouping up to live metric drift: two snapshots that
/// list the same processes with the same parent references — as two
/// calls in immediate succession with no kill in between do — yield
/// structurally identical output: the same group keys, in the same
/// order, with the same children by id, however the metric readings
/// moved between the two samples.
pub proof fn lemma_grouping_depends_only_on_shape(a: SnapshotModel, b: SnapshotModel)
    requires
        same_shape(a, b),
    ensures
        groups_same_membership(groups_spec(a), groups_spec(b)),
{
    lemma_groups_upto_same_shape(a, b, a.procs.len() as int);
}

} // verus!
