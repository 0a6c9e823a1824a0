use procmon::groups::get_processes;
use procmon::kill::check_kill_target;
use procmon::kill::kill_outcome;
use procmon::kill::KillError;
use procmon::numfmt::u32_dec_string;
use procmon::rounding::normalize_cpu;
use procmon::rounding::normalize_memory;
use procmon::snapshot::ProcessRecord;
use procmon::snapshot::Snapshot;
use procmon::usage::get_total_usage;

fn rec(id: u32, parent: Option<u32>, cpu_raw: u64, memory_bytes: u64) -> ProcessRecord {
    ProcessRecord {
        id,
        parent,
        name: format!("proc-{}", id),
        cpu_raw,
        memory_bytes,
    }
}

// Rounds to two decimal places: 1_234_567 bytes is 1.23 MB (123 hundredths).
#[test]
fn memory_rounds_to_hundredths_of_a_megabyte() {
    assert_eq!(normalize_memory(2_500_000), 250);
    assert_eq!(normalize_memory(1_234_567), 123);
}

// Ties round away from zero: 5_000 bytes is 0.005 MB, which rounds up to 0.01.
#[test]
fn memory_ties_round_away_from_zero() {
    assert_eq!(normalize_memory(5_000), 1);
    assert_eq!(normalize_memory(4_999), 0);
    assert_eq!(normalize_memory(15_000), 2);
}

// 50 out of a capacity of 200 is 25.00% (2500 hundredths).
#[test]
fn cpu_share_of_capacity() {
    assert_eq!(normalize_cpu(50, 200), 2500);
    // The normalizer only uses the ratio: the same reading in a finer unit.
    assert_eq!(normalize_cpu(500_000, 2_000_000), 2500);
}

#[test]
fn cpu_share_rounds_ties_away_from_zero() {
    // 1 / 4000 * 100 = 0.025%, a tie at the second decimal: rounds to 0.03.
    assert_eq!(normalize_cpu(1, 4_000), 3);
    // 1 / 8000 * 100 = 0.0125%: rounds to 0.01.
    assert_eq!(normalize_cpu(1, 8_000), 1);
}

#[test]
fn cpu_share_with_zero_capacity_is_zero() {
    assert_eq!(normalize_cpu(50, 0), 0);
    assert_eq!(normalize_cpu(0, 0), 0);
}

#[test]
fn empty_snapshot_yields_no_groups() {
    let snapshot = Snapshot { processes: vec![], total_cpu_capacity: 400 };
    assert!(get_processes(&snapshot).is_empty());
}

// A group exists exactly for a record that some process lists as its
// parent; a parent id that resolves to no live process yields no group.
#[test]
fn groups_keyed_by_resolvable_parents_only() {
    let snapshot = Snapshot {
        processes: vec![
            rec(1, None, 100, 1_000_000),
            rec(2, Some(1), 50, 2_000_000),
            rec(3, Some(1), 30, 3_000_000),
            rec(4, Some(999), 10, 4_000_000), // parent 999 is not live: bucket dropped
            rec(5, Some(2), 20, 5_000_000),
        ],
        total_cpu_capacity: 400,
    };
    let groups = get_processes(&snapshot);
    let mut ids: Vec<u32> = groups.iter().map(|g| g.id).collect();
    ids.sort();
    assert_eq!(ids, vec![1, 2]);
    for g in &groups {
        assert!(snapshot.processes.iter().any(|r| r.id == g.id));
    }
}

// A process with no parent never spontaneously generates a group; it
// becomes a group key only when something else lists it as a parent.
#[test]
fn parentless_process_is_no_group_by_itself() {
    let snapshot = Snapshot {
        processes: vec![rec(1, None, 100, 1_000_000), rec(2, None, 50, 2_000_000)],
        total_cpu_capacity: 400,
    };
    assert!(get_processes(&snapshot).is_empty());
}

#[test]
fn group_carries_children_in_record_order_with_normalized_metrics() {
    let snapshot = Snapshot {
        processes: vec![
            rec(10, None, 100, 10_000_000),
            rec(11, Some(10), 50, 2_500_000),
            rec(12, Some(10), 25, 1_234_567),
        ],
        total_cpu_capacity: 200,
    };
    let groups = get_processes(&snapshot);
    assert_eq!(groups.len(), 1);
    let g = &groups[0];
    assert_eq!(g.id, 10);
    assert_eq!(g.name, "proc-10");
    assert_eq!(g.cpu_usage, 5000); // 100/200 = 50.00%
    assert_eq!(g.memory_usage, 1000); // 10 MB
    assert_eq!(g.children.len(), 2);
    assert_eq!(g.children[0].id, 11);
    assert_eq!(g.children[0].cpu_usage, 2500); // 25.00%
    assert_eq!(g.children[0].memory_usage, 250); // 2.50 MB
    assert_eq!(g.children[1].id, 12);
    assert_eq!(g.children[1].cpu_usage, 1250); // 12.50%
    assert_eq!(g.children[1].memory_usage, 123); // 1.23 MB
}

// Totals are the sum of the children's already-rounded metrics, not a
// re-rounding of the raw sums: two children of 1.23 MB each total 2.46,
// while their raw byte sum would round to 2.47.
#[test]
fn totals_sum_rounded_metrics_not_raw_sums() {
    let snapshot = Snapshot {
        processes: vec![
            rec(1, None, 0, 0),
            rec(2, Some(1), 10, 1_234_567),
            rec(3, Some(1), 10, 1_234_567),
        ],
        total_cpu_capacity: 400,
    };
    let groups = get_processes(&snapshot);
    assert_eq!(groups.len(), 1);
    let g = &groups[0];
    assert_eq!(g.total_memory, 246);
    assert_eq!(normalize_memory(2 * 1_234_567), 247);
    assert_eq!(g.total_cpu, g.children[0].cpu_usage + g.children[1].cpu_usage);
}

// With a reported capacity of 0 every CPU figure in the output is exactly 0.
#[test]
fn zero_capacity_zeroes_every_cpu_figure() {
    let snapshot = Snapshot {
        processes: vec![
            rec(1, None, 100, 1_000_000),
            rec(2, Some(1), 50, 2_000_000),
            rec(3, Some(1), 30, 3_000_000),
        ],
        total_cpu_capacity: 0,
    };
    let groups = get_processes(&snapshot);
    assert_eq!(groups.len(), 1);
    let g = &groups[0];
    assert_eq!(g.cpu_usage, 0);
    assert_eq!(g.total_cpu, 0);
    for c in &g.children {
        assert_eq!(c.cpu_usage, 0);
    }
    // Memory figures are unaffected.
    assert_eq!(g.memory_usage, 100);
}

// A process that is its own parent resolves normally: no traversal
// happens, so a cycle cannot cause non-termination.
#[test]
fn self_parent_resolves_without_recursion() {
    let snapshot = Snapshot {
        processes: vec![rec(7, Some(7), 40, 1_000_000)],
        total_cpu_capacity: 400,
    };
    let groups = get_processes(&snapshot);
    assert_eq!(groups.len(), 1);
    assert_eq!(groups[0].id, 7);
    assert_eq!(groups[0].children.len(), 1);
    assert_eq!(groups[0].children[0].id, 7);
}

// The model is flat: a grandchild appears only under its immediate
// parent, and that parent also appears as a lone child one level up.
#[test]
fn two_level_groups_are_not_flattened() {
    let snapshot = Snapshot {
        processes: vec![
            rec(1, None, 0, 0),
            rec(2, Some(1), 0, 0),
            rec(3, Some(2), 0, 0),
        ],
        total_cpu_capacity: 400,
    };
    let groups = get_processes(&snapshot);
    let mut ids: Vec<u32> = groups.iter().map(|g| g.id).collect();
    ids.sort();
    assert_eq!(ids, vec![1, 2]);
    for g in &groups {
        if g.id == 1 {
            assert_eq!(g.children.len(), 1);
            assert_eq!(g.children[0].id, 2);
        } else {
            assert_eq!(g.children.len(), 1);
            assert_eq!(g.children[0].id, 3);
        }
    }
}

// Same process table, different live metric readings: structurally
// identical output — same group keys, same children by id.
#[test]
fn grouping_depends_only_on_ids_and_parents() {
    let first = Snapshot {
        processes: vec![
            rec(1, None, 100, 1_000_000),
            rec(2, Some(1), 50, 2_000_000),
            rec(3, Some(2), 30, 3_000_000),
        ],
        total_cpu_capacity: 400,
    };
    let second = Snapshot {
        processes: vec![
            rec(1, None, 7, 9_000_000),
            rec(2, Some(1), 320, 1_000),
            rec(3, Some(2), 0, 0),
        ],
        total_cpu_capacity: 123,
    };
    let a = get_processes(&first);
    let b = get_processes(&second);
    assert_eq!(a.len(), b.len());
    for (ga, gb) in a.iter().zip(b.iter()) {
        assert_eq!(ga.id, gb.id);
        assert_eq!(ga.children.len(), gb.children.len());
        for (ca, cb) in ga.children.iter().zip(gb.children.iter()) {
            assert_eq!(ca.id, cb.id);
        }
    }
}

// A pid absent from the fresh snapshot fails with NotFound, carrying
// that exact pid in the message.
#[test]
fn kill_target_absent_is_not_found_with_exact_message() {
    let snapshot = Snapshot {
        processes: vec![rec(1, None, 0, 0), rec(2, Some(1), 0, 0)],
        total_cpu_capacity: 400,
    };
    let r = check_kill_target(&snapshot, 4242);
    assert_eq!(r, Err(KillError::NotFound(4242)));
    assert_eq!(r.unwrap_err().message(), "Process 4242 not found");
}

#[test]
fn kill_target_present_is_ok() {
    let snapshot = Snapshot {
        processes: vec![rec(1, None, 0, 0), rec(2, Some(1), 0, 0)],
        total_cpu_capacity: 400,
    };
    assert_eq!(check_kill_target(&snapshot, 2), Ok(()));
}

// An OS-side refusal maps to KillFailed with the pid in the message.
#[test]
fn os_refusal_is_kill_failed_with_exact_message() {
    assert_eq!(kill_outcome(7, true), Ok(()));
    let r = kill_outcome(7, false);
    assert_eq!(r, Err(KillError::KillFailed(7)));
    assert_eq!(r.unwrap_err().message(), "Failed to kill process 7");
}

// The headline figure: global CPU rounded to two decimals, memory in
// whole megabytes by floor division.
#[test]
fn total_usage_rounds_cpu_and_floors_memory() {
    let t = get_total_usage(123_456, 5_900_000);
    assert_eq!(t.cpu, 1235); // 12.3456% rounds to 12.35
    assert_eq!(t.memory, 5); // floor, not rounding
    let tie = get_total_usage(50, 999_999);
    assert_eq!(tie.cpu, 1); // 0.0050% ties away from zero to 0.01
    assert_eq!(tie.memory, 0);
}

#[test]
fn pid_decimal_formatting() {
    assert_eq!(u32_dec_string(0), "0");
    assert_eq!(u32_dec_string(7), "7");
    assert_eq!(u32_dec_string(40_960), "40960");
    assert_eq!(u32_dec_string(u32::MAX), "4294967295");
}
