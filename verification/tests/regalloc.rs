use wasm_pvm::llvm_backend::control_flow::extract_cycle;
use wasm_pvm::llvm_backend::emitter::ValKey;
use wasm_pvm::llvm_backend::regalloc::{
    count_spanning_calls, linear_scan, LiveInterval, RegAllocResult, RegAllocStats,
};

#[test]
fn count_spanning_calls_basic() {
    let call_positions = vec![2, 5, 8, 12];
    // Open interval (start, end) — excludes calls at exactly start or end.
    assert_eq!(count_spanning_calls(&call_positions, 0, 1), 0);
    assert_eq!(count_spanning_calls(&call_positions, 0, 3), 1); // call at 2
    assert_eq!(count_spanning_calls(&call_positions, 0, 10), 3); // calls at 2, 5, 8
    assert_eq!(count_spanning_calls(&call_positions, 5, 8), 0); // endpoints excluded
    assert_eq!(count_spanning_calls(&call_positions, 4, 9), 2); // calls at 5, 8
    assert_eq!(count_spanning_calls(&call_positions, 0, 20), 4); // all calls
}

#[test]
fn count_spanning_calls_empty_and_reversed_ranges() {
    assert_eq!(count_spanning_calls(&[], 0, 100), 0);
    assert_eq!(count_spanning_calls(&[2, 5, 8], 9, 1), 0);
    assert_eq!(count_spanning_calls(&[2, 2, 3, 3], 1, 3), 2);
}

#[test]
fn regalloc_defaults_are_empty() {
    let r = RegAllocResult::default();
    assert!(r.val_to_reg.is_empty());
    assert!(r.slot_to_reg.is_empty());
    assert!(r.reg_to_slot.is_empty());
    let s = RegAllocStats::default();
    assert_eq!(s.total_values, 0);
    assert!(s.skipped_reason.is_none());
}

#[test]
fn extract_cycle_closes_a_permutation() {
    // 8 <- 16, 16 <- 24, 24 <- 8: a three-cycle.
    let mut remaining = vec![(8, 16), (16, 24), (24, 8), (40, 48)];
    let chain = extract_cycle(&mut remaining);
    assert_eq!(chain, vec![(8, 16), (16, 24), (24, 8)]);
    assert_eq!(remaining, vec![(40, 48)]);
    // Links: each copy writes the slot the previous one reads; the last reads the head.
    for i in 1..chain.len() {
        assert_eq!(chain[i].0, chain[i - 1].1);
    }
    assert_eq!(chain[chain.len() - 1].1, chain[0].0);
}

#[test]
fn extract_cycle_stops_on_a_broken_chain() {
    let mut remaining = vec![(8, 16), (24, 32)];
    let chain = extract_cycle(&mut remaining);
    assert_eq!(chain, vec![(8, 16)]);
    assert_eq!(remaining, vec![(24, 32)]);
}

#[test]
fn extract_cycle_self_loop() {
    let mut remaining = vec![(8, 8)];
    let chain = extract_cycle(&mut remaining);
    assert_eq!(chain, vec![(8, 8)]);
    assert!(remaining.is_empty());
}

#[test]
fn linear_scan_keeps_non_overlapping_assignments() {
    let intervals = vec![
        LiveInterval {
            val_key: ValKey(1),
            slot: 8,
            start: 0,
            end: 1,
            expiration: 1,
            spill_weight: 3,
            preferred_reg: None,
            spans_calls: false,
        },
        LiveInterval {
            val_key: ValKey(2),
            slot: 16,
            start: 2,
            end: 3,
            expiration: 3,
            spill_weight: 3,
            preferred_reg: None,
            spans_calls: false,
        },
    ];

    let result = linear_scan(intervals, &[9], true);

    assert_eq!(result.val_to_reg.get(&1), Some(&9));
    assert_eq!(result.val_to_reg.get(&2), Some(&9));
    assert_eq!(result.slot_to_reg.get(&8), Some(&9));
    assert_eq!(result.slot_to_reg.get(&16), Some(&9));
    assert!(result.reg_to_slot.contains_key(&9));
}

#[test]
fn linear_scan_evicts_lowest_weight() {
    // Two overlapping intervals: ValKey(1) has lower weight, so it gets evicted.
    let intervals = vec![
        LiveInterval {
            val_key: ValKey(1),
            slot: 8,
            start: 0,
            end: 10,
            expiration: 10,
            spill_weight: 2, // low weight — eviction candidate
            preferred_reg: None,
            spans_calls: false,
        },
        LiveInterval {
            val_key: ValKey(2),
            slot: 16,
            start: 1,
            end: 4,
            expiration: 4,
            spill_weight: 50, // high weight (loop-hot) — wins
            preferred_reg: None,
            spans_calls: false,
        },
    ];

    let result = linear_scan(intervals, &[9], true);

    assert!(!result.val_to_reg.contains_key(&1));
    assert_eq!(result.val_to_reg.get(&2), Some(&9));
}

#[test]
fn linear_scan_keeps_higher_weight_active() {
    // Current interval has lower weight than active — no eviction.
    let intervals = vec![
        LiveInterval {
            val_key: ValKey(1),
            slot: 8,
            start: 0,
            end: 10,
            expiration: 10,
            spill_weight: 50, // high weight — should stay
            preferred_reg: None,
            spans_calls: false,
        },
        LiveInterval {
            val_key: ValKey(2),
            slot: 16,
            start: 1,
            end: 4,
            expiration: 4,
            spill_weight: 2, // low weight — gets spilled
            preferred_reg: None,
            spans_calls: false,
        },
    ];

    let result = linear_scan(intervals, &[9], true);

    assert_eq!(result.val_to_reg.get(&1), Some(&9));
    assert!(!result.val_to_reg.contains_key(&2));
}

#[test]
fn linear_scan_equal_weight_no_eviction() {
    // When weights are equal, no eviction occurs — the new interval is spilled.
    let intervals = vec![
        LiveInterval {
            val_key: ValKey(1),
            slot: 8,
            start: 0,
            end: 10,
            expiration: 10,
            spill_weight: 5,
            preferred_reg: None,
            spans_calls: false,
        },
        LiveInterval {
            val_key: ValKey(2),
            slot: 16,
            start: 1,
            end: 4,
            expiration: 4,
            spill_weight: 5, // same weight → no eviction
            preferred_reg: None,
            spans_calls: false,
        },
    ];

    let result = linear_scan(intervals, &[9], true);

    assert_eq!(result.val_to_reg.get(&1), Some(&9));
    assert!(!result.val_to_reg.contains_key(&2));
}

#[test]
fn preferred_reg_hint_selects_preferred_when_available() {
    // ValKey(1) prefers register 7; both r7 and r9 are free.
    let intervals = vec![LiveInterval {
        val_key: ValKey(1),
        slot: 8,
        start: 0,
        end: 5,
        expiration: 5,
        spill_weight: 3,
        preferred_reg: Some(7),
        spans_calls: false,
    }];

    let result = linear_scan(intervals, &[9, 7], true);

    assert_eq!(result.val_to_reg.get(&1), Some(&7));
}

#[test]
fn preferred_reg_falls_back_when_unavailable() {
    // ValKey(1) prefers r7 but r7 is not allocatable.
    let intervals = vec![LiveInterval {
        val_key: ValKey(1),
        slot: 8,
        start: 0,
        end: 5,
        expiration: 5,
        spill_weight: 3,
        preferred_reg: Some(7),
        spans_calls: false,
    }];

    let result = linear_scan(intervals, &[9], true);

    assert_eq!(result.val_to_reg.get(&1), Some(&9));
}

#[test]
fn early_expiration_frees_register_for_reuse() {
    // Simulates a loop phi destination (expiration=3, end=10) and an incoming
    // value starting at position 4. Without early expiration, the phi would
    // occupy the register until position 10, blocking the incoming value.
    // With early expiration, the phi frees the register at position 3.
    let intervals = vec![
        LiveInterval {
            val_key: ValKey(1),
            slot: 8,
            start: 0,
            end: 10,       // loop-extended
            expiration: 3, // actual last use
            spill_weight: 10,
            preferred_reg: None,
            spans_calls: false,
        },
        LiveInterval {
            val_key: ValKey(2),
            slot: 16,
            start: 4,
            end: 10,
            expiration: 10,
            spill_weight: 5,
            preferred_reg: None,
            spans_calls: false,
        },
    ];

    // Only 1 register: without early expiration, ValKey(2) would be evicted
    // or spilled. With early expiration, ValKey(1) frees the register at 3,
    // and ValKey(2) gets it at 4.
    let result = linear_scan(intervals, &[9], true);
    assert_eq!(result.val_to_reg.get(&1), Some(&9));
    assert_eq!(result.val_to_reg.get(&2), Some(&9));
}

#[test]
fn no_early_expiration_without_gap() {
    // When expiration == end (no loop extension), standard behavior applies.
    // Two overlapping intervals with 1 register: second gets evicted.
    let intervals = vec![
        LiveInterval {
            val_key: ValKey(1),
            slot: 8,
            start: 0,
            end: 10,
            expiration: 10, // no early expiration
            spill_weight: 10,
            preferred_reg: None,
            spans_calls: false,
        },
        LiveInterval {
            val_key: ValKey(2),
            slot: 16,
            start: 4,
            end: 10,
            expiration: 10,
            spill_weight: 5,
            preferred_reg: None,
            spans_calls: false,
        },
    ];

    let result = linear_scan(intervals, &[9], true);
    assert_eq!(result.val_to_reg.get(&1), Some(&9));
    // ValKey(2) not allocated — ValKey(1) still active (higher weight)
    assert!(!result.val_to_reg.contains_key(&2));
}

#[test]
fn call_spanning_prefers_callee_saved_in_nonleaf() {
    // In a non-leaf function, a call-spanning interval should prefer
    // callee-saved (r9) over caller-saved (r5).
    let intervals = vec![LiveInterval {
        val_key: ValKey(1),
        slot: 8,
        start: 0,
        end: 5,
        expiration: 5,
        spill_weight: 3,
        preferred_reg: None,
        spans_calls: true,
    }];

    // free_regs = [9, 5]: pop() would give r5 (caller-saved), but the
    // callee-saved preference should seek out r9 instead.
    let result = linear_scan(intervals, &[9, 5], false);
    assert_eq!(result.val_to_reg.get(&1), Some(&9));
}

#[test]
fn non_call_spanning_prefers_caller_saved_in_nonleaf() {
    // In a non-leaf function, a non-call-spanning interval should prefer
    // caller-saved (r5) over callee-saved (r9), leaving callee-saved
    // registers available for call-spanning values.
    let intervals = vec![LiveInterval {
        val_key: ValKey(1),
        slot: 8,
        start: 0,
        end: 5,
        expiration: 5,
        spill_weight: 3,
        preferred_reg: None,
        spans_calls: false,
    }];

    // free_regs = [5, 9]: pop() would give 9, but the caller-saved
    // preference explicitly seeks r5.
    let result = linear_scan(intervals, &[5, 9], false);
    assert_eq!(result.val_to_reg.get(&1), Some(&5));
}

#[test]
fn leaf_function_ignores_call_spanning_preference() {
    // In a leaf function, spans_calls is always false, but even if set,
    // no preference should apply — all registers are equal.
    let intervals = vec![LiveInterval {
        val_key: ValKey(1),
        slot: 8,
        start: 0,
        end: 5,
        expiration: 5,
        spill_weight: 3,
        preferred_reg: None,
        spans_calls: true, // would be unusual in leaf, but test the guard
    }];

    // In leaf, pop() gives 9 (last element), no preference applied.
    let result = linear_scan(intervals, &[5, 9], true);
    assert_eq!(result.val_to_reg.get(&1), Some(&9));
}

#[test]
fn call_spanning_and_non_spanning_get_complementary_classes() {
    // Two overlapping intervals in a non-leaf function: the call-spanning
    // one should get callee-saved (r11), the non-call-spanning one should
    // get caller-saved (r5). Without the preference, both would use
    // default pop() order, potentially assigning backwards.
    let intervals = vec![
        LiveInterval {
            val_key: ValKey(1),
            slot: 8,
            start: 0,
            end: 10,
            expiration: 10,
            spill_weight: 5,
            preferred_reg: None,
            spans_calls: false, // should get caller-saved (r5)
        },
        LiveInterval {
            val_key: ValKey(2),
            slot: 16,
            start: 0,
            end: 10,
            expiration: 10,
            spill_weight: 4,
            preferred_reg: None,
            spans_calls: true, // should get callee-saved (r11)
        },
    ];

    let result = linear_scan(intervals, &[11, 5], false);
    assert_eq!(result.val_to_reg.get(&1), Some(&5));
    assert_eq!(result.val_to_reg.get(&2), Some(&11));
}

#[test]
fn non_spanning_falls_back_to_callee_saved_when_no_caller_saved() {
    // When only callee-saved registers are available, a non-call-spanning
    // interval should still get allocated (fallback to pop()).
    let intervals = vec![LiveInterval {
        val_key: ValKey(1),
        slot: 8,
        start: 0,
        end: 5,
        expiration: 5,
        spill_weight: 3,
        preferred_reg: None,
        spans_calls: false,
    }];

    // Only callee-saved available — preference can't find caller-saved,
    // so it falls back to pop() and gets r11.
    let result = linear_scan(intervals, &[11], false);
    assert_eq!(result.val_to_reg.get(&1), Some(&11));
}

#[test]
fn preferred_reg_overrides_callee_saved_preference() {
    // preferred_reg (r7) takes priority over the callee-saved preference,
    // even for call-spanning intervals in non-leaf functions.
    let intervals = vec![LiveInterval {
        val_key: ValKey(1),
        slot: 8,
        start: 0,
        end: 5,
        expiration: 5,
        spill_weight: 3,
        preferred_reg: Some(7),
        spans_calls: true,
    }];

    let result = linear_scan(intervals, &[9, 7], false);
    assert_eq!(result.val_to_reg.get(&1), Some(&7));
}

fn iv(key: usize, slot: i32, start: usize, end: usize, weight: i64) -> LiveInterval {
    LiveInterval {
        val_key: ValKey(key),
        slot,
        start,
        end,
        expiration: end,
        spill_weight: weight,
        preferred_reg: None,
        spans_calls: false,
    }
}

#[test]
fn linear_scan_shared_registers_never_overlap() {
    let intervals = vec![
        iv(1, 8, 0, 6, 4),
        iv(2, 16, 1, 3, 9),
        iv(3, 24, 2, 9, -2),
        iv(4, 32, 4, 5, 7),
        iv(5, 40, 5, 12, 1),
        iv(6, 48, 7, 8, 30),
        iv(7, 56, 10, 11, 2),
    ];
    let result = linear_scan(intervals.clone(), &[5, 9], false);
    assert!(!result.val_to_reg.is_empty());
    for a in &intervals {
        for b in &intervals {
            if a.val_key == b.val_key {
                continue;
            }
            if let (Some(ra), Some(rb)) = (result.val_to_reg.get(&a.val_key.0), result.val_to_reg.get(&b.val_key.0)) {
                if ra == rb {
                    assert!(a.expiration < b.start || b.expiration < a.start);
                }
            }
        }
    }
    for r in result.val_to_reg.values() {
        assert!(*r == 5 || *r == 9);
    }
}

#[test]
fn linear_scan_ties_keep_input_order() {
    // Same start and weight: the first listed interval is processed first and
    // keeps the only register.
    let result = linear_scan(vec![iv(1, 8, 0, 4, 3), iv(2, 16, 0, 4, 3)], &[9], true);
    assert_eq!(result.val_to_reg.get(&1), Some(&9));
    assert!(!result.val_to_reg.contains_key(&2));
    // A heavier interval starting at the same point goes first.
    let result = linear_scan(vec![iv(1, 8, 0, 4, 3), iv(2, 16, 0, 4, 8)], &[9], true);
    assert_eq!(result.val_to_reg.get(&2), Some(&9));
    assert!(!result.val_to_reg.contains_key(&1));
}

#[test]
fn linear_scan_allocates_all_with_enough_registers() {
    let mk = |key: usize, slot: i32, start: usize, end: usize| LiveInterval {
        val_key: ValKey(key),
        slot,
        start,
        end,
        expiration: end,
        spill_weight: 1,
        preferred_reg: None,
        spans_calls: false,
    };
    // Three values live at the same time, three registers.
    let intervals = vec![mk(1, 8, 0, 10), mk(2, 16, 1, 10), mk(3, 24, 2, 10)];
    let result = linear_scan(intervals, &[9, 10, 11], true);
    for (key, slot) in [(1usize, 8i32), (2, 16), (3, 24)] {
        let reg = *result.val_to_reg.get(&key).expect("allocated");
        assert_eq!(result.slot_to_reg.get(&slot), Some(&reg));
        assert_eq!(result.reg_to_slot.get(&reg), Some(&slot));
    }
    let mut regs: Vec<u8> = result.val_to_reg.values().copied().collect();
    regs.sort();
    assert_eq!(regs, vec![9, 10, 11]);
}
