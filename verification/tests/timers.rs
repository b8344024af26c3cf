use fipa_wasm_agents::timers::{TimerOp, TimerSlots};

#[test]
fn timers_are_capped_by_the_budget() {
    let mut t = TimerSlots::new();
    t.apply(&vec![
        TimerOp::Arm { id: 1, delay_ms: 30 },
        TimerOp::Arm { id: 2, delay_ms: 40 },
        TimerOp::Arm { id: 3, delay_ms: 50 },
    ], 2, 1000);
    assert_eq!(t.len(), 2);
    assert_eq!(t.deadline(1), Some(1030));
    assert_eq!(t.deadline(3), None);
    // re-arming a known timer needs no new slot
    t.apply_op(TimerOp::Arm { id: 2, delay_ms: 5 }, 2, 2000);
    assert_eq!(t.deadline(2), Some(2005));
    // cancelling frees a slot
    t.apply(&vec![TimerOp::Cancel { id: 1 }, TimerOp::Arm { id: 3, delay_ms: 1 }], 2, 3000);
    assert_eq!(t.deadline(1), None);
    assert_eq!(t.deadline(3), Some(3001));
    assert_eq!(t.len(), 2);
}

#[test]
fn deadline_saturates() {
    let mut t = TimerSlots::new();
    t.apply_op(TimerOp::Arm { id: 7, delay_ms: u64::MAX }, 1, 10);
    assert_eq!(t.deadline(7), Some(u64::MAX));
}

#[test]
fn due_timers_are_taken_out() {
    let mut t = TimerSlots::new();
    t.apply(&vec![TimerOp::Arm { id: 7, delay_ms: 30 }, TimerOp::Arm { id: 8, delay_ms: 100 }], 4, 0);
    assert!(t.take_due(10).is_empty());
    assert_eq!(t.take_due(30), vec![7]);
    assert_eq!(t.deadline(7), None);
    assert_eq!(t.len(), 1);
    let mut rest = t.take_due(1000);
    rest.sort();
    assert_eq!(rest, vec![8]);
    assert_eq!(t.len(), 0);
}

#[test]
fn cancel_of_unknown_timer_changes_nothing() {
    let mut t = TimerSlots::new();
    t.apply_op(TimerOp::Arm { id: 1, delay_ms: 1 }, 1, 0);
    t.apply_op(TimerOp::Cancel { id: 9 }, 1, 0);
    assert_eq!(t.len(), 1);
    // zero budget: nothing new is armed
    let mut z = TimerSlots::new();
    z.apply_op(TimerOp::Arm { id: 1, delay_ms: 1 }, 0, 0);
    assert_eq!(z.len(), 0);
}
