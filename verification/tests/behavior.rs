use fipa_wasm_agents::behavior::{BehaviorConfig, BehaviorError, BehaviorScheduler, BehaviorStatus, BehaviorType, FSMTransition};

#[test]
fn test_one_shot_behavior() {
    let mut scheduler = BehaviorScheduler::new();
    let config = BehaviorConfig { behavior_type: Some(BehaviorType::OneShot), ..Default::default() };
    let id = scheduler.add_behavior("test".to_string(), config).unwrap();
    let runnable = scheduler.get_runnable(0);
    assert_eq!(runnable.len(), 1);
    scheduler.handle_completion(id, 0, true);
    let status = scheduler.get_status(id).unwrap();
    assert_eq!(status, BehaviorStatus::Done);
}

#[test]
fn test_ticker_behavior() {
    let mut scheduler = BehaviorScheduler::new();
    let config = BehaviorConfig {
        behavior_type: Some(BehaviorType::Ticker),
        tick_interval_ms: Some(100),
        ..Default::default()
    };
    let id = scheduler.add_behavior("ticker".to_string(), config).unwrap();
    let runnable = scheduler.get_runnable(0);
    assert_eq!(runnable.len(), 1);
    scheduler.handle_completion(id, 0, false);
    let behavior = scheduler.get(id).unwrap();
    assert_eq!(behavior.next_run_ms, Some(100));
    let runnable = scheduler.get_runnable(50);
    assert_eq!(runnable.len(), 0);
    let runnable = scheduler.get_runnable(100);
    assert_eq!(runnable.len(), 1);
}

#[test]
fn test_fsm_behavior() {
    let mut scheduler = BehaviorScheduler::new();
    let config = BehaviorConfig {
        behavior_type: Some(BehaviorType::FSM),
        fsm_initial_state: Some("idle".to_string()),
        fsm_transitions: vec![
            FSMTransition { from_state: "idle".to_string(), to_state: "running".to_string(), event: "start".to_string() },
            FSMTransition { from_state: "running".to_string(), to_state: "idle".to_string(), event: "stop".to_string() },
        ],
        ..Default::default()
    };
    let id = scheduler.add_behavior("fsm".to_string(), config).unwrap();
    assert_eq!(scheduler.fsm_current_state(id).unwrap(), "idle");
    let new_state = scheduler.fsm_event(id, "start").unwrap();
    assert_eq!(new_state, "running");
    let result = scheduler.fsm_event(id, "start");
    assert!(result.is_err());
}

#[test]
fn ids_are_fresh_and_block_restart_roundtrips() {
    let mut s = BehaviorScheduler::new();
    let one_shot = || BehaviorConfig { behavior_type: Some(BehaviorType::OneShot), ..Default::default() };
    assert!(s.add_behavior_at("untyped".to_string(), BehaviorConfig::default(), 0).is_err());
    let a = s.add_behavior_at("a".to_string(), one_shot(), 0).unwrap();
    let b = s.add_behavior_at("b".to_string(), one_shot(), 0).unwrap();
    assert_ne!(a, b);
    s.block_behavior(a).unwrap();
    assert_eq!(s.get_status(a).unwrap(), BehaviorStatus::Blocked);
    assert_eq!(s.get_runnable(0).len(), 1);
    s.restart_behavior(a).unwrap();
    assert_eq!(s.get_status(a).unwrap(), BehaviorStatus::Ready);
    s.remove_behavior(b).unwrap();
    assert!(s.get_status(b).is_err());
    assert_eq!(s.list_behaviors().len(), 1);
}

#[test]
fn waker_waits_for_its_delay() {
    let mut s = BehaviorScheduler::new();
    let cfg = BehaviorConfig { behavior_type: Some(BehaviorType::Waker), wake_after_ms: Some(50), ..Default::default() };
    let id = s.add_behavior_at("w".to_string(), cfg, 1000).unwrap();
    assert_eq!(s.get_runnable(1049).len(), 0);
    assert_eq!(s.get_runnable(1050).len(), 1);
    s.handle_completion(id, 1050, true);
    assert_eq!(s.get_status(id).unwrap(), BehaviorStatus::Done);
}

#[test]
fn add_behavior_reports_each_invalid_config() {
    let mut s = BehaviorScheduler::new();
    let none = BehaviorConfig { ..Default::default() };
    match s.add_behavior("x".to_string(), none) {
        Err(BehaviorError::InvalidConfig(m)) => assert_eq!(m, "behavior_type is required"),
        _ => panic!("expected an invalid config"),
    }
    let ticker = BehaviorConfig { behavior_type: Some(BehaviorType::Ticker), ..Default::default() };
    match s.add_behavior("t".to_string(), ticker) {
        Err(BehaviorError::InvalidConfig(m)) => assert_eq!(m, "tick_interval_ms required for Ticker"),
        _ => panic!("expected an invalid config"),
    }
    let waker = BehaviorConfig { behavior_type: Some(BehaviorType::Waker), ..Default::default() };
    match s.add_behavior("w".to_string(), waker) {
        Err(BehaviorError::InvalidConfig(m)) => assert_eq!(m, "wake_after_ms required for Waker"),
        _ => panic!("expected an invalid config"),
    }
}

#[test]
fn add_behavior_waker_overflowing_the_clock_is_refused() {
    let mut s = BehaviorScheduler::new();
    let waker = BehaviorConfig {
        behavior_type: Some(BehaviorType::Waker),
        wake_after_ms: Some(u64::MAX),
        ..Default::default()
    };
    match s.add_behavior("w".to_string(), waker) {
        Err(BehaviorError::InvalidConfig(m)) => assert_eq!(m, "wake_after_ms overflows the clock"),
        _ => panic!("expected an overflow"),
    }
    let soon = BehaviorConfig {
        behavior_type: Some(BehaviorType::Waker),
        wake_after_ms: Some(0),
        ..Default::default()
    };
    assert_eq!(s.add_behavior("soon".to_string(), soon).unwrap(), 1);
}
