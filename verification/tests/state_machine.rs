use recipe_media::video::state_machine::{ExtractionState, StateAction, StateConfig, StateMachine};

#[test]
fn test_scanning_to_locked() {
    let mut sm = StateMachine::new();

    assert!(matches!(
        sm.current_state(),
        ExtractionState::Scanning { .. }
    ));

    let action = sm.process_frame(true, false);
    assert!(matches!(sm.current_state(), ExtractionState::Locked { .. }));
    assert_eq!(action, StateAction::Continue);
}

#[test]
fn test_locked_to_extract() {
    let config = StateConfig {
        min_lock_frames: 2,
        ..Default::default()
    };
    let mut sm = StateMachine::with_config(config);

    sm.process_frame(true, false);
    let action = sm.process_frame(true, false);

    assert_eq!(action, StateAction::Extract);
    assert!(matches!(
        sm.current_state(),
        ExtractionState::Cooldown { .. }
    ));
}

#[test]
fn test_duplicate_frame_dropped() {
    let config = StateConfig {
        min_lock_frames: 1,
        cooldown_frames: 1,
        initial_skip: 3,
        ..Default::default()
    };
    let mut sm = StateMachine::with_config(config);

    let action1 = sm.process_frame(true, false);
    assert_eq!(action1, StateAction::Extract);
    assert!(matches!(
        sm.current_state(),
        ExtractionState::Cooldown { .. }
    ));

    sm.process_frame(false, false);
    assert!(matches!(
        sm.current_state(),
        ExtractionState::Scanning { .. }
    ));

    let action2 = sm.process_frame(true, true);
    assert_eq!(action2, StateAction::Drop);
}

#[test]
fn test_cooldown_to_scanning() {
    let config = StateConfig {
        min_lock_frames: 1,
        cooldown_frames: 2,
        initial_skip: 3,
        ..Default::default()
    };
    let mut sm = StateMachine::with_config(config);

    sm.process_frame(true, false);
    assert!(matches!(
        sm.current_state(),
        ExtractionState::Cooldown {
            remaining_frames: 2
        }
    ));

    sm.process_frame(false, false);
    assert!(matches!(
        sm.current_state(),
        ExtractionState::Cooldown {
            remaining_frames: 1
        }
    ));

    sm.process_frame(false, false);
    assert!(matches!(
        sm.current_state(),
        ExtractionState::Scanning { skip_count: 3 }
    ));
}

#[test]
fn test_scanning_skip_increment() {
    let config = StateConfig {
        initial_skip: 2,
        max_skip: 5,
        ..Default::default()
    };
    let mut sm = StateMachine::with_config(config);

    let action1 = sm.process_frame(false, false);
    assert!(matches!(action1, StateAction::SkipFrames(2)));
    assert!(matches!(
        sm.current_state(),
        ExtractionState::Scanning { skip_count: 3 }
    ));

    let action2 = sm.process_frame(false, false);
    assert!(matches!(action2, StateAction::SkipFrames(3)));
    assert!(matches!(
        sm.current_state(),
        ExtractionState::Scanning { skip_count: 4 }
    ));
}

#[test]
fn skip_distance_stops_at_max_skip() {
    let config = StateConfig { initial_skip: 4, max_skip: 5, ..Default::default() };
    let mut sm = StateMachine::with_config(config);
    assert_eq!(sm.process_frame(false, false), StateAction::SkipFrames(4));
    assert_eq!(sm.process_frame(false, false), StateAction::SkipFrames(5));
    assert_eq!(sm.process_frame(false, false), StateAction::SkipFrames(5));
    assert_eq!(*sm.current_state(), ExtractionState::Scanning { skip_count: 5 });
    assert_eq!(sm.frame_count(), 3);
}

#[test]
fn locked_counter_at_its_limit_extracts() {
    let state = ExtractionState::Locked { consecutive_text_frames: u32::MAX };
    let config = StateConfig::default();
    let (next, action) = state.transition(true, false, &config);
    assert_eq!(next, ExtractionState::Cooldown { remaining_frames: 30 });
    assert_eq!(action, StateAction::Extract);
}

#[test]
fn locked_without_text_extracts_after_half_the_lock() {
    let config = StateConfig::default();
    let state = ExtractionState::Locked { consecutive_text_frames: 1 };
    let (next, action) = state.transition(false, true, &config);
    assert_eq!(next, ExtractionState::Cooldown { remaining_frames: 30 });
    assert_eq!(action, StateAction::Drop);
    let low = StateConfig::for_low_motion();
    let (next, action) = state.transition(false, false, &low);
    assert_eq!(next, ExtractionState::Scanning { skip_count: 8 });
    assert_eq!(action, StateAction::Continue);
}

#[test]
fn presets_hold_their_values() {
    let d = StateConfig::default();
    assert_eq!((d.initial_skip, d.max_skip, d.min_lock_frames, d.cooldown_frames), (5, 15, 3, 30));
    let h = StateConfig::for_high_motion();
    assert_eq!((h.initial_skip, h.max_skip, h.min_lock_frames, h.cooldown_frames), (2, 8, 2, 20));
    let l = StateConfig::for_low_motion();
    assert_eq!((l.initial_skip, l.max_skip, l.min_lock_frames, l.cooldown_frames), (8, 20, 5, 45));
}

#[test]
fn reset_returns_to_scanning() {
    let mut sm = StateMachine::with_config(StateConfig::for_high_motion());
    sm.process_frame(true, false);
    sm.reset();
    assert_eq!(*sm.current_state(), ExtractionState::new());
    assert_eq!(sm.frame_count(), 0);
}
