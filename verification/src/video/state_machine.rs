//! The sampling state machine of the single-frame pipeline.
//!
//! Long stretches without text widen the skip distance; once text shows up
//! the machine extracts promptly and then cools down, so that a subtitle that
//! stays on screen is not extracted again and again.

use vstd::prelude::*;

verus! {

/// What the caller should do with the frame that was just judged.
#[derive(Debug, Clone, Copy, PartialEq, Eq, Structural)]
pub enum StateAction {
    Continue,
    SkipFrames(u32),
    Extract,
    Drop,
}

/// Tuning of the state machine.
#[derive(Debug, Clone, Copy)]
pub struct StateConfig {
    pub initial_skip: u32,
    pub max_skip: u32,
    pub min_lock_frames: u32,
    pub cooldown_frames: u32,
}

#[derive(Debug, Clone, Copy, PartialEq, Eq, Structural)]
pub enum ExtractionState {
    Scanning { skip_count: u32 },
    Locked { consecutive_text_frames: u32 },
    Cooldown { remaining_frames: u32 },
}

/// The action taken when a frame is due for extraction.
pub open spec fn extract_unless_duplicate(is_duplicate: bool) -> StateAction {
    if is_duplicate {
        StateAction::Drop
    } else {
        StateAction::Extract
    }
}

impl StateConfig {
    /// Sparse scanning, three frames to lock, a long cooldown.
    pub open spec fn standard() -> StateConfig {
        StateConfig { initial_skip: 5, max_skip: 15, min_lock_frames: 3, cooldown_frames: 30 }
    }

    pub fn for_high_motion() -> (config: Self)
        ensures
            config == (StateConfig {
                initial_skip: 2,
                max_skip: 8,
                min_lock_frames: 2,
                cooldown_frames: 20,
            }),
    {
        StateConfig { initial_skip: 2, max_skip: 8, min_lock_frames: 2, cooldown_frames: 20 }
    }

    pub fn for_low_motion() -> (config: Self)
        ensures
            config == (StateConfig {
                initial_skip: 8,
                max_skip: 20,
                min_lock_frames: 5,
                cooldown_frames: 45,
            }),
    {
        StateConfig { initial_skip: 8, max_skip: 20, min_lock_frames: 5, cooldown_frames: 45 }
    }
}

impl Default for StateConfig {
    fn default() -> (config: Self)
        ensures
            config == StateConfig::standard(),
    {
        StateConfig { initial_skip: 5, max_skip: 15, min_lock_frames: 3, cooldown_frames: 30 }
    }
}

impl ExtractionState {
    /// The state that follows `self` and the action for the judged frame.
    ///
    /// A scanning machine compares the constant 1 with `min_lock_frames`, so
    /// with any `min_lock_frames` above 1 the first text frame only locks.
    pub open spec fn step(self, has_text: bool, is_duplicate: bool, config: StateConfig) -> (
        ExtractionState,
        StateAction,
    ) {
        let cooldown = ExtractionState::Cooldown { remaining_frames: config.cooldown_frames };
        let rescan = ExtractionState::Scanning { skip_count: config.initial_skip };
        match self {
            ExtractionState::Scanning { skip_count } => {
                if has_text {
                    if config.min_lock_frames <= 1 {
                        (cooldown, extract_unless_duplicate(is_duplicate))
                    } else {
                        (
                            ExtractionState::Locked { consecutive_text_frames: 1 },
                            StateAction::Continue,
                        )
                    }
                } else {
                    (
                        ExtractionState::Scanning {
                            skip_count: if skip_count + 1 <= config.max_skip {
                                (skip_count + 1) as u32
                            } else {
                                config.max_skip
                            },
                        },
                        StateAction::SkipFrames(skip_count),
                    )
                }
            },
            ExtractionState::Locked { consecutive_text_frames } => {
                if has_text {
                    if consecutive_text_frames + 1 >= config.min_lock_frames {
                        (cooldown, extract_unless_duplicate(is_duplicate))
                    } else {
                        (
                            ExtractionState::Locked {
                                consecutive_text_frames: (consecutive_text_frames + 1) as u32,
                            },
                            StateAction::Continue,
                        )
                    }
                } else if consecutive_text_frames >= config.min_lock_frames / 2 {
                    (cooldown, extract_unless_duplicate(is_duplicate))
                } else {
                    (rescan, StateAction::Continue)
                }
            },
            ExtractionState::Cooldown { remaining_frames } => {
                if remaining_frames <= 1 {
                    (rescan, StateAction::Continue)
                } else {
                    (
                        ExtractionState::Cooldown {
                            remaining_frames: (remaining_frames - 1) as u32,
                        },
                        StateAction::SkipFrames(1),
                    )
                }
            },
        }
    }

    pub fn new() -> (state: Self)
        ensures
            state == (ExtractionState::Scanning { skip_count: 5 }),
    {
        ExtractionState::Scanning { skip_count: 5 }
    }

    pub fn transition(&self, has_text: bool, is_duplicate: bool, config: &StateConfig) -> (next: (
        ExtractionState,
        StateAction,
    ))
        ensures
            next == self.step(has_text, is_duplicate, *config),
    {
        let on_extract = if is_duplicate {
            StateAction::Drop
        } else {
            StateAction::Extract
        };
        let cooldown = ExtractionState::Cooldown { remaining_frames: config.cooldown_frames };
        let rescan = ExtractionState::Scanning { skip_count: config.initial_skip };
        match *self {
            ExtractionState::Scanning { skip_count } => {
                if has_text {
                    if 1 >= config.min_lock_frames {
                        (cooldown, on_extract)
                    } else {
                        (
                            ExtractionState::Locked { consecutive_text_frames: 1 },
                            StateAction::Continue,
                        )
                    }
                } else {
                    let new_skip: u32 = if skip_count < config.max_skip {
                        skip_count + 1
                    } else {
                        config.max_skip
                    };
                    (
                        ExtractionState::Scanning { skip_count: new_skip },
                        StateAction::SkipFrames(skip_count),
                    )
                }
            },
            ExtractionState::Locked { consecutive_text_frames } => {
                if has_text {
                    if consecutive_text_frames == u32::MAX || consecutive_text_frames + 1
                        >= config.min_lock_frames {
                        (cooldown, on_extract)
                    } else {
                        (
                            ExtractionState::Locked {
                                consecutive_text_frames: consecutive_text_frames + 1,
                            },
                            StateAction::Continue,
                        )
                    }
                } else if consecutive_text_frames >= config.min_lock_frames / 2 {
                    (cooldown, on_extract)
                } else {
                    (rescan, StateAction::Continue)
                }
            },
            ExtractionState::Cooldown { remaining_frames } => {
                let new_remaining: u32 = remaining_frames.saturating_sub(1);
                if new_remaining == 0 {
                    (rescan, StateAction::Continue)
                } else {
                    (
                        ExtractionState::Cooldown { remaining_frames: new_remaining },
                        StateAction::SkipFrames(1),
                    )
                }
            },
        }
    }
}

/// A state, its configuration and the number of frames judged so far.
pub struct StateMachine {
    state: ExtractionState,
    config: StateConfig,
    frame_counter: u64,
}

impl StateMachine {
    pub closed spec fn state(&self) -> ExtractionState {
        self.state
    }

    pub closed spec fn config(&self) -> StateConfig {
        self.config
    }

    pub closed spec fn frames_seen(&self) -> nat {
        self.frame_counter as nat
    }

    pub fn new() -> (machine: Self)
        ensures
            machine.state() == (ExtractionState::Scanning { skip_count: 5 }),
            machine.config() == StateConfig::standard(),
            machine.frames_seen() == 0,
    {
        Self::with_config(StateConfig::default())
    }

    pub fn with_config(config: StateConfig) -> (machine: Self)
        ensures
            machine.state() == (ExtractionState::Scanning { skip_count: config.initial_skip }),
            machine.config() == config,
            machine.frames_seen() == 0,
    {
        StateMachine {
            state: ExtractionState::Scanning { skip_count: config.initial_skip },
            config,
            frame_counter: 0,
        }
    }

    /// Judges one frame: counts it, moves to the next state and returns the action.
    pub fn process_frame(&mut self, has_text: bool, is_duplicate: bool) -> (action: StateAction)
        requires
            old(self).frames_seen() < u64::MAX,
        ensures
            final(self).frames_seen() == old(self).frames_seen() + 1,
            final(self).config() == old(self).config(),
            final(self).state() == old(self).state().step(
                has_text,
                is_duplicate,
                old(self).config(),
            ).0,
            action == old(self).state().step(has_text, is_duplicate, old(self).config()).1,
    {
        self.frame_counter = self.frame_counter + 1;
        let (new_state, action) = self.state.transition(has_text, is_duplicate, &self.config);
        self.state = new_state;
        action
    }

    pub fn current_state(&self) -> (state: &ExtractionState)
        ensures
            *state == self.state(),
    {
        &self.state
    }

    pub fn frame_count(&self) -> (count: u64)
        ensures
            count == self.frames_seen(),
    {
        self.frame_counter
    }

    /// Back to the initial scanning state; the configuration stays.
    pub fn reset(&mut self)
        ensures
            final(self).state() == (ExtractionState::Scanning { skip_count: 5 }),
            final(self).config() == old(self).config(),
            final(self).frames_seen() == 0,
    {
        self.state = ExtractionState::new();
        self.frame_counter = 0;
    }
}

/// A cooldown of `remaining` frames ends after exactly `max(remaining, 1)`
/// judged frames, whatever the frames show, and hands back to scanning at
/// the initial skip distance.
pub proof fn lemma_cooldown_runs_out(remaining: u32, config: StateConfig, has_text: bool, dup: bool)
    ensures
        ({
            let state = ExtractionState::Cooldown { remaining_frames: remaining };
            let next = state.step(has_text, dup, config);
            &&& remaining <= 1 ==> next.0 == (ExtractionState::Scanning {
                skip_count: config.initial_skip,
            })
            &&& remaining > 1 ==> next.0 == (ExtractionState::Cooldown {
                remaining_frames: (remaining - 1) as u32,
            })
            &&& next.1 != StateAction::Extract
        }),
{
}

} // verus!
