//! Decisions of the capture loop. The loop that performs them (reading the
//! activation flag and the configuration, capturing the display, pressing
//! the key, sleeping) calls `step` with what happened and carries out the
//! returned action.
use vstd::prelude::*;
use crate::config::OcrConfig;
use crate::detect::{detect_white_blob, marker_present};
use crate::frame::{Frame, extract, clip_width, clip_height, region_luma};

verus! {

/// Pause while the loop is deactivated.
pub const IDLE_SLEEP_MS: u64 = 100;

/// Pause after a cycle that found no marker or had no image to look at.
pub const RETRY_SLEEP_MS: u64 = 50;

/// Pause after a key press, so one marker triggers one press.
pub const COOLDOWN_MS: u64 = 500;

/// Where the loop stands between two events.
#[derive(Debug, Clone, Copy, PartialEq, Eq)]
pub enum LoopState {
    /// About to read the activation flag and the configuration.
    Idle,
    /// A snapshot of the first display has been asked for; `region` is the
    /// copy of the configured rectangle taken for this cycle.
    Sampling { region: OcrConfig },
    /// A key press has been asked for.
    Cooldown,
}

/// What the loop reports back after carrying out an action.
pub enum LoopEvent {
    /// The activation flag and a copy of the configured rectangle.
    Polled { active: bool, region: OcrConfig },
    /// No display was listed, or the capture failed.
    FrameUnavailable,
    /// A snapshot of the first display.
    FrameCaptured { frame: Frame },
    /// The key press was attempted, whether or not it went through.
    KeySent,
}

/// What the loop does next.
#[derive(Debug, Clone, Copy, PartialEq, Eq)]
pub enum LoopAction {
    /// Sleep, then read the flag and the configuration again (`Polled`).
    Sleep { millis: u64 },
    /// Capture the first display (`FrameCaptured` or `FrameUnavailable`).
    Capture,
    /// Press the trigger key once (`KeySent`).
    PressKey,
}

impl LoopEvent {
    /// A captured snapshot holds four bytes per pixel.
    pub open spec fn wf(&self) -> bool {
        self matches LoopEvent::FrameCaptured { frame } ==> frame.wf()
    }
}

/// The marker is present in the part of `frame` that `region` selects.
pub open spec fn marker_in_region(frame: &Frame, region: OcrConfig) -> bool {
    let w = clip_width(frame, region);
    let h = clip_height(frame, region);
    w > 0 && h > 0 && marker_present(w, h, region_luma(frame, region))
}

/// The transition that `step` makes.
pub open spec fn step_spec(state: LoopState, event: LoopEvent) -> (LoopState, LoopAction) {
    match (state, event) {
        (LoopState::Idle, LoopEvent::Polled { active, region }) => if active {
            (LoopState::Sampling { region }, LoopAction::Capture)
        } else {
            (LoopState::Idle, LoopAction::Sleep { millis: IDLE_SLEEP_MS })
        },
        (LoopState::Sampling { region }, LoopEvent::FrameCaptured { frame }) => if marker_in_region(
            &frame,
            region,
        ) {
            (LoopState::Cooldown, LoopAction::PressKey)
        } else {
            (LoopState::Idle, LoopAction::Sleep { millis: RETRY_SLEEP_MS })
        },
        (LoopState::Cooldown, LoopEvent::KeySent) => (
            LoopState::Idle,
            LoopAction::Sleep { millis: COOLDOWN_MS },
        ),
        // A missing snapshot, or an event that does not answer the last
        // action: skip the cycle.
        _ => (LoopState::Idle, LoopAction::Sleep { millis: RETRY_SLEEP_MS }),
    }
}

/// One decision of the capture loop: the next state and the action to carry
/// out, from the current state and the event that the last action produced.
pub fn step(state: LoopState, event: LoopEvent) -> (r: (LoopState, LoopAction))
    requires
        event.wf(),
    ensures
        r == step_spec(state, event),
{
    match (state, event) {
        (LoopState::Idle, LoopEvent::Polled { active, region }) => {
            if active {
                (LoopState::Sampling { region }, LoopAction::Capture)
            } else {
                (LoopState::Idle, LoopAction::Sleep { millis: IDLE_SLEEP_MS })
            }
        },
        (LoopState::Sampling { region }, LoopEvent::FrameCaptured { frame }) => {
            let found = match extract(&frame, region) {
                Some(gray) => detect_white_blob(&gray),
                None => false,
            };
            if found {
                (LoopState::Cooldown, LoopAction::PressKey)
            } else {
                (LoopState::Idle, LoopAction::Sleep { millis: RETRY_SLEEP_MS })
            }
        },
        (LoopState::Cooldown, LoopEvent::KeySent) => {
            (LoopState::Idle, LoopAction::Sleep { millis: COOLDOWN_MS })
        },
        _ => (LoopState::Idle, LoopAction::Sleep { millis: RETRY_SLEEP_MS }),
    }
}

/// The actions that the loop carries out from `state` on, when the actions
/// produce `events` in turn.
pub open spec fn run(state: LoopState, events: Seq<LoopEvent>) -> Seq<LoopAction>
    decreases events.len(),
{
    if events.len() == 0 {
        Seq::empty()
    } else {
        let (next, action) = step_spec(state, events[0]);
        seq![action] + run(next, events.drop_first())
    }
}

/// While the activation flag reads false, every cycle is an idle sleep: the
/// loop never asks for a capture.
pub proof fn lemma_inactive_never_captures(events: Seq<LoopEvent>)
    requires
        forall|k: int| 0 <= k < events.len() ==> (#[trigger] events[k] matches LoopEvent::Polled { active, .. } && !active),
    ensures
        run(LoopState::Idle, events).len() == events.len(),
        forall|k: int|
            0 <= k < events.len() ==> #[trigger] run(LoopState::Idle, events)[k] == (LoopAction::Sleep { millis: IDLE_SLEEP_MS }),
    decreases events.len(),
{
    if events.len() > 0 {
        let rest = events.drop_first();
        assert forall|k: int| 0 <= k < rest.len() implies (#[trigger] rest[k] matches LoopEvent::Polled { active, .. } && !active) by {
            assert(rest[k] == events[k + 1]);
        }
        lemma_inactive_never_captures(rest);
        let acts = run(LoopState::Idle, events);
        assert forall|k: int| 0 <= k < events.len() implies #[trigger] acts[k] == (LoopAction::Sleep { millis: IDLE_SLEEP_MS }) by {
            if k > 0 {
                assert(acts[k] == run(LoopState::Idle, rest)[k - 1]);
            }
        }
    }
}

/// An active cycle whose snapshot shows the marker presses the key exactly
/// once and then sleeps for the cooldown before the next poll, whatever the
/// region and snapshot.
pub proof fn lemma_detection_presses_once(region: OcrConfig, frame: Frame)
    requires
        frame.wf(),
        marker_in_region(&frame, region),
    ensures
        run(
            LoopState::Idle,
            seq![
                LoopEvent::Polled { active: true, region },
                LoopEvent::FrameCaptured { frame },
                LoopEvent::KeySent,
            ],
        ) == seq![LoopAction::Capture, LoopAction::PressKey, LoopAction::Sleep { millis: COOLDOWN_MS }],
        step_spec(LoopState::Cooldown, LoopEvent::KeySent).0 == LoopState::Idle,
{
    let events = seq![
        LoopEvent::Polled { active: true, region },
        LoopEvent::FrameCaptured { frame },
        LoopEvent::KeySent,
    ];
    let e1 = events.drop_first();
    let e2 = e1.drop_first();
    assert(e1 =~= seq![LoopEvent::FrameCaptured { frame }, LoopEvent::KeySent]);
    assert(e2 =~= seq![LoopEvent::KeySent]);
    assert(e2.drop_first() =~= Seq::<LoopEvent>::empty());
    assert(run(LoopState::Idle, e2.drop_first()) =~= Seq::<LoopAction>::empty());
    assert(e2[0] == LoopEvent::KeySent);
    assert(run(LoopState::Cooldown, e2) =~= seq![LoopAction::Sleep { millis: COOLDOWN_MS }]);
    assert(run(LoopState::Sampling { region }, e1) =~= seq![LoopAction::PressKey, LoopAction::Sleep { millis: COOLDOWN_MS }]);
    assert(run(LoopState::Idle, events) =~= seq![LoopAction::Capture, LoopAction::PressKey, LoopAction::Sleep { millis: COOLDOWN_MS }]);
}

} // verus!
