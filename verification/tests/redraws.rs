//! The redraw cycle of an output.
use ewm_core::redraw::{RedrawState, RenderOutcome};

#[test]
fn requests_are_kept_in_every_state() {
    assert!(matches!(RedrawState::Idle.queue_redraw(), RedrawState::Queued));
    assert!(matches!(RedrawState::Queued.queue_redraw(), RedrawState::Queued));
    assert!(matches!(
        RedrawState::WaitingForVBlank { redraw_needed: false }.queue_redraw(),
        RedrawState::WaitingForVBlank { redraw_needed: true }
    ));
    assert!(matches!(
        RedrawState::WaitingForEstimatedVBlank(5).queue_redraw(),
        RedrawState::WaitingForEstimatedVBlankAndQueued(5)
    ));
    assert!(matches!(
        RedrawState::WaitingForEstimatedVBlankAndQueued(5).queue_redraw(),
        RedrawState::WaitingForEstimatedVBlankAndQueued(5)
    ));
}

#[test]
fn frames_lead_to_waiting() {
    assert!(matches!(
        RedrawState::after_render(RenderOutcome::FrameQueued),
        RedrawState::WaitingForVBlank { redraw_needed: false }
    ));
    assert!(matches!(
        RedrawState::after_render(RenderOutcome::NoDamage { timer: 3 }),
        RedrawState::WaitingForEstimatedVBlank(3)
    ));
    assert_eq!(RedrawState::WaitingForEstimatedVBlank(3).timer(), Some(3));
    assert_eq!(RedrawState::Queued.timer(), None);
}

#[test]
fn vblanks_take_requests_up() {
    let (next, render) = RedrawState::WaitingForVBlank { redraw_needed: true }.on_vblank();
    assert!(matches!(next, RedrawState::Queued));
    assert!(render);
    let (next, render) = RedrawState::WaitingForVBlank { redraw_needed: false }.on_vblank();
    assert!(matches!(next, RedrawState::Idle));
    assert!(!render);
    let (next, render) = RedrawState::WaitingForEstimatedVBlankAndQueued(1).on_estimated_vblank();
    assert!(matches!(next, RedrawState::Queued));
    assert_eq!(render, Some(true));
    let (next, render) = RedrawState::WaitingForEstimatedVBlank(1).on_estimated_vblank();
    assert!(matches!(next, RedrawState::Idle));
    assert_eq!(render, Some(false));
}

#[test]
fn states_have_names() {
    assert_eq!(RedrawState::Idle.name(), "Idle");
    assert_eq!(RedrawState::Queued.name(), "Queued");
}

#[test]
fn waiting_states_have_names() {
    assert_eq!(
        RedrawState::WaitingForVBlank { redraw_needed: true }.name(),
        "WaitingForVBlank(redraw=true)"
    );
    assert_eq!(
        RedrawState::WaitingForVBlank { redraw_needed: false }.name(),
        "WaitingForVBlank(redraw=false)"
    );
    assert_eq!(RedrawState::WaitingForEstimatedVBlank(1).name(), "WaitingForEstVBlank");
    assert_eq!(
        RedrawState::WaitingForEstimatedVBlankAndQueued(1).name(),
        "WaitingForEstVBlank+Queued"
    );
}
