//! Hardware, the window backend, the loop, and the standalone program.
use ewm_core::action::Action;
use ewm_core::backend::drm::{
    connector_name, fallback_formats, render_formats, Connector, DrmBackendState, DrmError,
    DrmMessage, PixelFormat, ScanEvent, SessionEvent,
};
use ewm_core::backend::events::{LoopEffect, LoopEvent};
use ewm_core::backend::headless::HeadlessBackend;
use ewm_core::backend::winit::{
    capture_screenshot, framebuffer_to_rgb, WindowEvent, WindowLoop, WinitBackend,
};
use ewm_core::backend::Backend;
use ewm_core::commands::command_batch;
use ewm_core::event::Event;
use ewm_core::geometry::{Point, Rectangle, Size};
use ewm_core::im_relay::ImEvent;
use ewm_core::input::KeyEvent;
use ewm_core::keys::Modifiers;
use ewm_core::module::{ModuleCommand, PointerLocation};
use ewm_core::output::{OutputChange, OutputConfig, VideoMode};
use ewm_core::outputs::Measured;
use ewm_core::pipewire::stream::{Cast, StreamState};
use ewm_core::protocols::{
    is_no_older_than, send_frame_callback, throttled_callback, token_created, SurfaceFrame,
};
use ewm_core::redraw::RenderOutcome;
use ewm_core::render::{DrawItem, ScreencopyRequest, WindowSize};
use ewm_core::standalone::drm_backend::{is_nested, Display, FrameResult, InitError};
use ewm_core::standalone::{Command, IpcEvent, KeyPress, KeyboardAction, ProgramEvent};
use ewm_core::{Ewm, RedrawState, State};

fn mode(width: u16, height: u16) -> VideoMode {
    VideoMode {
        width,
        height,
        vrefresh: 60,
        preferred: true,
    }
}

fn connected(name: &str, crtc: u32, output: u64, modes: Vec<VideoMode>) -> ScanEvent {
    ScanEvent::Connected {
        connector: Connector {
            name: name.to_string(),
            handle: 100 + crtc,
            modes,
            physical: Some((300, 200)),
        },
        crtc: Some(crtc),
        output,
        ready: true,
    }
}

/// Hardware with DP-1 (controller 1, output 11) and DP-2 (2, 12).
fn machine() -> (DrmBackendState, Ewm) {
    let mut drm = DrmBackendState::new();
    drm.session = true;
    drm.init_sender = true;
    drm.loop_handle = true;
    let mut ewm = Ewm::new();
    ewm.set_stop_signal();
    let found = vec![
        connected("DP-1", 1, 11, vec![mode(1000, 500)]),
        connected("DP-2", 2, 12, vec![mode(800, 600), mode(640, 480)]),
    ];
    drm.initialize_drm(&mut ewm, &found).unwrap();
    (drm, ewm)
}

fn names(ewm: &mut Ewm) -> Vec<String> {
    let mut all = vec![];
    while let Some(e) = ewm.module.pop_event() {
        all.push(match e {
            Event::OutputDetected(o) => format!("+{}", o.name),
            Event::OutputDisconnected { name } => format!("-{}", name),
            Event::OutputsComplete => "complete".to_string(),
            Event::Ready => "ready".to_string(),
            _ => "other".to_string(),
        });
    }
    all
}

fn redraw(ewm: &Ewm, output: u64) -> RedrawState {
    ewm.state_of(output).unwrap().redraw_state
}

#[test]
fn set_up_maps_all_outputs_side_by_side() {
    let (mut drm, mut ewm) = machine();
    assert!(drm.is_initialized());
    assert_eq!(ewm.space.outputs[1].loc, Point { x: 1000, y: 0 });
    assert_eq!(ewm.output_size, Size { w: 1800, h: 600 });
    assert_eq!(names(&mut ewm), vec!["+DP-1", "+DP-2", "complete", "ready"]);
    assert_eq!(ewm.dbus_outputs.len(), 2);
    assert_eq!(ewm.outputs[0].modes[0].refresh, 60_000);
    assert_eq!(drm.initialize_drm(&mut ewm, &vec![]), Err(DrmError::AlreadyInitialized));
    assert!(names(&mut ewm).is_empty());
    let mut other = DrmBackendState::new();
    let mut fresh = Ewm::new();
    assert_eq!(
        other.initialize_drm(&mut fresh, &vec![connected("DP-1", 1, 11, vec![])]),
        Err(DrmError::NoMode)
    );
    assert!(!other.is_initialized());
    assert!(names(&mut fresh).is_empty());
    assert_eq!(other.initialize_drm(&mut fresh, &vec![]), Err(DrmError::AlreadyInitialized));
    let connector = Connector {
        name: "DP-1".to_string(),
        handle: 5,
        modes: vec![mode(100, 100)],
        physical: None,
    };
    assert_eq!(other.connect_output(&connector, 1, 11, &mut fresh), Err(DrmError::NotInitialized));
    let mut other = DrmBackendState::new();
    let refused = ScanEvent::Connected {
        connector,
        crtc: Some(1),
        output: 11,
        ready: false,
    };
    assert_eq!(
        other.initialize_drm(&mut fresh, &vec![refused]),
        Err(DrmError::SurfaceFailed)
    );
    let mut other = DrmBackendState::new();
    other.session = false;
    assert_eq!(other.initialize_drm(&mut fresh, &vec![]), Err(DrmError::NoSession));
    assert_eq!(other.initialize_drm(&mut fresh, &vec![]), Err(DrmError::AlreadyInitialized));
}

#[test]
fn sessions_pause_and_resume() {
    let mut drm = DrmBackendState::new();
    drm.init_sender = true;
    let mut ewm = Ewm::new();
    assert_eq!(
        drm.handle_session_event(SessionEvent::ActivateSession, &mut ewm),
        Some(DrmMessage::InitializeDrm)
    );
    let (mut drm, mut ewm) = machine();
    ewm.render_done(11, RenderOutcome::NoDamage { timer: 7 });
    ewm.take_actions();
    assert_eq!(drm.handle_session_event(SessionEvent::PauseSession, &mut ewm), None);
    assert!(drm.paused);
    assert!(matches!(redraw(&ewm, 11), RedrawState::Idle));
    assert!(ewm.take_actions().contains(&Action::CancelTimer { timer: 7 }));
    assert_eq!(drm.should_render(&ewm, 1, true), None);
    assert_eq!(drm.handle_session_event(SessionEvent::ActivateSession, &mut ewm), None);
    assert!(matches!(redraw(&ewm, 11), RedrawState::Queued));
}

#[test]
fn frames_go_round() {
    let (mut drm, mut ewm) = machine();
    ewm.take_actions();
    drm.redraw_queued_outputs(&mut ewm);
    assert_eq!(
        ewm.take_actions(),
        vec![Action::Render { output: 11 }, Action::Render { output: 12 }]
    );
    ewm.render_done(11, RenderOutcome::FrameQueued);
    assert!(matches!(redraw(&ewm, 11), RedrawState::WaitingForVBlank { redraw_needed: false }));
    ewm.queue_redraw(11);
    ewm.take_actions();
    drm.on_vblank(1, &mut ewm);
    assert_eq!(ewm.take_actions(), vec![Action::Render { output: 11 }]);
    assert_eq!(ewm.frame_sequence(11), 1);
    ewm.render_done(12, RenderOutcome::NoDamage { timer: 4 });
    ewm.take_actions();
    drm.on_estimated_vblank_timer(2, &mut ewm);
    assert_eq!(ewm.take_actions(), vec![Action::SendFrames { output: 12 }]);
    assert!(matches!(redraw(&ewm, 12), RedrawState::Idle));
    assert_eq!(drm.estimated_vblank_timer(1, 16_666), Some(16_666));
    assert_eq!(drm.estimated_vblank_timer(9, 16_666), None);
}

fn free_area() -> Rectangle {
    Rectangle::from_size(Size { w: 1000, h: 500 })
}

#[test]
fn a_frame_is_planned_and_followed_up() {
    let (drm, mut ewm) = machine();
    ewm.handle_new_toplevel(20, None, Some("app".to_string()), None);
    ewm.layout(1, 10, 10, 50, 50);
    let sizes = vec![WindowSize { window: 20, size: Size { w: 50, h: 50 } }];
    let (windows, frame) = drm.render_output(&ewm, 1, true, free_area(), &sizes, &vec![]);
    assert_eq!(windows.len(), 1);
    let frame = frame.unwrap();
    assert_eq!((frame.output, frame.refresh_interval_us), (11, 16_666));
    assert_eq!(
        frame.plan,
        vec![DrawItem::Cursor, DrawItem::Window { window: 20, at: Point { x: 10, y: 10 } }]
    );
    assert!(drm.render_output(&ewm, 1, false, free_area(), &sizes, &vec![]).1.is_none());
    assert!(drm.render_output(&ewm, 7, true, free_area(), &sizes, &vec![]).1.is_none());
    let request = ScreencopyRequest {
        id: 1,
        output: 11,
        with_damage: false,
        size: Size { w: 1000, h: 500 },
        region: Point { x: 0, y: 0 },
    };
    let mut cast = Cast::new(1000, 500, 60, "DP-1".to_string());
    cast.state_changed(StreamState::Streaming);
    ewm.cast_created(8, cast);
    let after = drm.frame_finished(
        &mut ewm,
        11,
        "DP-1",
        RenderOutcome::Failed,
        vec![vec![request]],
        free_area(),
        &sizes,
        &vec![],
        9,
    );
    assert_eq!(after.queues.len(), 1);
    assert!(after.copies.is_empty() && after.casts.is_empty());
    assert!(matches!(redraw(&ewm, 11), RedrawState::Idle));
    ewm.queue_redraw(11);
    let after = drm.frame_finished(
        &mut ewm,
        11,
        "DP-1",
        RenderOutcome::FrameQueued,
        after.queues,
        free_area(),
        &sizes,
        &vec![],
        9,
    );
    assert_eq!(after.copies, vec![request]);
    assert_eq!(after.copy_plan.len(), 2);
    assert_eq!(after.casts, vec![0]);
    assert!(after.queues[0].is_empty());
    // The next frame waits for the vertical blank.
    ewm.queue_redraw(11);
    assert!(drm.render_output(&ewm, 1, true, free_area(), &sizes, &vec![]).1.is_none());
}

#[test]
fn outputs_come_and_go() {
    let (mut drm, mut ewm) = machine();
    names(&mut ewm);
    ewm.cast_created(3, Cast::new(1, 1, 60, "DP-1".to_string()));
    let found = vec![
        ScanEvent::Disconnected { crtc: Some(1) },
        connected("DP-3", 3, 13, vec![mode(100, 100)]),
    ];
    assert_eq!(drm.on_device_changed(&mut ewm, &found), vec![1]);
    assert_eq!(names(&mut ewm), vec!["-DP-1"]);
    assert!(ewm.take_actions().contains(&Action::StopCast { session_id: 3 }));
    assert!(ewm.screen_casts.is_empty());
    assert!(ewm.state_of(11).is_none());
    assert_eq!(ewm.output_size, Size { w: 1800, h: 600 });
    let connector = Connector {
        name: "DP-3".to_string(),
        handle: 5,
        modes: vec![mode(100, 100)],
        physical: None,
    };
    assert!(drm.connect_output(&connector, 3, 13, &mut ewm).is_ok());
    assert_eq!(names(&mut ewm), vec!["+DP-3"]);
    assert_eq!(ewm.space.outputs.last().unwrap().loc, Point { x: 1800, y: 0 });
    drm.disconnect_output(3, &mut ewm);
    assert_eq!(names(&mut ewm), vec!["-DP-3"]);
}

#[test]
fn modes_are_set() {
    let (mut drm, mut ewm) = machine();
    let modes = vec![mode(800, 600), mode(640, 480)];
    let size = Size { w: 640, h: 480 };
    assert!(!drm.set_mode(&mut ewm, "DP-2", &modes, 1, 1, None, true, size));
    assert!(!drm.set_mode(&mut ewm, "DP-9", &modes, 640, 480, None, true, size));
    assert!(drm.set_mode(&mut ewm, "DP-2", &modes, 640, 480, None, true, size));
    assert_eq!(ewm.space.outputs[1].mode, size);
    assert!(matches!(redraw(&ewm, 12), RedrawState::Queued));
}

#[test]
fn names_and_formats() {
    assert_eq!(connector_name("DP", 3), "DP-3");
    let format = |modifier: u64| PixelFormat { code: 1, modifier };
    let ccs = 0x0100_0000_0000_0004;
    let kept = render_formats(&vec![format(0), format(ccs), format(0x00ff_ffff_ffff_ffff)]);
    assert_eq!(kept.len(), 2);
    let fallback = fallback_formats(&kept);
    assert_eq!(fallback.len(), 1);
    assert_eq!(fallback[0].modifier, 0x00ff_ffff_ffff_ffff);
}

#[test]
fn the_loop_takes_events() {
    let (mut drm, mut ewm) = machine();
    ewm.take_actions();
    assert!(matches!(
        drm.handle_event(&mut ewm, LoopEvent::DeviceAdded { tap_finger_count: 3 }),
        LoopEffect::EnableNaturalScroll
    ));
    let key = |keysym: u32, mods: Modifiers| LoopEvent::Key {
        event: KeyEvent {
            pressed: true,
            modified: keysym,
            raw_latin: Some(keysym),
            mods,
            utf8: String::new(),
        },
        layout: 0,
    };
    let none = Modifiers { ctrl: false, alt: false, shift: false, logo: false };
    assert!(matches!(
        drm.handle_event(&mut ewm, key(0x1008fe02, none)),
        LoopEffect::ChangeVt { vt: 2 }
    ));
    let kill = Modifiers { ctrl: false, alt: false, shift: true, logo: true };
    drm.handle_event(&mut ewm, key('e' as u32, kill));
    assert_eq!(ewm.take_actions(), vec![Action::StopLoop]);
    let location = PointerLocation {
        x_bits: 1.0f64.to_bits(),
        y_bits: 2.0f64.to_bits(),
        cell: Point { x: 1, y: 2 },
        floor: Point { x: 1, y: 2 },
    };
    drm.handle_event(&mut ewm, LoopEvent::PointerMotion { location });
    assert_eq!(ewm.pointer_location.cell, Point { x: 1, y: 2 });
    assert!(matches!(
        drm.handle_event(
            &mut ewm,
            LoopEvent::StartCast { session_id: 4, output_name: "DP-2".to_string(), available: true }
        ),
        LoopEffect::CreateCast { session_id: 4, width: 800, height: 600, refresh: 60 }
    ));
    assert!(matches!(
        drm.handle_event(
            &mut ewm,
            LoopEvent::StartCast { session_id: 4, output_name: "DP-2".to_string(), available: false }
        ),
        LoopEffect::Nothing
    ));
    ewm.cast_created(4, Cast::new(800, 600, 60, "DP-2".to_string()));
    drm.handle_event(&mut ewm, LoopEvent::CastServiceFailed);
    assert!(ewm.screen_casts.is_empty());
    assert!(matches!(
        drm.handle_event(&mut ewm, LoopEvent::ConnectorsChanged { found: vec![] }),
        LoopEffect::Connect { found } if found.is_empty()
    ));
}

#[test]
fn casts_take_frames_of_their_output() {
    let (_, mut ewm) = machine();
    let mut cast = Cast::new(1000, 500, 60, "DP-1".to_string());
    cast.state_changed(StreamState::Streaming);
    ewm.cast_created(8, cast);
    assert_eq!(ewm.casts_due("DP-1", 5).len(), 1);
    assert!(ewm.casts_due("DP-2", 5).is_empty());
    ewm.take_actions();
    ewm.stop_cast(8);
    assert_eq!(ewm.take_actions(), vec![Action::StopCast { session_id: 8 }]);
    ewm.stop_cast(8);
    assert!(ewm.take_actions().is_empty());
}

#[test]
fn backends_tell_what_they_are() {
    let mut backend = Backend::Headless(HeadlessBackend::new());
    assert!(backend.is_headless() && !backend.is_drm());
    assert!(backend.as_headless().is_some() && backend.as_drm().is_none());
    assert!(backend.as_headless_mut().is_some());
    assert!(backend.as_drm_mut().is_none());
    let mut backend = Backend::Drm(DrmBackendState::new());
    assert!(backend.is_drm());
    backend.as_drm_mut().unwrap().paused = true;
    assert!(backend.as_drm().unwrap().paused);
    let mut ewm = Ewm::new();
    backend.early_import(&mut ewm, 3);
    assert!(ewm.take_actions().is_empty());
    assert!(!backend.has_queued_redraws(&ewm));
}

#[test]
fn a_turn_carries_everything_out() {
    let (drm, mut ewm) = machine();
    ewm.handle_new_toplevel(20, None, None, None);
    ewm.pending_early_imports.push(20);
    ewm.module.push_command(ModuleCommand::Focus { id: 1 });
    ewm.module.stop_requested = true;
    ewm.take_actions();
    names(&mut ewm);
    let mut state = State {
        backend: Backend::Drm(drm),
        ewm,
    };
    assert!(state.refresh_and_flush_clients(&vec![ImEvent::Activated, ImEvent::Activated]));
    assert_eq!(
        state.ewm.take_actions(),
        vec![
            Action::StopLoop,
            Action::SetKeyboardFocus { surface: Some(20) },
            Action::EarlyImport { surface: 20 },
            Action::Render { output: 11 },
            Action::Render { output: 12 },
        ]
    );
    assert!(state.ewm.text_input_active);
    assert!(matches!(state.ewm.module.pop_event(), Some(Event::TextInputActivated)));
    assert!(state.ewm.module.pop_event().is_none());
}

#[test]
fn frame_callbacks_come_once_a_cycle() {
    let (mut drm, mut ewm) = machine();
    ewm.handle_new_toplevel(20, None, None, None);
    let frame = |root: u64, primary: Option<u64>| SurfaceFrame {
        root,
        primary,
        last_sent: None,
        overdue_at: Some(1_000),
    };
    let mut surfaces = vec![frame(20, Some(11)), frame(20, Some(12)), frame(99, Some(11)), frame(20, None)];
    assert_eq!(ewm.send_frame_callbacks(11, &mut surfaces, 2_000), vec![true, false, false, false]);
    assert_eq!(ewm.send_frame_callbacks(11, &mut surfaces, 2_000), vec![false, false, false, false]);
    ewm.render_done(11, RenderOutcome::FrameQueued);
    drm.on_vblank(1, &mut ewm);
    assert_eq!(ewm.send_frame_callbacks(11, &mut surfaces, 3_000), vec![true, false, false, false]);
    let mut last = None;
    assert!(send_frame_callback(Some(1), &mut last, 1, 0));
    assert!(!send_frame_callback(Some(1), &mut last, 1, 0));
    assert!(send_frame_callback(Some(1), &mut last, 1, 1));
}

#[test]
fn an_overdue_surface_gets_a_frame_callback() {
    let (_, mut ewm) = machine();
    ewm.handle_new_toplevel(20, None, None, None);
    let hidden = SurfaceFrame {
        root: 20,
        primary: None,
        last_sent: None,
        overdue_at: None,
    };
    let gone = SurfaceFrame { root: 99, ..hidden };
    let mut surfaces = vec![hidden, gone];
    assert_eq!(ewm.send_frame_callbacks(11, &mut surfaces, 7), vec![true, false]);
    assert_eq!(surfaces[0].overdue_at, Some(7));
    assert_eq!(surfaces[0].last_sent, None);
    assert_eq!(ewm.send_frame_callbacks(11, &mut surfaces, 7 + 995_000_000), vec![false, false]);
    assert_eq!(ewm.send_frame_callbacks(11, &mut surfaces, 3), vec![false, false]);
    assert_eq!(ewm.send_frame_callbacks(11, &mut surfaces, 8 + 995_000_000), vec![true, false]);
    let mut last = None;
    assert!(throttled_callback(&mut last, 5));
    assert!(!throttled_callback(&mut last, 5));
    assert_eq!(last, Some(5));
}

#[test]
fn outputs_do_not_share_frame_timing() {
    let (mut drm, mut ewm) = machine();
    ewm.render_done(11, RenderOutcome::FrameQueued);
    ewm.render_done(12, RenderOutcome::FrameQueued);
    ewm.queue_redraw(12);
    drm.on_vblank(1, &mut ewm);
    assert!(matches!(redraw(&ewm, 11), RedrawState::Idle));
    assert!(matches!(redraw(&ewm, 12), RedrawState::WaitingForVBlank { redraw_needed: true }));
    assert_eq!(ewm.state_of(11).unwrap().frame_callback_sequence, 1);
    assert_eq!(ewm.state_of(12).unwrap().frame_callback_sequence, 0);
    let idle = DrmBackendState::new();
    assert!(idle.should_render(&ewm, 1, true).is_none());
}

#[test]
fn a_connected_output_gets_its_stored_configuration() {
    let (mut drm, mut ewm) = machine();
    ewm.output_config.insert(
        "DP-3".to_string(),
        OutputConfig {
            position: Some((5, 7)),
            ..OutputConfig::default()
        },
    );
    ewm.take_actions();
    let connector = Connector {
        name: "DP-3".to_string(),
        handle: 103,
        modes: vec![mode(100, 100)],
        physical: None,
    };
    drm.connect_output(&connector, 3, 13, &mut ewm).unwrap();
    assert_eq!(
        ewm.take_actions(),
        vec![
            Action::MapOutput { output: 13, x: 1800, y: 0 },
            Action::ApplyOutputConfig { name: "DP-3".to_string() },
        ]
    );
    let size = Size { w: 100, h: 100 };
    ewm.apply_output_config(
        "DP-3",
        &Measured {
            size,
            zone: Rectangle::from_size(size),
            places: vec![],
        },
    );
    assert_eq!(ewm.space.outputs[2].loc, Point { x: 5, y: 7 });
}

#[test]
fn a_paused_session_draws_nothing() {
    let (mut drm, mut ewm) = machine();
    ewm.queue_redraw(11);
    assert!(drm.should_render(&ewm, 1, true).is_some());
    drm.pause(&mut ewm);
    ewm.queue_redraw(11);
    assert!(drm.should_render(&ewm, 1, true).is_none());
    ewm.queue_redraw_all();
    assert!(drm.should_render(&ewm, 1, true).is_none());
}

#[test]
fn a_batch_ends_where_the_display_side_has_to_act() {
    let (drm, mut ewm) = machine();
    let change = |x: Option<i32>, y: Option<i32>| OutputChange {
        x,
        y,
        width: None,
        height: None,
        refresh: None,
        scale: None,
        transform: None,
        enabled: None,
    };
    let place = |x: Option<i32>, y: Option<i32>| ModuleCommand::ConfigureOutput {
        name: "DP-1".to_string(),
        change: change(x, y),
    };
    ewm.handle_new_toplevel(20, None, None, None);
    ewm.module.push_command(ModuleCommand::Focus { id: 1 });
    ewm.module.push_command(ModuleCommand::TextInputIntercept { enabled: true });
    ewm.module.push_command(place(Some(100), None));
    ewm.module.push_command(place(None, Some(50)));
    ewm.module.push_command(ModuleCommand::ConfigureXkb { layouts: "us,de".to_string(), options: None });
    ewm.module.push_command(ModuleCommand::SwitchLayout { layout: "de".to_string() });
    let size = Size { w: 1000, h: 500 };
    let measured = Measured {
        size,
        zone: Rectangle::from_size(size),
        places: vec![],
    };
    let mut state = State {
        backend: Backend::Drm(drm),
        ewm,
    };
    assert_eq!(command_batch(&state.ewm.module.commands), 3);
    state.ewm.take_actions();
    for (left, wanted) in [(3, Point { x: 100, y: 0 }), (2, Point { x: 100, y: 50 })] {
        let done = if left == 3 {
            state.refresh_and_flush_clients(&vec![])
        } else {
            state.resume_turn(&vec![])
        };
        assert!(!done);
        assert_eq!(state.ewm.module.commands.len(), left);
        // The keyboard and the outputs wait for the remaining commands.
        assert_eq!(
            state.ewm.take_actions(),
            vec![Action::ApplyOutputConfig { name: "DP-1".to_string() }]
        );
        assert!(state.ewm.keyboard_focus_dirty);
        state.ewm.apply_output_config("DP-1", &measured);
        state.ewm.take_actions();
        assert_eq!(state.ewm.space.outputs[0].loc, wanted);
    }
    assert!(state.ewm.text_input_intercept);
    assert!(!state.resume_turn(&vec![]));
    assert_eq!(state.ewm.module.commands.len(), 1);
    state.ewm.xkb_configured("us,de");
    assert!(state.resume_turn(&vec![]));
    assert!(state.ewm.module.commands.is_empty());
    assert_eq!(state.ewm.xkb_current_layout, 1);
    assert!(!state.ewm.keyboard_focus_dirty);
    assert_eq!(state.ewm.keyboard_focus, Some(20));
    assert!(state.ewm.take_actions().contains(&Action::Render { output: 11 }));
}

#[test]
fn a_turn_waits_for_its_last_command_too() {
    let (drm, mut ewm) = machine();
    ewm.handle_new_toplevel(20, None, None, None);
    ewm.module.push_command(ModuleCommand::Focus { id: 1 });
    ewm.module.push_command(ModuleCommand::GetState);
    ewm.take_actions();
    let mut state = State {
        backend: Backend::Drm(drm),
        ewm,
    };
    assert!(!state.refresh_and_flush_clients(&vec![ImEvent::Activated]));
    assert_eq!(state.ewm.take_actions(), vec![Action::ReportState]);
    assert!(!state.ewm.text_input_active);
    assert!(state.resume_turn(&vec![ImEvent::Activated]));
    assert!(state.ewm.text_input_active);
    assert_eq!(state.ewm.take_actions()[0], Action::SetKeyboardFocus { surface: Some(20) });
}

#[test]
fn activation_tokens_expire() {
    assert!(is_no_older_than(5, 5));
    assert!(is_no_older_than(6, 5));
    assert!(!is_no_older_than(4, 5));
    // Serials wrap around.
    assert!(is_no_older_than(1, u32::MAX));
    assert!(token_created(Some(6), true, Some(5)));
    assert!(!token_created(Some(4), true, Some(5)));
    assert!(!token_created(None, true, Some(5)));
    assert!(!token_created(Some(6), false, Some(5)));
    assert!(!token_created(Some(6), true, None));
    let (_, mut ewm) = machine();
    ewm.handle_new_toplevel(20, None, None, None);
    ewm.take_actions();
    ewm.request_activation(10_000, 20, 5);
    assert_eq!(ewm.focused_surface_id, 0);
    ewm.request_activation(9_999, 20, 6);
    assert_eq!(ewm.focused_surface_id, 1);
    assert_eq!(
        ewm.take_actions(),
        vec![Action::RemoveToken { token: 5 }, Action::RemoveToken { token: 6 }]
    );
}

#[test]
fn other_programs_are_told_of_windows() {
    let (_, mut ewm) = machine();
    ewm.set_emacs_pid(5);
    ewm.handle_new_toplevel(10, Some(5), None, None);
    ewm.handle_new_toplevel(20, Some(6), Some("app".to_string()), None);
    ewm.layout(2, 1100, 10, 5, 5);
    let windows = ewm.refresh_foreign_toplevel();
    assert_eq!(windows.len(), 1);
    assert_eq!(windows[0].app_id, "app");
    assert_eq!(windows[0].title, None);
    assert_eq!(windows[0].output, Some(12));
    assert!(!windows[0].is_focused);
    ewm.foreign_activate(20);
    assert!(ewm.refresh_foreign_toplevel()[0].is_focused);
    ewm.take_actions();
    ewm.foreign_close(20);
    assert_eq!(ewm.take_actions(), vec![Action::SendClose { window: 20 }]);
}

#[test]
fn the_clipboard_is_read_where_it_is_text() {
    let (_, mut ewm) = machine();
    ewm.take_actions();
    names(&mut ewm);
    let types = |t: &str| Some(vec![t.to_string()]);
    ewm.new_selection(false, types("text/plain"));
    ewm.new_selection(true, types("image/png"));
    ewm.new_selection(true, None);
    assert!(ewm.take_actions().is_empty());
    ewm.new_selection(true, types("text/plain;charset=utf-8"));
    assert_eq!(
        ewm.take_actions(),
        vec![Action::ReadSelection { mime_type: "text/plain;charset=utf-8".to_string() }]
    );
    ewm.selection_read("copied".to_string());
    assert!(matches!(ewm.module.pop_event(), Some(Event::SelectionChanged { text }) if text == "copied"));
}

#[test]
fn screenshots_are_turned_over() {
    // Two rows of two pixels: blue, green, red, unused.
    let pixels = vec![1, 2, 3, 0, 4, 5, 6, 0, 7, 8, 9, 0, 10, 11, 12, 0];
    assert_eq!(framebuffer_to_rgb(&pixels, 2, 2), vec![9, 8, 7, 12, 11, 10, 3, 2, 1, 6, 5, 4]);
    assert_eq!(
        capture_screenshot(&pixels, Size { w: 2, h: 2 }),
        Some(vec![9, 8, 7, 12, 11, 10, 3, 2, 1, 6, 5, 4])
    );
    assert_eq!(capture_screenshot(&pixels[..12].to_vec(), Size { w: 2, h: 2 }), None);
}

#[test]
fn the_window_is_an_output() {
    let _ = WinitBackend::new();
    let mut ewm = Ewm::new();
    ewm.window_opened(1, Size { w: 640, h: 480 });
    ewm.handle_new_toplevel(20, None, None, None);
    ewm.focus_surface(1, false);
    ewm.take_actions();
    let mut window = WindowLoop::new(1);
    window.handle_event(&mut ewm, WindowEvent::Resized { size: Size { w: 800, h: 600 } });
    assert_eq!(ewm.output_size, Size { w: 800, h: 600 });
    assert_eq!(ewm.take_actions(), vec![Action::Configure { window: 20, w: 800, h: 600 }]);
    window.handle_event(&mut ewm, WindowEvent::Focus { focused: false, pressed: vec![3] });
    assert_eq!(ewm.keyboard_focus, None);
    window.handle_event(&mut ewm, WindowEvent::Focus { focused: true, pressed: vec![] });
    assert_eq!(ewm.keyboard_focus, Some(20));
    ewm.handle_module_command(ModuleCommand::Screenshot { path: Some("/x.png".to_string()) });
    window.end_turn(&mut ewm);
    let step = window.frame_done(false, true);
    assert!(step.capture.is_none() && !step.submit);
    let step = window.frame_done(true, true);
    assert_eq!(step.capture, Some("/x.png".to_string()));
    assert!(!step.submit);
    assert!(window.frame_done(true, true).submit);
    assert!(!window.frame_done(true, false).submit);
    assert!(window.running);
    window.handle_event(&mut ewm, WindowEvent::ClientExited);
    assert!(!window.running);
}

fn none() -> Modifiers {
    Modifiers { ctrl: false, alt: false, shift: false, logo: false }
}

fn ctrl() -> Modifiers {
    Modifiers { ctrl: true, ..none() }
}

#[test]
fn standalone_surfaces_and_commands() {
    let mut ewm = ewm_core::standalone::Ewm::new();
    ewm.new_toplevel(10, None);
    ewm.new_toplevel(20, Some("app".to_string()));
    ewm.new_toplevel(30, None);
    let events = ewm.take_events();
    assert_eq!(events.len(), 2);
    assert!(matches!(&events[0], IpcEvent::New { id: 2, app } if app == "app"));
    assert!(matches!(&events[1], IpcEvent::New { id: 3, app } if app == "unknown"));
    assert_eq!(ewm.space.element_location(10), Some(Point { x: 0, y: 0 }));
    assert_eq!(ewm.space.element_location(20), Some(Point { x: -10000, y: -10000 }));
    ewm.take_actions();
    ewm.run_command(Command::Layout { id: 2, x: 1, y: 2, w: 3, h: 4 });
    ewm.run_command(Command::Close { id: 2 });
    ewm.run_command(Command::Focus { id: 2 });
    ewm.run_command(Command::Hide { id: 9 });
    assert_eq!(
        ewm.take_actions(),
        vec![
            Action::Place { window: 20, x: 1, y: 2, activate: true },
            Action::Raise { window: 20, activate: true },
            Action::Configure { window: 20, w: 3, h: 4 },
            Action::SendClose { window: 20 },
            Action::SetKeyboardFocus { surface: Some(20) },
        ]
    );
    ewm.run_command(Command::Hide { id: 2 });
    assert_eq!(ewm.space.element_location(20), Some(Point { x: -10000, y: -10000 }));
    ewm.toplevel_destroyed(30);
    assert!(matches!(ewm.take_events()[..], [IpcEvent::Close { id: 3 }]));
    ewm.toplevel_destroyed(30);
    assert!(ewm.take_events().is_empty());
    ewm.run_command(Command::Screenshot { path: None });
    let step = ewm.frame_done();
    assert_eq!(step.capture, Some("/tmp/ewm-screenshot.png".to_string()));
    assert!(!step.submit);
    assert!(ewm.frame_done().submit);
}

#[test]
fn standalone_prefix_keys_redirect() {
    let mut ewm = ewm_core::standalone::Ewm::new();
    ewm.new_toplevel(10, None);
    ewm.new_toplevel(20, None);
    ewm.run_command(Command::PrefixKeys {
        keys: vec!["C-x".to_string(), "nonsense".to_string(), "M-x".to_string()],
    });
    assert_eq!(ewm.prefix_keys.len(), 2);
    ewm.run_command(Command::Focus { id: 2 });
    ewm.take_actions();
    let key = KeyPress { pressed: true, keysym: 'x' as u32, mods: ctrl() };
    assert_eq!(ewm.handle_event(ProgramEvent::Key { event: key }), Some(KeyboardAction::RedirectToEmacs));
    assert_eq!(ewm.focused_surface_id, 1);
    assert_eq!(
        ewm.take_actions(),
        vec![Action::SetKeyboardFocus { surface: Some(10) }, Action::ResendKey]
    );
    assert_eq!(ewm.handle_event(ProgramEvent::Key { event: key }), Some(KeyboardAction::Forward));
    ewm.release_all_keys(&vec![9]);
    assert_eq!(ewm.keyboard_focus, None);
    ewm.restore_focus(2);
    assert_eq!(ewm.keyboard_focus, Some(20));
    let kill = KeyPress {
        pressed: true,
        keysym: 0xff08,
        mods: Modifiers { ctrl: true, alt: false, shift: false, logo: true },
    };
    assert!(ewm.running);
    assert_eq!(ewm.handle_event(ProgramEvent::Key { event: kill }), Some(KeyboardAction::Shutdown));
    assert!(!ewm.running);
}

#[test]
fn standalone_window_and_hardware() {
    let mut ewm = ewm_core::standalone::Ewm::new();
    ewm.new_toplevel(10, None);
    ewm.take_actions();
    ewm.handle_event(ProgramEvent::Resized { size: Size { w: 5, h: 6 } });
    assert_eq!(ewm.take_actions(), vec![Action::Configure { window: 10, w: 5, h: 6 }]);
    let mut drm = ewm_core::standalone::drm_backend::DrmBackendState::new();
    assert!(drm.needs_redraw() && !drm.is_initialized() && drm.due().is_empty());
    assert_eq!(
        drm.handle_session_event(SessionEvent::ActivateSession),
        Some(DrmMessage::InitializeDrm)
    );
    let display = |connected: bool, crtc: Option<u32>, modes: Vec<VideoMode>| Display {
        connected,
        crtc,
        modes,
        output: 1,
    };
    let displays = vec![
        display(false, None, vec![]),
        display(true, Some(4), vec![mode(1000, 500)]),
        display(true, Some(5), vec![mode(10, 10)]),
    ];
    assert_eq!(drm.initialize_drm(&displays, &mut ewm), Ok(()));
    assert_eq!(ewm.output_size, Size { w: 1000, h: 500 });
    assert_eq!(drm.due(), vec![4]);
    assert!(drm.can_render(4, true));
    assert!(!drm.can_render(5, true));
    assert!(!drm.can_render(4, false));
    assert_eq!(drm.initialize_drm(&displays, &mut ewm), Err(InitError::AlreadyInitialized));
    assert!(drm.frame_rendered(FrameResult::Empty));
    assert!(drm.needs_redraw());
    assert!(!drm.frame_rendered(FrameResult::Failed));
    assert!(drm.frame_rendered(FrameResult::Queued));
    assert!(!drm.needs_redraw());
    drm.queue_redraw();
    drm.handle_session_event(SessionEvent::PauseSession);
    assert!(drm.due().is_empty());
    drm.handle_session_event(SessionEvent::ActivateSession);
    assert_eq!(drm.due(), vec![4]);
    let mut failing = ewm_core::standalone::drm_backend::DrmBackendState::new();
    assert_eq!(
        failing.initialize_drm(&vec![display(true, None, vec![])], &mut ewm),
        Err(InitError::NoCrtc)
    );
    let mut failing = ewm_core::standalone::drm_backend::DrmBackendState::new();
    assert_eq!(
        failing.initialize_drm(&vec![display(true, Some(1), vec![])], &mut ewm),
        Err(InitError::NoMode)
    );
}

#[test]
fn nested_sessions_are_recognised() {
    assert!(is_nested(Some("wayland-0"), None));
    assert!(is_nested(None, Some(":0")));
    assert!(!is_nested(Some(""), Some("")));
    assert!(!is_nested(None, None));
}
