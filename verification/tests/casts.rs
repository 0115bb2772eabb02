//! Screen casts.
use ewm_core::dbus::screen_cast::{
    session_object_path, stream_object_path, ScreenCast, ScreenCastError, ScreenCastToCompositor,
};
use ewm_core::dbus::{find_output, OutputInfo};
use ewm_core::pipewire::stream::{
    plan_allocation, Allocation, Cast, CastState, OfferedFormat, OfferedModifier, ParamUpdate,
    StreamState, MODIFIER_INVALID,
};
use ewm_core::pipewire::{core_error, PwToCompositor};

fn info(name: &str) -> OutputInfo {
    OutputInfo {
        name: name.to_string(),
        x: 0,
        y: 0,
        width: 1920,
        height: 1080,
        refresh: 60,
    }
}

fn cast() -> Cast {
    Cast::new(1920, 1080, 60, "DP-1".to_string())
}

fn offer(modifier: OfferedModifier) -> OfferedFormat {
    OfferedFormat {
        width: 1920,
        height: 1080,
        max_rate_num: 30,
        max_rate_denom: 1,
        modifier,
    }
}

#[test]
fn object_paths_are_valid() {
    assert_eq!(
        session_object_path(0),
        Some("/org/gnome/Mutter/ScreenCast/Session/u0".to_string())
    );
    assert_eq!(
        stream_object_path(120),
        Some("/org/gnome/Mutter/ScreenCast/Stream/u120".to_string())
    );
}

#[test]
fn sessions_and_streams_are_numbered() {
    let mut service = ScreenCast::new();
    assert_eq!(service.version(), 4);
    assert!(matches!(service.request_session(true), Err(ScreenCastError::RemoteDesktop)));
    let (id, path) = service.request_session(false).unwrap();
    assert_eq!((id, path.as_str()), (0, "/org/gnome/Mutter/ScreenCast/Session/u0"));
    assert!(matches!(service.session_served(id, false), Err(ScreenCastError::PathExists)));
    let (id, _) = service.request_session(false).unwrap();
    assert_eq!(id, 1);
    let mut session = service.session_served(id, true).unwrap();
    assert_eq!(service.sessions, vec![1]);
    let outputs = vec![info("eDP-1"), info("DP-1")];
    assert!(matches!(
        service.record_monitor(&session, &outputs, "HDMI-1"),
        Err(ScreenCastError::OutputNotFound { name }) if name == "HDMI-1"
    ));
    let (mut stream, path) = service.record_monitor(&session, &outputs, "DP-1").unwrap();
    assert_eq!(path, "/org/gnome/Mutter/ScreenCast/Stream/u0");
    assert_eq!(stream.output.name, "DP-1");
    assert_eq!(stream.parameters(), ((0, 0), (1920, 1080)));
    stream.set_pipewire_node_id(9);
    assert_eq!(stream.pipewire_node_id, Some(9));
    assert!(matches!(
        session.stream_served(&stream, "DP-1", false),
        Err(ScreenCastError::PathExists)
    ));
    assert!(matches!(
        session.stream_served(&stream, "DP-1", true),
        Ok(ScreenCastToCompositor::StartCast { session_id: 1, output_name }) if output_name == "DP-1"
    ));
    assert!(matches!(session.stop(), ScreenCastToCompositor::StopCast { session_id: 1 }));
    assert_eq!(find_output(&outputs, "DP-1"), Some(1));
    assert_eq!(find_output(&outputs, "X"), None);
}

#[test]
fn the_node_is_announced_once() {
    let mut c = cast();
    assert!(!c.is_streaming());
    assert_eq!(c.state_changed(StreamState::Other), None);
    assert_eq!(c.state_changed(StreamState::Paused { node_id: 5 }), Some(5));
    assert_eq!(c.state_changed(StreamState::Streaming), None);
    assert!(c.is_streaming());
    assert_eq!(c.state_changed(StreamState::Paused { node_id: 6 }), None);
    assert_eq!(c.node_id, Some(5));
    assert!(!c.is_streaming());
    c.state_changed(StreamState::Streaming);
    c.state_changed(StreamState::Error);
    assert!(c.has_error());
    c.state_changed(StreamState::Streaming);
    assert!(!c.is_streaming());
}

#[test]
fn a_format_is_settled_in_two_steps() {
    let mut c = cast();
    assert_eq!(c.buffer_request(), None);
    let trial = c
        .format_offered(offer(OfferedModifier::Choice { alternatives: vec![7, 8] }))
        .unwrap();
    assert_eq!(c.min_time_between_frames, 33_333_000);
    assert!(trial.fixate);
    assert_eq!(trial.modifiers, vec![7, 8]);
    assert_eq!(c.trial_done(&trial, None), None);
    assert!(matches!(c.state, CastState::Pending));
    assert_eq!(
        c.trial_done(&trial, Some((8, 2))),
        Some(ParamUpdate::Format { width: 1920, height: 1080, refresh: 60, modifier: 8 })
    );
    let trial = c
        .format_offered(offer(OfferedModifier::Fixed { modifier: 8 }))
        .unwrap();
    assert!(!trial.fixate);
    assert_eq!(
        c.trial_done(&trial, Some((8, 2))),
        Some(ParamUpdate::Buffers { plane_count: 2 })
    );
    assert_eq!(c.buffer_request(), Some((1920, 1080, 8)));
    assert!(c.format_offered(offer(OfferedModifier::Malformed)).is_none());
}

#[test]
fn frames_keep_the_pace() {
    let mut c = cast();
    c.min_time_between_frames = 33_333_000;
    assert_eq!(c.compute_extra_delay(5), 0);
    c.last_frame_time = 1_000_000_000;
    assert_eq!(c.compute_extra_delay(1_000_000_000), 33_333_000);
    assert!(c.should_skip_frame(1_033_000_000));
    assert_eq!(c.compute_extra_delay(1_033_000_000), 333_000);
    // Close enough.
    assert!(!c.should_skip_frame(1_033_250_000));
    assert_eq!(c.compute_extra_delay(1_033_333_000), 0);
    assert_eq!(c.compute_extra_delay(5), 0);
}

#[test]
fn frames_need_a_buffer_of_the_cast() {
    let mut c = cast();
    assert_eq!(c.prepare_frame(1), None);
    let trial = c.format_offered(offer(OfferedModifier::Fixed { modifier: 0 })).unwrap();
    c.trial_done(&trial, Some((0, 1)));
    assert_eq!(c.prepare_frame(1), None);
    c.state_changed(StreamState::Streaming);
    assert_eq!(c.prepare_frame(1), Some((1920, 1080, true)));
    assert_eq!(c.prepare_frame(1), Some((1920, 1080, false)));
    assert_eq!(c.prepare_frame(2), Some((1920, 1080, true)));
    c.buffer_added(30);
    assert!(c.has_buffer(30));
    assert!(!c.frame_done(false, Some(30), true, 77));
    assert!(!c.frame_done(true, None, true, 77));
    assert!(!c.frame_done(true, Some(31), true, 77));
    assert!(!c.frame_done(true, Some(30), false, 77));
    assert_eq!(c.last_frame_time, 0);
    assert!(c.frame_done(true, Some(30), true, 77));
    assert_eq!(c.last_frame_time, 77);
    c.buffer_removed(30);
    assert!(!c.has_buffer(30));
}

#[test]
fn allocations_follow_the_modifiers() {
    let invalid = MODIFIER_INVALID as i64;
    assert!(matches!(plan_allocation(&vec![invalid]), Allocation::Implicit));
    assert!(matches!(
        plan_allocation(&vec![invalid, 3, -1]),
        Allocation::Explicit { modifiers } if modifiers == vec![3, u64::MAX]
    ));
}

#[test]
fn only_a_lost_connection_is_fatal() {
    assert_eq!(core_error(0, -32), Some(PwToCompositor::FatalError));
    assert_eq!(core_error(1, -32), None);
    assert_eq!(core_error(0, -2), None);
}
