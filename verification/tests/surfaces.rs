//! Toplevels, focus and commands of Emacs.
use ewm_core::action::Action;
use ewm_core::commands::deciding_view;
use ewm_core::event::Event;
use ewm_core::geometry::{Point, Rectangle, Size};
use ewm_core::module::{ModuleCommand, PointerLocation, SurfaceView};
use ewm_core::output::OutputChange;
use ewm_core::surfaces::{application_name, OFFSCREEN};
use ewm_core::testing::Fixture;
use ewm_core::Ewm;

const EMACS_PID: u32 = 4711;

/// Two outputs side by side, a frame of Emacs (1, window 10) and an
/// application (2, window 20).
fn desk() -> Fixture {
    let mut fixture = Fixture::new().unwrap();
    fixture.add_output("A", 1000, 500, Size { w: 1000, h: 500 });
    fixture.add_output("B", 800, 600, Size { w: 800, h: 600 });
    fixture.dispatch();
    let ewm = fixture.ewm();
    ewm.set_emacs_pid(EMACS_PID);
    ewm.handle_new_toplevel(10, Some(EMACS_PID as i32), Some("emacs".to_string()), None);
    ewm.handle_new_toplevel(20, Some(99), None, Some("foot\n".to_string()));
    fixture
}

fn events(ewm: &mut Ewm) -> Vec<Event> {
    let mut all = vec![];
    while let Some(e) = ewm.module.pop_event() {
        all.push(e);
    }
    all
}

fn view(x: i32, y: i32, active: bool) -> SurfaceView {
    SurfaceView {
        x,
        y,
        w: 300,
        h: 200,
        active,
    }
}

#[test]
fn toplevels_get_ids_in_turn() {
    let mut fixture = desk();
    let ewm = fixture.ewm();
    assert_eq!(ewm.surface_id(10), Some(1));
    assert_eq!(ewm.surface_id(20), Some(2));
    assert_eq!(ewm.surface_id(30), None);
    assert!(ewm.emacs_surfaces.contains(&1));
    assert!(!ewm.emacs_surfaces.contains(&2));
    assert!(!ewm.surface_info.contains_key(&1));
    assert_eq!(ewm.surface_info[&2].app_id, "foot");
    assert_eq!(ewm.space.element_location(20), Some(Point { x: OFFSCREEN, y: OFFSCREEN }));
    let told = events(ewm);
    assert_eq!(told.len(), 2);
    assert!(matches!(&told[0], Event::New { id: 1, app, output: Some(o) } if app == "emacs" && o == "A"));
    assert!(matches!(&told[1], Event::New { id: 2, app, .. } if app == "foot"));
}

#[test]
fn a_frame_goes_to_the_output_it_is_prepared_for() {
    let mut fixture = desk();
    let ewm = fixture.ewm();
    events(ewm);
    ewm.handle_module_command(ModuleCommand::PrepareFrame { output: "B".to_string() });
    ewm.take_actions();
    ewm.handle_new_toplevel(30, Some(EMACS_PID as i32), Some("emacs".to_string()), None);
    assert_eq!(ewm.space.element_location(30), Some(Point { x: 1000, y: 0 }));
    assert!(ewm.module.pending_frame_outputs.is_empty());
    let done = ewm.take_actions();
    assert_eq!(
        done,
        vec![
            Action::ConfigureNew { window: 30, w: 1800, h: 600 },
            Action::SendScale { surface: 30, output: 1 },
            Action::Place { window: 30, x: 1000, y: 0, activate: false },
            Action::Configure { window: 30, w: 800, h: 600 },
        ]
    );
    assert!(matches!(&events(ewm)[0], Event::New { id: 3, output: Some(o), .. } if o == "B"));
}

#[test]
fn applications_are_named() {
    let some = |s: &str| Some(s.to_string());
    assert_eq!(application_name(some("org.app"), some("comm\n")), "org.app");
    assert_eq!(application_name(None, some(" comm\n")), "comm");
    assert_eq!(application_name(None, None), "unknown");
}

#[test]
fn a_destroyed_toplevel_is_forgotten() {
    let mut fixture = desk();
    let ewm = fixture.ewm();
    ewm.set_views(2, vec![view(1, 2, true)]);
    events(ewm);
    assert_eq!(ewm.handle_toplevel_destroyed(20), None);
    assert_eq!(ewm.surface_id(20), None);
    assert!(!ewm.id_windows.contains_key(&2));
    assert!(!ewm.surface_info.contains_key(&2));
    assert!(!ewm.surface_views.contains_key(&2));
    assert_eq!(ewm.space.element_location(20), None);
    assert!(matches!(events(ewm)[..], [Event::Close { id: 2 }]));
    // The id is not given again.
    ewm.handle_new_toplevel(40, None, None, None);
    assert_eq!(ewm.surface_id(40), Some(3));
}

#[test]
fn focus_goes_back_to_emacs_on_the_same_output() {
    let mut fixture = desk();
    let ewm = fixture.ewm();
    ewm.layout(1, 1000, 0, 10, 10);
    ewm.layout(2, 1100, 50, 10, 10);
    ewm.focus_surface(2, false);
    assert_eq!(ewm.get_focused_output(), Some("B".to_string()));
    assert_eq!(ewm.handle_toplevel_destroyed(20), Some(1));
}

#[test]
fn descriptions_are_told_once() {
    let mut fixture = desk();
    let ewm = fixture.ewm();
    events(ewm);
    ewm.check_surface_info_changes(20, "foot".to_string(), "shell".to_string());
    ewm.check_surface_info_changes(20, "foot".to_string(), "shell".to_string());
    ewm.check_surface_info_changes(10, "emacs".to_string(), "scratch".to_string());
    let told = events(ewm);
    assert_eq!(told.len(), 1);
    assert!(matches!(&told[0], Event::Title { id: 2, app, title } if app == "foot" && title == "shell"));
}

#[test]
fn clicks_focus_and_tell_emacs_only_of_applications() {
    let mut fixture = desk();
    let ewm = fixture.ewm();
    events(ewm);
    ewm.handle_pointer_button(true, Some(20));
    assert_eq!(ewm.focused_surface_id, 2);
    assert_eq!(ewm.module.focused_id, 2);
    assert_eq!(ewm.keyboard_focus, Some(20));
    assert!(matches!(events(ewm)[..], [Event::Focus { id: 2 }]));
    ewm.handle_pointer_axis(Some(10));
    assert!(ewm.is_focus_on_emacs());
    assert!(events(ewm).is_empty());
    ewm.handle_pointer_button(false, Some(20));
    assert_eq!(ewm.focused_surface_id, 1);
    assert_eq!(ewm.module.focus_history.last().unwrap().source, "scroll");
    assert_eq!(ewm.module.focus_history.last().unwrap().context, None);
}

#[test]
fn a_moved_focus_is_recorded_with_its_source_and_context() {
    let mut fixture = desk();
    let ewm = fixture.ewm();
    ewm.focus_surface_with_source(2, true, "my own source", Some("a context"));
    ewm.focus_surface(1, false);
    let all: Vec<(u32, &str, Option<&str>)> = ewm
        .module
        .focus_history
        .iter()
        .map(|r| (r.id, r.source.as_str(), r.context.as_deref()))
        .collect();
    assert_eq!(
        all[all.len() - 2..],
        [(2, "my own source", Some("a context")), (1, "focus_surface", None)]
    );
}

#[test]
fn the_keyboard_follows_the_focus() {
    let mut fixture = desk();
    let ewm = fixture.ewm();
    ewm.take_actions();
    ewm.focus_surface(2, true);
    assert!(ewm.keyboard_focus_dirty);
    ewm.sync_keyboard_focus();
    assert_eq!(ewm.keyboard_focus, Some(20));
    assert_eq!(ewm.take_actions(), vec![Action::SetKeyboardFocus { surface: Some(20) }]);
    ewm.sync_keyboard_focus();
    assert!(ewm.take_actions().is_empty());
}

#[test]
fn layout_places_raises_and_configures() {
    let mut fixture = desk();
    let ewm = fixture.ewm();
    ewm.take_actions();
    ewm.handle_module_command(ModuleCommand::Layout { id: 2, x: 5, y: 6, w: 70, h: 80 });
    assert_eq!(
        ewm.take_actions(),
        vec![
            Action::Place { window: 20, x: 5, y: 6, activate: true },
            Action::Raise { window: 20, activate: true },
            Action::Configure { window: 20, w: 70, h: 80 },
        ]
    );
    assert_eq!(ewm.space.elements.last().unwrap().window, 20);
    assert!(ewm.has_queued_redraws());
    ewm.handle_module_command(ModuleCommand::Layout { id: 9, x: 5, y: 6, w: 70, h: 80 });
    assert!(ewm.take_actions().is_empty());
}

#[test]
fn the_active_view_decides() {
    assert_eq!(deciding_view(&vec![view(1, 1, false), view(2, 2, true)]), Some(view(2, 2, true)));
    assert_eq!(deciding_view(&vec![view(1, 1, false), view(2, 2, false)]), Some(view(1, 1, false)));
    assert_eq!(deciding_view(&vec![]), None);
    let mut fixture = desk();
    let ewm = fixture.ewm();
    let views = vec![view(1, 1, false), view(2, 2, true)];
    ewm.handle_module_command(ModuleCommand::Views { id: 2, views: views.clone() });
    assert_eq!(ewm.space.element_location(20), Some(Point { x: 2, y: 2 }));
    ewm.take_actions();
    ewm.handle_module_command(ModuleCommand::Views { id: 2, views });
    assert!(ewm.take_actions().is_empty());
    ewm.handle_module_command(ModuleCommand::Hide { id: 2 });
    assert_eq!(ewm.space.element_location(20), Some(Point { x: OFFSCREEN, y: OFFSCREEN }));
    ewm.take_actions();
    ewm.handle_module_command(ModuleCommand::Hide { id: 2 });
    assert!(ewm.take_actions().is_empty());
}

#[test]
fn surfaces_are_assigned_closed_and_focused() {
    let mut fixture = desk();
    let ewm = fixture.ewm();
    ewm.take_actions();
    ewm.handle_module_command(ModuleCommand::AssignOutput { id: 2, output: "B".to_string() });
    assert_eq!(ewm.space.element_location(20), Some(Point { x: 1000, y: 0 }));
    assert!(ewm.take_actions().contains(&Action::Configure { window: 20, w: 800, h: 600 }));
    ewm.handle_module_command(ModuleCommand::Close { id: 2 });
    assert_eq!(ewm.take_actions(), vec![Action::SendClose { window: 20 }]);
    ewm.handle_module_command(ModuleCommand::Focus { id: 2 });
    assert_eq!(ewm.focused_surface_id, 2);
    ewm.handle_module_command(ModuleCommand::Focus { id: 77 });
    assert_eq!(ewm.focused_surface_id, 2);
    assert_eq!(ewm.module.focus_history.len(), 1);
}

#[test]
fn output_configuration_is_stored_and_applied() {
    let mut fixture = desk();
    let ewm = fixture.ewm();
    ewm.take_actions();
    ewm.handle_module_command(ModuleCommand::ConfigureOutput {
        name: "B".to_string(),
        change: OutputChange {
            x: None,
            y: Some(40),
            width: None,
            height: None,
            refresh: None,
            scale: None,
            transform: None,
            enabled: None,
        },
    });
    assert_eq!(ewm.take_actions(), vec![Action::ApplyOutputConfig { name: "B".to_string() }]);
    assert_eq!(ewm.output_config.get("B").unwrap().position, Some((1000, 40)));
    let size = Size { w: 800, h: 600 };
    ewm.apply_output_config(
        "B",
        &ewm_core::outputs::Measured {
            size,
            zone: Rectangle::from_size(size),
            places: vec![],
        },
    );
    assert_eq!(ewm.space.outputs[1].loc, Point { x: 1000, y: 40 });
    assert_eq!(ewm.output_size, Size { w: 1800, h: 640 });
    let done = ewm.take_actions();
    assert!(done.contains(&Action::MapOutput { output: 2, x: 1000, y: 40 }));
    assert!(!done.contains(&Action::SendScale { surface: 10, output: 2 }));
}

#[test]
fn a_new_scale_is_told_to_surfaces_and_a_disabled_output_unmapped() {
    let mut fixture = desk();
    let ewm = fixture.ewm();
    let change = |scale: Option<u64>, enabled: Option<bool>| OutputChange {
        x: None,
        y: None,
        width: None,
        height: None,
        refresh: None,
        scale,
        transform: None,
        enabled,
    };
    let size = Size { w: 400, h: 300 };
    let measured = ewm_core::outputs::Measured {
        size,
        zone: Rectangle::from_size(size),
        places: vec![],
    };
    ewm.handle_module_command(ModuleCommand::ConfigureOutput {
        name: "B".to_string(),
        change: change(Some(2.0f64.to_bits()), None),
    });
    ewm.take_actions();
    ewm.apply_output_config("B", &measured);
    let done = ewm.take_actions();
    assert!(done.contains(&Action::SendScale { surface: 10, output: 2 }));
    assert!(done.contains(&Action::SendScale { surface: 20, output: 2 }));
    assert_eq!(ewm.output_size, Size { w: 1400, h: 500 });
    ewm.handle_module_command(ModuleCommand::ConfigureOutput {
        name: "B".to_string(),
        change: change(None, Some(false)),
    });
    ewm.apply_output_config("B", &measured);
    assert_eq!(ewm.space.output_index_named("B"), None);
}

#[test]
fn keyboard_layouts_are_switched() {
    let mut fixture = desk();
    let ewm = fixture.ewm();
    events(ewm);
    ewm.handle_module_command(ModuleCommand::ConfigureXkb { layouts: "us, de".to_string(), options: None });
    assert!(ewm.take_actions().contains(&Action::SetXkbConfig {
        layouts: "us, de".to_string(),
        options: None,
    }));
    ewm.xkb_configured("us, de");
    assert_eq!(ewm.xkb_layout_names, vec!["us", "de"]);
    ewm.keyboard_focus = Some(20);
    ewm.handle_module_command(ModuleCommand::SwitchLayout { layout: "de".to_string() });
    assert_eq!(ewm.xkb_current_layout, 1);
    assert_eq!(
        ewm.take_actions(),
        vec![
            Action::SetKeyboardFocus { surface: None },
            Action::SetXkbLayout { index: 1 },
            Action::SetKeyboardFocus { surface: Some(20) },
        ]
    );
    ewm.handle_module_command(ModuleCommand::SwitchLayout { layout: "fr".to_string() });
    assert_eq!(ewm.xkb_current_layout, 1);
    ewm.handle_module_command(ModuleCommand::GetLayouts);
    let told = events(ewm);
    assert!(matches!(&told[0], Event::Layouts { layouts, current: 0 } if layouts.len() == 2));
    assert!(matches!(&told[1], Event::LayoutSwitched { layout, index: 1 } if layout == "de"));
    assert!(matches!(&told[2], Event::Layouts { current: 1, .. }));
}

#[test]
fn other_commands() {
    let mut fixture = desk();
    let ewm = fixture.ewm();
    ewm.take_actions();
    let location = PointerLocation {
        x_bits: 3.5f64.to_bits(),
        y_bits: 4.0f64.to_bits(),
        cell: Point { x: 3, y: 4 },
        floor: Point { x: 3, y: 4 },
    };
    ewm.handle_module_command(ModuleCommand::WarpPointer { location });
    assert_eq!(ewm.pointer_location.x_bits, 3.5f64.to_bits());
    ewm.handle_module_command(ModuleCommand::Screenshot { path: None });
    assert_eq!(ewm.take_screenshot_request(), Some("/tmp/ewm-screenshot.png".to_string()));
    assert_eq!(ewm.take_screenshot_request(), None);
    ewm.handle_module_command(ModuleCommand::ImCommit { text: "x".to_string() });
    ewm.connect_im_relay(true);
    ewm.handle_module_command(ModuleCommand::ImCommit { text: "y".to_string() });
    ewm.handle_module_command(ModuleCommand::TextInputIntercept { enabled: true });
    assert!(ewm.text_input_intercept);
    ewm.handle_module_command(ModuleCommand::GetState);
    ewm.handle_module_command(ModuleCommand::CreateActivationToken);
    ewm.handle_module_command(ModuleCommand::SetSelection { text: "s".to_string() });
    assert_eq!(
        ewm.take_actions(),
        vec![
            Action::WarpPointer { location },
            Action::ImCommit { text: "y".to_string() },
            Action::ReportState,
            Action::CreateActivationToken,
            Action::SetSelection {
                mime_types: vec![
                    "text/plain;charset=utf-8".to_string(),
                    "text/plain".to_string(),
                    "UTF8_STRING".to_string(),
                ],
                text: "s".to_string(),
            },
        ]
    );
}

#[test]
fn working_areas_move_frames() {
    let mut fixture = desk();
    let ewm = fixture.ewm();
    ewm.layout(1, 1000, 0, 800, 600);
    events(ewm);
    ewm.take_actions();
    let zone = Rectangle {
        loc: Point { x: 0, y: 30 },
        size: Size { w: 800, h: 570 },
    };
    ewm.check_working_area_change(2, "B", zone, &vec![]);
    assert_eq!(ewm.space.element_location(10), Some(Point { x: 1000, y: 30 }));
    assert_eq!(
        ewm.take_actions(),
        vec![
            Action::Place { window: 10, x: 1000, y: 30, activate: false },
            Action::Configure { window: 10, w: 800, h: 570 },
        ]
    );
    assert!(matches!(
        &events(ewm)[..],
        [Event::WorkingArea { output, x: 0, y: 30, width: 800, height: 570 }] if output == "B"
    ));
    assert_eq!(ewm.get_working_area(2, Rectangle::from_size(Size { w: 1, h: 1 })), zone);
    // The same area again changes nothing.
    ewm.check_working_area_change(2, "B", zone, &vec![]);
    assert!(ewm.take_actions().is_empty());
    assert!(events(ewm).is_empty());
}

#[test]
fn the_free_area_of_an_unmapped_output_is_kept_and_told() {
    let mut fixture = desk();
    let ewm = fixture.ewm();
    ewm.layout(1, 1000, 0, 800, 600);
    ewm.unmap_output(2);
    events(ewm);
    ewm.take_actions();
    let zone = Rectangle {
        loc: Point { x: 0, y: 30 },
        size: Size { w: 800, h: 570 },
    };
    ewm.check_working_area_change(2, "B", zone, &vec![]);
    assert_eq!(ewm.working_areas.get("B"), Some(&zone));
    assert!(matches!(
        &events(ewm)[..],
        [Event::WorkingArea { output, x: 0, y: 30, width: 800, height: 570 }] if output == "B"
    ));
    // No frame is moved.
    assert!(ewm.take_actions().is_empty());
    assert_eq!(ewm.space.element_location(10), Some(Point { x: 1000, y: 0 }));
    assert_eq!(ewm.get_working_area(2, zone), zone);
    ewm.check_working_area_change(2, "B", zone, &vec![]);
    assert!(events(ewm).is_empty());
}

#[test]
fn places_are_found() {
    let mut fixture = desk();
    let ewm = fixture.ewm();
    ewm.layout(2, 1200, 100, 10, 10);
    assert_eq!(ewm.find_surface_output(2), Some(2));
    assert_eq!(ewm.get_surface_output(2), Some("B".to_string()));
    // Out of sight the first output counts.
    assert_eq!(ewm.find_surface_output(1), None);
    assert_eq!(ewm.get_surface_output(1), Some("A".to_string()));
    assert_eq!(ewm.get_surface_output(9), None);
    assert_eq!(ewm.output_under_cursor(), Some("A".to_string()));
    assert_eq!(ewm.active_output(), Some("A".to_string()));
    ewm.focus_surface(2, false);
    assert_eq!(ewm.get_emacs_surface_for_focused_output(), Some(1));
}
