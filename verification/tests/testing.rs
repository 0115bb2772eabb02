//! The fixture, the clients and the headless backend.
use ewm_core::backend::headless::HeadlessBackend;
use ewm_core::geometry::{Point, Rectangle, Size};
use ewm_core::module::ModuleCommand;
use ewm_core::output::OutputConfig;
use ewm_core::outputs::Measured;
use ewm_core::testing::{
    ClientId, ClientManager, ConfigureEvent, Fixture, TestClient, TestSurface,
};

#[test]
fn test_headless_backend_creation() {
    let backend = HeadlessBackend::new();
    assert!(backend.outputs.is_empty());
}

#[test]
fn client_test_client_creation() {
    let mut manager = ClientManager::new();
    let id1 = manager.add_client();
    let id2 = manager.add_client();

    assert_eq!(id1, ClientId(0));
    assert_eq!(id2, ClientId(1));
    assert!(manager.get_client(id1).is_some());
    assert!(manager.get_client(id2).is_some());
}

#[test]
fn test_surface_configure_tracking() {
    let mut surface = TestSurface::new(1);

    surface.configures.push_back(ConfigureEvent {
        width: 800,
        height: 600,
        states: vec!["maximized".to_string()],
        serial: 1,
    });

    assert_eq!(surface.configures.len(), 1);
    let cfg = surface.last_configure().unwrap();
    assert_eq!(cfg.width, 800);
    assert_eq!(cfg.height, 600);
}

#[test]
fn test_format_configures() {
    let mut surface = TestSurface::new(1);

    surface.configures.push_back(ConfigureEvent {
        width: 1920,
        height: 1080,
        states: vec!["maximized".to_string(), "activated".to_string()],
        serial: 1,
    });

    let formatted = surface.format_configures();
    assert!(formatted.contains("1920x1080"));
    assert!(formatted.contains("maximized"));
}

#[test]
fn configures_are_formatted_line_by_line() {
    let mut surface = TestSurface::new(1);
    assert_eq!(surface.format_configures(), "");
    surface.configures.push_back(ConfigureEvent {
        width: 0,
        height: -5,
        states: vec![],
        serial: 1,
    });
    surface.configures.push_back(ConfigureEvent {
        width: 640,
        height: 480,
        states: vec!["a \"b\"".to_string(), "c".to_string()],
        serial: 2,
    });
    assert_eq!(
        surface.format_configures(),
        "configure[0]: 0x-5 states=[]\nconfigure[1]: 640x480 states=[\"a \\\"b\\\"\", \"c\"]\n"
    );
}

#[test]
fn test_fixture_creation() {
    let fixture = Fixture::new();
    assert!(fixture.is_ok());
}

#[test]
fn test_add_output() {
    let mut fixture = Fixture::new().unwrap();
    fixture.add_output("test", 1920, 1080, Size { w: 1920, h: 1080 });
    assert_eq!(fixture.output_count(), 1);
}

#[test]
fn test_remove_output() {
    let mut fixture = Fixture::new().unwrap();
    fixture.add_output("test1", 1920, 1080, Size { w: 1920, h: 1080 });
    fixture.add_output("test2", 1280, 720, Size { w: 1280, h: 720 });
    assert_eq!(fixture.output_count(), 2);
    fixture.remove_output("test1");
    assert_eq!(fixture.output_count(), 1);
}

#[test]
fn test_dispatch_triggers_redraw() {
    let mut fixture = Fixture::new().unwrap();
    fixture.add_output("test", 1920, 1080, Size { w: 1920, h: 1080 });
    fixture.dispatch();
    // Just verify dispatch doesn't panic
}

#[test]
fn test_output_size_calculation() {
    let mut fixture = Fixture::new().unwrap();
    fixture.add_output("test1", 1920, 1080, Size { w: 1920, h: 1080 });
    fixture.add_output("test2", 1280, 720, Size { w: 1280, h: 720 });
    // After adding two outputs side by side, total width should be sum
    let size = fixture.ewm().output_size;
    let (total_w, total_h) = (size.w, size.h);
    assert_eq!(total_w, 1920 + 1280);
    assert_eq!(total_h, 1080); // Height is max of outputs
}

#[test]
fn surfaces_of_a_client_are_found_by_id() {
    let fixture = Fixture::new().unwrap();
    let mut client = TestClient::new(ClientId(7));
    assert_eq!(client.surface_count(), 0);
    let id = client.create_toplevel(fixture.ewm_ref());
    assert_eq!(id, 1);
    assert_eq!(client.next_surface_id, 1);
    assert_eq!(client.surface_count(), 1);
    assert_eq!(client.surfaces().len(), 1);
    assert!(client.get_surface(id).is_some());
    assert!(client.get_surface(2).is_none());
    client.record_configure(
        id,
        ConfigureEvent {
            width: 1,
            height: 2,
            states: vec![],
            serial: 9,
        },
    );
    client.record_configure(
        99,
        ConfigureEvent {
            width: 1,
            height: 2,
            states: vec![],
            serial: 10,
        },
    );
    assert_eq!(client.get_surface(id).unwrap().configures.len(), 1);
    assert_eq!(client.get_surface(id).unwrap().last_configure().unwrap().serial, 9);
    client.get_surface_mut(id).unwrap().mapped = true;
    assert!(client.get_surface(id).unwrap().mapped);
    assert!(client.get_surface_mut(3).is_none());
}

#[test]
fn clients_and_their_surfaces_are_counted() {
    let mut fixture = Fixture::new().unwrap();
    assert_eq!(fixture.client_count(), 0);
    let a = fixture.add_client();
    let b = fixture.add_client();
    assert_eq!(fixture.client_count(), 2);
    assert_eq!(fixture.clients.total_surfaces(), 0);
    let ewm = Fixture::new().unwrap();
    fixture.get_client_mut(a).unwrap().create_toplevel(ewm.ewm_ref());
    fixture.get_client_mut(b).unwrap().create_toplevel(ewm.ewm_ref());
    fixture.get_client_mut(b).unwrap().create_toplevel(ewm.ewm_ref());
    assert_eq!(fixture.client_count(), 2);
    assert_eq!(fixture.clients.total_surfaces(), 3);
    assert!(fixture.get_client(ClientId(2)).is_none());
    assert!(fixture.get_client_mut(ClientId(2)).is_none());
}

#[test]
fn toplevels_get_the_ids_that_the_compositor_gives() {
    let mut fixture = Fixture::new().unwrap();
    fixture.ewm().handle_new_toplevel(70, None, None, None);
    fixture.ewm().handle_new_toplevel(71, None, None, None);
    fixture.ewm().handle_toplevel_destroyed(70);
    let mut client = TestClient::new(ClientId(0));
    // Two windows had ids; that one of them is gone frees no id.
    let a = client.create_toplevel(fixture.ewm_ref());
    let b = client.create_toplevel(fixture.ewm_ref());
    assert_eq!((a, b), (3, 4));
    fixture.ewm().handle_new_toplevel(72, None, None, None);
    assert!(fixture.has_surface(a));
    let c = client.create_toplevel(fixture.ewm_ref());
    assert_eq!(c, 5);
    fixture.ewm().handle_new_toplevel(73, None, None, None);
    fixture.ewm().handle_new_toplevel(74, None, None, None);
    assert!(fixture.has_surface(b) && fixture.has_surface(c));
    assert_eq!(client.create_toplevel(fixture.ewm_ref()), 6);
    client.get_surface_mut(b).unwrap().mapped = true;
    assert!(!client.get_surface(a).unwrap().mapped);
    assert!(client.get_surface(b).unwrap().mapped);
}

#[test]
fn a_recorded_configure_changes_nothing_else() {
    let fixture = Fixture::new().unwrap();
    let mut client = TestClient::new(ClientId(0));
    let a = client.create_toplevel(fixture.ewm_ref());
    let b = client.create_toplevel(fixture.ewm_ref());
    client.get_surface_mut(a).unwrap().mapped = true;
    for serial in [5, 6] {
        client.record_configure(
            a,
            ConfigureEvent {
                width: 1,
                height: 2,
                states: vec![],
                serial,
            },
        );
    }
    let surface = client.get_surface(a).unwrap();
    assert!(surface.mapped);
    assert_eq!(surface.configures.iter().map(|c| c.serial).collect::<Vec<_>>(), vec![5, 6]);
    assert!(client.get_surface(b).unwrap().configures.is_empty());
    assert_eq!(client.surface_count(), 2);
    assert_eq!(client.next_surface_id, 2);
}

#[test]
fn a_new_output_has_its_configured_scale() {
    let mut fixture = Fixture::new().unwrap();
    fixture.ewm().output_config.insert(
        "test".to_string(),
        OutputConfig {
            scale: Some(2.0f64.to_bits()),
            ..OutputConfig::default()
        },
    );
    fixture.add_output("test", 1920, 1080, Size { w: 960, h: 540 });
    assert_eq!(fixture.output_count(), 1);
    let output = &fixture.ewm_ref().space.outputs[0];
    assert_eq!(output.mode, Size { w: 1920, h: 1080 });
    assert_eq!(output.size, Size { w: 960, h: 540 });
    assert_eq!(output.scale, 2.0f64.to_bits());
    assert_eq!(fixture.ewm_ref().output_size, Size { w: 960, h: 540 });
    // Without a configured scale the mode counts.
    fixture.add_output("other", 800, 600, Size { w: 1, h: 1 });
    assert_eq!(fixture.ewm_ref().space.outputs[1].loc, Point { x: 960, y: 0 });
    assert_eq!(fixture.ewm_ref().output_size, Size { w: 1760, h: 600 });
}

#[test]
fn a_virtual_output_keeps_its_mode() {
    let mut fixture = Fixture::new().unwrap();
    fixture.add_output("test", 1920, 1080, Size { w: 1920, h: 1080 });
    fixture.ewm().output_config.insert(
        "test".to_string(),
        OutputConfig {
            mode: Some((800, 600, Some(75))),
            scale: Some(2.0f64.to_bits()),
            ..OutputConfig::default()
        },
    );
    let size = Size { w: 960, h: 540 };
    fixture.apply_output_config(
        "test",
        &Measured {
            size,
            zone: Rectangle::from_size(size),
            places: vec![],
        },
    );
    let output = &fixture.ewm_ref().space.outputs[0];
    assert_eq!(output.mode, Size { w: 1920, h: 1080 });
    assert_eq!(output.size, size);
    assert_eq!(fixture.ewm_ref().state_of(1).unwrap().refresh_interval_us, 16_667);
}

#[test]
fn each_queued_output_is_drawn_once() {
    let mut fixture = Fixture::new().unwrap();
    fixture.add_output("a", 800, 600, Size { w: 800, h: 600 });
    fixture.add_output("b", 800, 600, Size { w: 800, h: 600 });
    fixture.dispatch();
    let before = (fixture.render_count("a"), fixture.render_count("b"));
    fixture.ewm().queue_redraw(2);
    fixture.dispatch();
    assert!(!fixture.has_queued_redraws());
    fixture.dispatch();
    assert_eq!(fixture.render_count("a"), before.0);
    assert_eq!(fixture.render_count("b"), before.1 + 1);
}

#[test]
fn dispatch_carries_out_commands() {
    let mut fixture = Fixture::new().unwrap();
    fixture.add_output("test", 800, 600, Size { w: 800, h: 600 });
    fixture.ewm().handle_new_toplevel(70, None, Some("app".to_string()), None);
    assert_eq!(fixture.surface_count(), 1);
    assert!(fixture.has_surface(1));
    let module = &mut fixture.ewm().module;
    module.push_command(ModuleCommand::Layout { id: 1, x: 3, y: 4, w: 50, h: 60 });
    module.push_command(ModuleCommand::Focus { id: 1 });
    module.push_command(ModuleCommand::Focus { id: 2 });
    fixture.dispatch();
    assert_eq!(fixture.focused_surface_id(), 1);
    assert_eq!(fixture.ewm_ref().keyboard_focus, Some(70));
    let at = fixture.ewm_ref().space.element_location(70).unwrap();
    assert_eq!((at.x, at.y), (3, 4));
    assert!(fixture.ewm_ref().module.commands.is_empty());
}

#[test]
fn an_output_added_again_replaces_the_first() {
    let mut fixture = Fixture::new().unwrap();
    fixture.add_output("test", 800, 600, Size { w: 800, h: 600 });
    fixture.add_output("test", 1024, 768, Size { w: 1024, h: 768 });
    assert_eq!(fixture.output_count(), 1);
    fixture.remove_output("nothing");
    assert_eq!(fixture.output_count(), 1);
    assert_eq!(fixture.render_count("nothing"), 0);
}
