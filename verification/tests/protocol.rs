//! Focus, layer surfaces, the interface to Emacs, and toplevels.
use ewm_core::geometry::Size;
use ewm_core::testing::Fixture;

// Focus

/// Nothing is focused at the start.
#[test]
fn test_initial_focus_state() {
    let mut fixture = Fixture::new().expect("Failed to create fixture");
    fixture.add_output("Virtual-1", 1920, 1080, Size { w: 1920, h: 1080 });
    fixture.dispatch();

    // Initially, no surface should have focus
    assert_eq!(fixture.focused_surface_id(), 0);

    // Keyboard focus should be None
    assert!(fixture.ewm_ref().keyboard_focus.is_none());
}

/// Surfaces of Emacs are tracked separately.
#[test]
fn test_emacs_surface_tracking() {
    let mut fixture = Fixture::new().expect("Failed to create fixture");
    fixture.add_output("Virtual-1", 1920, 1080, Size { w: 1920, h: 1080 });
    fixture.dispatch();

    // Initially no Emacs surfaces
    assert!(fixture.ewm_ref().emacs_surfaces.is_empty());

    // Emacs PID should be unset
    assert!(fixture.ewm_ref().emacs_pid.is_none());
}

/// The pointer is tracked.
#[test]
fn focus_test_pointer_location_tracking() {
    let mut fixture = Fixture::new().expect("Failed to create fixture");
    fixture.add_output("Virtual-1", 1920, 1080, Size { w: 1920, h: 1080 });
    fixture.dispatch();

    let ewm = fixture.ewm_ref();

    // Pointer starts at origin
    let location = (
        f64::from_bits(ewm.pointer_location.x_bits),
        f64::from_bits(ewm.pointer_location.y_bits),
    );
    assert_eq!(location, (0.0, 0.0));
}

/// The state of an output tells whether a redraw is queued.
#[test]
fn test_output_redraw_state() {
    let mut fixture = Fixture::new().expect("Failed to create fixture");
    fixture.add_output("Virtual-1", 1920, 1080, Size { w: 1920, h: 1080 });

    // Output should have queued redraw initially
    assert!(fixture.has_queued_redraws());

    fixture.dispatch();

    // After dispatch, should be idle
    assert!(!fixture.has_queued_redraws());
}

/// Without surfaces the focus is not on Emacs.
#[test]
fn test_is_focus_on_emacs_empty() {
    let mut fixture = Fixture::new().expect("Failed to create fixture");
    fixture.add_output("Virtual-1", 1920, 1080, Size { w: 1920, h: 1080 });
    fixture.dispatch();

    // With no surfaces, focus is not on Emacs
    assert!(!fixture.ewm_ref().is_focus_on_emacs());
}

/// Text input is not intercepted at the start.
#[test]
fn test_text_input_intercept_state() {
    let mut fixture = Fixture::new().expect("Failed to create fixture");
    fixture.add_output("Virtual-1", 1920, 1080, Size { w: 1920, h: 1080 });
    fixture.dispatch();

    let ewm = fixture.ewm_ref();

    // Text input interception should be off by default
    assert!(!ewm.text_input_intercept);
    assert!(!ewm.text_input_active);
}

/// There is a keyboard layout at the start.
#[test]
fn test_xkb_layout_initial_state() {
    let mut fixture = Fixture::new().expect("Failed to create fixture");
    fixture.add_output("Virtual-1", 1920, 1080, Size { w: 1920, h: 1080 });
    fixture.dispatch();

    let ewm = fixture.ewm_ref();

    // Should have default US layout
    assert!(!ewm.xkb_layout_names.is_empty());
    assert_eq!(ewm.xkb_current_layout, 0);
}

// Layer surfaces

/// The state of layer surfaces is there.
#[test]
fn test_layer_shell_state_exists() {
    let mut fixture = Fixture::new().expect("Failed to create fixture");
    fixture.add_output("Virtual-1", 1920, 1080, Size { w: 1920, h: 1080 });
    fixture.dispatch();

    // Layer shell state should be initialized (no panic = success)
    let ewm = fixture.ewm_ref();
    assert!(ewm.unmapped_layer_surfaces.is_empty());
}

/// Layers belong to outputs.
#[test]
fn test_layer_map_output_specific() {
    let mut fixture = Fixture::new().expect("Failed to create fixture");
    fixture.add_output("Virtual-1", 1920, 1080, Size { w: 1920, h: 1080 });
    fixture.add_output("Virtual-2", 2560, 1440, Size { w: 2560, h: 1440 });
    fixture.dispatch();

    let ewm = fixture.ewm_ref();
    let outputs: Vec<_> = ewm.space.outputs.iter().collect();
    assert_eq!(outputs.len(), 2);

    // Each output has its own layers
    let layers_1 = ewm.layers.iter().filter(|l| l.output == outputs[0].handle);
    let layers_2 = ewm.layers.iter().filter(|l| l.output == outputs[1].handle);

    // Both should be empty initially
    assert_eq!(layers_1.count(), 0);
    assert_eq!(layers_2.count(), 0);
}

/// Without layer surfaces the whole output is available.
#[test]
fn test_output_geometry_without_exclusive_zones() {
    let mut fixture = Fixture::new().expect("Failed to create fixture");
    fixture.add_output("Virtual-1", 1920, 1080, Size { w: 1920, h: 1080 });
    fixture.dispatch();

    let ewm = fixture.ewm_ref();
    let output = ewm.space.outputs.iter().next().unwrap();
    let geo = ewm.space.output_geometry(output.handle).unwrap();

    // Without any layer surfaces, full output size is available
    assert_eq!(geo.size.w, 1920);
    assert_eq!(geo.size.h, 1080);
}

/// No layer surface is unmapped at the start.
#[test]
fn test_unmapped_layer_surfaces_tracking() {
    let mut fixture = Fixture::new().expect("Failed to create fixture");
    fixture.add_output("Virtual-1", 1920, 1080, Size { w: 1920, h: 1080 });
    fixture.dispatch();

    let ewm = fixture.ewm_ref();

    // No unmapped layer surfaces initially
    assert!(ewm.unmapped_layer_surfaces.is_empty());
}

/// Outputs have independent stacks of layers.
#[test]
fn test_multi_output_layer_independence() {
    let mut fixture = Fixture::new().expect("Failed to create fixture");
    fixture.add_output("Virtual-1", 1920, 1080, Size { w: 1920, h: 1080 });
    fixture.add_output("Virtual-2", 2560, 1440, Size { w: 2560, h: 1440 });
    fixture.dispatch();

    let ewm = fixture.ewm_ref();

    // Get all outputs
    let outputs: Vec<_> = ewm.space.outputs.iter().collect();

    for output in &outputs {
        let layers = ewm.layers.iter().filter(|l| l.output == output.handle);
        // The layers of an output can be queried
        let _ = layers.count();
    }

    // Output sizes should be different
    let geo1 = ewm.space.output_geometry(outputs[0].handle).unwrap();
    let geo2 = ewm.space.output_geometry(outputs[1].handle).unwrap();
    assert_ne!(geo1.size, geo2.size);
}

// The interface to Emacs

/// No command is pending at the start.
#[test]
fn test_no_initial_commands() {
    let mut fixture = Fixture::new().expect("Failed to create fixture");
    fixture.add_output("Virtual-1", 1920, 1080, Size { w: 1920, h: 1080 });
    fixture.dispatch();

    // After dispatch, all commands should be processed
    // (The module starts with empty queues)
    assert_eq!(fixture.surface_count(), 0);
}

/// A layout needs a surface.
#[test]
fn test_layout_requires_surface() {
    let mut fixture = Fixture::new().expect("Failed to create fixture");
    fixture.add_output("Virtual-1", 1920, 1080, Size { w: 1920, h: 1080 });
    fixture.dispatch();

    // Trying to layout a non-existent surface should be a no-op
    // (Layout command won't panic, just won't do anything)
    assert!(!fixture.has_surface(999));
}

/// A focus needs a surface.
#[test]
fn test_focus_requires_surface() {
    let mut fixture = Fixture::new().expect("Failed to create fixture");
    fixture.add_output("Virtual-1", 1920, 1080, Size { w: 1920, h: 1080 });
    fixture.dispatch();

    // Initial focus is 0 (no surface)
    assert_eq!(fixture.focused_surface_id(), 0);

    // Trying to focus a non-existent surface is a no-op
    assert!(!fixture.has_surface(1));
}

/// Outputs are tracked.
#[test]
fn test_output_tracking() {
    let mut fixture = Fixture::new().expect("Failed to create fixture");

    // No outputs initially
    assert!(fixture.ewm_ref().outputs.is_empty());

    fixture.add_output("Virtual-1", 1920, 1080, Size { w: 1920, h: 1080 });
    fixture.dispatch();

    // Should have one output tracked
    // (Note: the headless backend doesn't populate ewm.outputs directly,
    // but does create the output in the space)
    assert_eq!(fixture.output_count(), 1);
}

/// The compositor can be created more than once.
#[test]
fn test_multiple_fixtures() {
    // Create first fixture
    {
        let mut f1 = Fixture::new().expect("Failed to create first fixture");
        f1.add_output("V1", 800, 600, Size { w: 800, h: 600 });
        f1.dispatch();
        assert_eq!(f1.output_count(), 1);
    }

    // Create second fixture (ensures cleanup worked)
    {
        let mut f2 = Fixture::new().expect("Failed to create second fixture");
        f2.add_output("V2", 1024, 768, Size { w: 1024, h: 768 });
        f2.dispatch();
        assert_eq!(f2.output_count(), 1);
    }
}

/// Several turns of the loop are safe.
#[test]
fn test_roundtrip_dispatch() {
    let mut fixture = Fixture::new().expect("Failed to create fixture");
    fixture.add_output("Virtual-1", 1920, 1080, Size { w: 1920, h: 1080 });

    // Multiple roundtrips should be safe
    fixture.dispatch_roundtrip(5);

    // State should be consistent
    assert_eq!(fixture.output_count(), 1);
    assert!(!fixture.has_queued_redraws());
}

// Toplevels

/// The fixture starts with an output and no surface.
#[test]
fn test_initial_state() {
    let mut fixture = Fixture::new().expect("Failed to create fixture");
    fixture.add_output("Virtual-1", 1920, 1080, Size { w: 1920, h: 1080 });
    fixture.dispatch();

    // Compositor should start with no surfaces
    assert_eq!(fixture.surface_count(), 0);
    assert_eq!(fixture.focused_surface_id(), 0);
}

/// The extent of the outputs is calculated.
#[test]
fn test_output_geometry() {
    let mut fixture = Fixture::new().expect("Failed to create fixture");

    // Add first output
    fixture.add_output("Virtual-1", 1920, 1080, Size { w: 1920, h: 1080 });
    fixture.dispatch();

    let ewm = fixture.ewm_ref();
    let size = ewm.output_size;

    // Size should be at least the output size
    assert!(size.w >= 1920);
    assert!(size.h >= 1080);
}

/// Another output extends the extent.
#[test]
fn test_multi_output_layout() {
    let mut fixture = Fixture::new().expect("Failed to create fixture");

    fixture.add_output("Virtual-1", 1920, 1080, Size { w: 1920, h: 1080 });
    fixture.dispatch();
    let first_width = fixture.ewm_ref().output_size.w;

    fixture.add_output("Virtual-2", 2560, 1440, Size { w: 2560, h: 1440 });
    fixture.dispatch();

    let ewm = fixture.ewm_ref();
    // Second output should extend the total width
    assert!(ewm.output_size.w > first_width);
    // Height should be the max of both
    assert!(ewm.output_size.h >= 1440);
}

/// The extent shrinks with the outputs.
#[test]
fn test_output_removal_updates_geometry() {
    let mut fixture = Fixture::new().expect("Failed to create fixture");

    fixture.add_output("Virtual-1", 1920, 1080, Size { w: 1920, h: 1080 });
    fixture.add_output("Virtual-2", 1920, 1080, Size { w: 1920, h: 1080 });
    fixture.dispatch();

    let size_with_two = fixture.ewm_ref().output_size.w;

    fixture.remove_output("Virtual-2");
    fixture.dispatch();

    // Width should decrease after removal
    assert!(fixture.ewm_ref().output_size.w < size_with_two);
}

/// Frames are counted.
#[test]
fn test_render_tracking() {
    let mut fixture = Fixture::new().expect("Failed to create fixture");
    fixture.add_output("Virtual-1", 1920, 1080, Size { w: 1920, h: 1080 });

    // Initial dispatch renders the output
    fixture.dispatch();
    assert_eq!(fixture.render_count("Virtual-1"), 1);

    // Queue another redraw
    fixture.queue_redraw_all();
    fixture.dispatch();
    assert_eq!(fixture.render_count("Virtual-1"), 2);

    // Without queuing, no additional renders
    fixture.dispatch();
    assert_eq!(fixture.render_count("Virtual-1"), 2);
}

/// Clients are created and found.
#[test]
fn xdg_shell_test_client_creation() {
    let mut fixture = Fixture::new().expect("Failed to create fixture");
    fixture.add_output("Virtual-1", 1920, 1080, Size { w: 1920, h: 1080 });

    let client1 = fixture.add_client();
    let client2 = fixture.add_client();

    // Clients should have unique IDs
    assert_ne!(client1, client2);

    // Clients should be retrievable
    assert!(fixture.get_client(client1).is_some());
    assert!(fixture.get_client(client2).is_some());
}

/// The state with two outputs, as text.
#[test]
fn test_output_state_snapshot() {
    let mut fixture = Fixture::new().expect("Failed to create fixture");
    fixture.add_output("Virtual-1", 1920, 1080, Size { w: 1920, h: 1080 });
    fixture.add_output("Virtual-2", 2560, 1440, Size { w: 2560, h: 1440 });
    fixture.dispatch();

    let ewm = fixture.ewm_ref();
    let state = format!(
        "output_count: {}\noutput_size: ({}, {})\nfocused_surface: {}\nsurface_count: {}",
        fixture.output_count(),
        ewm.output_size.w,
        ewm.output_size.h,
        ewm.focused_surface_id,
        fixture.surface_count()
    );

    assert_eq!(
        state,
        "output_count: 2\noutput_size: (4480, 1440)\nfocused_surface: 0\nsurface_count: 0"
    );
}
