//! What outputs show, and when they are drawn.
use ewm_core::geometry::Size;
use ewm_core::testing::Fixture;

/// Every output has its own layers.
#[test]
fn test_layer_map_per_output() {
    let mut fixture = Fixture::new().expect("Failed to create fixture");
    fixture.add_output("Virtual-1", 1920, 1080, Size { w: 1920, h: 1080 });
    fixture.add_output("Virtual-2", 2560, 1440, Size { w: 2560, h: 1440 });
    fixture.dispatch();

    let ewm = fixture.ewm_ref();

    for output in ewm.space.outputs.iter() {
        let layers = ewm.layers.iter().filter(|l| l.output == output.handle);
        assert!(layers.count() == 0, "No layers initially");
    }
}

/// Outputs are placed side by side.
#[test]
fn test_output_horizontal_layout() {
    let mut fixture = Fixture::new().expect("Failed to create fixture");

    fixture.add_output("Virtual-1", 1920, 1080, Size { w: 1920, h: 1080 });
    fixture.dispatch();

    let ewm = fixture.ewm_ref();
    let first_output = ewm.space.outputs.iter().next().unwrap();
    let first_geo = ewm.space.output_geometry(first_output.handle).unwrap();
    let first_x = first_geo.loc.x;
    assert_eq!(first_geo.loc.y, 0, "First output should be at y=0");

    fixture.add_output("Virtual-2", 2560, 1440, Size { w: 2560, h: 1440 });
    fixture.dispatch();

    let ewm = fixture.ewm_ref();
    let outputs: Vec<_> = ewm.space.outputs.iter().collect();
    assert_eq!(outputs.len(), 2);

    // Second output should be positioned after first
    let second_geo = ewm.space.output_geometry(outputs[1].handle).unwrap();
    assert!(
        second_geo.loc.x >= first_x + 1920,
        "Second output should be after first (got x={}, expected >= {})",
        second_geo.loc.x,
        first_x + 1920
    );
    assert_eq!(
        second_geo.loc.y, 0,
        "Outputs should be horizontally aligned"
    );
}

/// The pointer is tracked over all outputs.
#[test]
fn render_test_pointer_location_tracking() {
    let mut fixture = Fixture::new().expect("Failed to create fixture");
    fixture.add_output("Virtual-1", 1920, 1080, Size { w: 1920, h: 1080 });
    fixture.add_output("Virtual-2", 1920, 1080, Size { w: 1920, h: 1080 });
    fixture.dispatch();

    let ewm = fixture.ewm_ref();

    // Pointer starts at origin
    let location = (
        f64::from_bits(ewm.pointer_location.x_bits),
        f64::from_bits(ewm.pointer_location.y_bits),
    );
    assert_eq!(location, (0.0, 0.0));

    // Total output size should span both outputs
    assert!(ewm.output_size.w >= 3840, "Should span both outputs");
}

/// No window is mapped at the start.
#[test]
fn test_initial_space_empty() {
    let mut fixture = Fixture::new().expect("Failed to create fixture");
    fixture.add_output("Virtual-1", 1920, 1080, Size { w: 1920, h: 1080 });
    fixture.dispatch();

    let ewm = fixture.ewm_ref();

    // No windows should be mapped initially
    assert_eq!(ewm.space.elements.iter().count(), 0);
    assert!(ewm.id_windows.is_empty());
    assert!(ewm.window_ids.is_empty());
}

/// No layout is declared at the start.
#[test]
fn test_initial_views_empty() {
    let mut fixture = Fixture::new().expect("Failed to create fixture");
    fixture.add_output("Virtual-1", 1920, 1080, Size { w: 1920, h: 1080 });
    fixture.dispatch();

    let ewm = fixture.ewm_ref();

    // No output layouts initially
    assert!(ewm.output_layouts.is_empty());
}

/// Outputs are drawn independently.
#[test]
fn test_damage_tracker_per_output() {
    let mut fixture = Fixture::new().expect("Failed to create fixture");
    fixture.add_output("Virtual-1", 1920, 1080, Size { w: 1920, h: 1080 });
    fixture.add_output("Virtual-2", 2560, 1440, Size { w: 2560, h: 1440 });
    fixture.dispatch();

    // Each output should render once on first dispatch
    assert_eq!(fixture.render_count("Virtual-1"), 1);
    assert_eq!(fixture.render_count("Virtual-2"), 1);

    // Queue redraw for all outputs
    fixture.queue_redraw_all();
    fixture.dispatch();

    // Both should have rendered again
    assert_eq!(fixture.render_count("Virtual-1"), 2);
    assert_eq!(fixture.render_count("Virtual-2"), 2);
}
