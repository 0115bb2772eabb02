//! Rectangles, the space and outputs' modes.
use ewm_core::geometry::{Point, Rectangle, Size, Transform};
use ewm_core::names::NameMap;
use ewm_core::output::{
    choose_mode, estimated_vblank_us, initial_mode, int_to_transform, refresh_interval_us,
    refresh_mhz, transform_to_int, OutputChange, VideoMode,
};
use ewm_core::outputs::SCALE_ONE;
use ewm_core::space::{Output, Space};
use ewm_core::{OutputConfig, OutputState, RedrawState};

fn rect(x: i32, y: i32, w: i32, h: i32) -> Rectangle {
    Rectangle {
        loc: Point { x, y },
        size: Size { w, h },
    }
}

fn output(handle: u64, name: &str, x: i32, y: i32, w: i32, h: i32) -> Output {
    Output {
        handle,
        name: name.to_string(),
        mode: Size { w, h },
        transform: Transform::Normal,
        scale: SCALE_ONE,
        loc: Point { x, y },
        size: Size { w, h },
        zone: Rectangle::from_size(Size { w, h }),
    }
}

fn video(width: u16, height: u16, vrefresh: u32, preferred: bool) -> VideoMode {
    VideoMode {
        width,
        height,
        vrefresh,
        preferred,
    }
}

#[test]
fn rectangles_contain_and_overlap() {
    let r = rect(10, 20, 30, 40);
    assert!(r.contains(Point { x: 10, y: 20 }));
    assert!(r.contains(Point { x: 39, y: 59 }));
    assert!(!r.contains(Point { x: 40, y: 20 }));
    assert!(!r.contains(Point { x: 9, y: 20 }));
    assert!(r.overlaps(rect(39, 59, 1, 1)));
    assert!(!r.overlaps(rect(40, 20, 5, 5)));
    assert_eq!(r.intersection(rect(0, 0, 20, 30)), Some(rect(10, 20, 10, 10)));
    assert_eq!(r.intersection(rect(100, 0, 20, 30)), None);
    assert_eq!(rect(i32::MAX, 0, 10, 1).right(), i32::MAX);
    assert_eq!(r.bottom(), 60);
}

#[test]
fn points_shift_and_saturate() {
    let p = Point { x: 3, y: -4 };
    assert_eq!(p.offset(Point { x: 1, y: 1 }), Point { x: 4, y: -3 });
    assert_eq!(p.relative(Point { x: 1, y: 1 }), Point { x: 2, y: -5 });
    assert_eq!(
        Point { x: i32::MAX, y: i32::MIN }.offset(Point { x: 1, y: -1 }),
        Point { x: i32::MAX, y: i32::MIN }
    );
}

#[test]
fn quarter_turns_exchange_width_and_height() {
    let size = Size { w: 4, h: 3 };
    assert_eq!(Transform::Normal.transform_size(size), size);
    assert_eq!(Transform::Flipped180.transform_size(size), size);
    assert_eq!(Transform::Rotated90.transform_size(size), Size { w: 3, h: 4 });
    assert_eq!(Transform::Flipped270.transform_size(size), Size { w: 3, h: 4 });
}

#[test]
fn transforms_have_numbers() {
    for n in 0..8 {
        assert_eq!(transform_to_int(int_to_transform(n)), n);
    }
    assert_eq!(int_to_transform(1), Transform::Rotated90);
    assert_eq!(int_to_transform(4), Transform::Flipped);
    assert_eq!(int_to_transform(8), Transform::Normal);
    assert_eq!(int_to_transform(-1), Transform::Normal);
}

#[test]
fn windows_move_to_the_top_of_the_space() {
    let mut space = Space::new();
    space.map_element(7, Point { x: 0, y: 0 });
    space.map_element(8, Point { x: 1, y: 1 });
    space.map_element(7, Point { x: 2, y: 2 });
    let order: Vec<u64> = space.elements.iter().map(|e| e.window).collect();
    assert_eq!(order, vec![8, 7]);
    assert_eq!(space.element_location(7), Some(Point { x: 2, y: 2 }));
    space.unmap_elem(8);
    assert_eq!(space.element_location(8), None);
    assert_eq!(space.elements.len(), 1);
}

#[test]
fn outputs_of_the_space_are_found() {
    let mut space = Space::new();
    space.outputs.push(output(1, "A", 0, 0, 100, 50));
    space.outputs.push(output(2, "B", 100, 30, 100, 50));
    assert_eq!(space.output_index(2), Some(1));
    assert_eq!(space.output_index(3), None);
    assert_eq!(space.output_index_named("B"), Some(1));
    assert_eq!(space.output_index_named("C"), None);
    assert_eq!(space.output_index_showing(Point { x: 150, y: 40 }), Some(1));
    assert_eq!(space.output_index_showing(Point { x: 150, y: 0 }), None);
    assert_eq!(space.output_geometry(2), Some(rect(100, 30, 100, 50)));
    assert_eq!(space.total_size(), Size { w: 200, h: 80 });
    space.unmap_output(1);
    assert_eq!(space.output_index(2), Some(0));
    space.unmap_output(2);
    assert_eq!(space.total_size(), Size { w: 0, h: 0 });
}

#[test]
fn configurations_are_merged() {
    let change = |x, width, height| OutputChange {
        x,
        y: None,
        width,
        height,
        refresh: Some(60),
        scale: Some(1.5f64.to_bits()),
        transform: Some(1),
        enabled: None,
    };
    let config = OutputConfig::default().merge(&change(Some(7), Some(800), Some(600)), (1, 2));
    assert_eq!(config.mode, Some((800, 600, Some(60))));
    assert_eq!(config.position, Some((7, 2)));
    assert_eq!(config.scale, Some(1.5f64.to_bits()));
    assert_eq!(config.transform, Some(Transform::Rotated90));
    assert!(config.enabled);
    // A width without a height is no mode.
    let config = OutputConfig::default().merge(&change(None, Some(800), None), (1, 2));
    assert_eq!(config.mode, None);
    assert_eq!(config.position, None);
}

#[test]
fn modes_are_chosen() {
    let modes = vec![
        video(640, 480, 60, false),
        video(1920, 1080, 30, false),
        video(1920, 1080, 60, true),
        video(1920, 1080, 75, false),
    ];
    assert_eq!(initial_mode(&modes), Some(modes[2]));
    assert_eq!(initial_mode(&modes[..2].to_vec()), Some(modes[0]));
    assert_eq!(initial_mode(&vec![]), None);
    assert_eq!(choose_mode(&modes, 640, 480, None), Some(modes[0]));
    assert_eq!(choose_mode(&modes, 1920, 1080, Some(30)), Some(modes[1]));
    assert_eq!(choose_mode(&modes, 800, 600, None), None);
}

#[test]
fn rates_and_intervals() {
    assert_eq!(refresh_interval_us(60), 16_666);
    assert_eq!(refresh_interval_us(0), 16_667);
    assert_eq!(refresh_mhz(60), 60_000);
    assert_eq!(estimated_vblank_us(16_666), 16_666);
    assert_eq!(estimated_vblank_us(10), 1_000);
}

#[test]
fn new_outputs_start_with_a_redraw() {
    let mut state = OutputState::new(16_667, (800, 600));
    assert!(matches!(state.redraw_state, RedrawState::Queued));
    assert_eq!(state.lock_background, (800, 600));
    state.resize_lock_buffer((10, 20));
    assert_eq!(state.lock_background, (10, 20));
    assert_eq!(state.frame_callback_sequence, 0);
}

#[test]
fn names_map_to_values() {
    let mut map: NameMap<u32> = NameMap::new();
    assert!(map.is_empty());
    map.insert("a".to_string(), 1);
    map.insert("b".to_string(), 2);
    map.insert("a".to_string(), 3);
    assert_eq!(map.len(), 2);
    assert_eq!(map.get("a"), Some(&3));
    assert_eq!(map.get("c"), None);
    assert!(map.contains_key("b"));
    assert_eq!(map.remove("b"), Some(2));
    assert_eq!(map.remove("b"), None);
    assert_eq!(map.entry(0), ("a", &3));
}
