//! Layer surfaces, what is under the pointer, and what is drawn.
use ewm_core::action::Action;
use ewm_core::ewm::LayoutEntry;
use ewm_core::geometry::{Point, Rectangle, Size};
use ewm_core::hits::{Hit, LayerHit, PopupBox};
use ewm_core::layer_shell::{LayerCommit, RequestedOutput};
use ewm_core::layers::{layer_focus_on_output, KeyboardInteractivity, Layer, LayerPlace};
use ewm_core::module::{PointerLocation, SurfaceView};
use ewm_core::render::{
    dmabuf_fits, element_damage, screencopy_reply, shm_fits, take_screencopies, Canvas, DrawItem,
    ScreencopyReply, ScreencopyRequest, WindowSize,
};
use ewm_core::testing::Fixture;
use ewm_core::{Ewm, RedrawState};

fn rect(x: i32, y: i32, w: i32, h: i32) -> Rectangle {
    Rectangle {
        loc: Point { x, y },
        size: Size { w, h },
    }
}

fn at(x: i32, y: i32) -> PointerLocation {
    PointerLocation {
        x_bits: (x as f64).to_bits(),
        y_bits: (y as f64).to_bits(),
        cell: Point { x, y },
        floor: Point { x, y },
    }
}

fn committed(
    surface: u64,
    layer: Layer,
    interactivity: KeyboardInteractivity,
    geometry: Rectangle,
    zone: Rectangle,
) -> LayerCommit {
    LayerCommit {
        initial_configure_sent: true,
        has_buffer: true,
        layer,
        interactivity,
        zone,
        places: vec![LayerPlace { surface, geometry }],
    }
}

/// Output A (1) or B (2) as it is drawn.
fn canvas(ewm: &Ewm, output: u64) -> Canvas {
    let name = if output == 1 { "A" } else { "B" };
    ewm.canvas(output, name, rect(0, 20, 800, 580))
}

/// Outputs A (1) and B (2), an application (surface 1, window 20).
fn desk() -> Fixture {
    let mut fixture = Fixture::new().unwrap();
    fixture.add_output("A", 1000, 500, Size { w: 1000, h: 500 });
    fixture.add_output("B", 800, 600, Size { w: 800, h: 600 });
    fixture.dispatch();
    fixture.ewm().handle_new_toplevel(20, None, Some("app".to_string()), None);
    fixture.ewm().layout(1, 1100, 50, 200, 100);
    fixture.ewm().module.clear_events();
    fixture.ewm().take_actions();
    fixture
}

#[test]
fn a_layer_surface_is_mapped_and_reserves_space() {
    let mut fixture = desk();
    let ewm = fixture.ewm();
    ewm.new_layer_surface(70, RequestedOutput::Unspecified, Layer::Top, "panel".to_string());
    assert_eq!(ewm.layers[0].output, 1);
    assert!(ewm.unmapped_layer_surfaces.contains(&70));
    let zone = rect(0, 30, 1000, 470);
    let mut c = committed(70, Layer::Top, KeyboardInteractivity::OnDemand, rect(0, 0, 1000, 30), zone);
    c.initial_configure_sent = false;
    assert!(ewm.handle_layer_surface_commit(70, 70, &c));
    assert!(ewm.take_actions().contains(&Action::ConfigureLayer { surface: 70 }));
    c.initial_configure_sent = true;
    assert!(ewm.handle_layer_surface_commit(70, 70, &c));
    assert!(ewm.unmapped_layer_surfaces.is_empty());
    assert_eq!(ewm.layer_shell_on_demand_focus, Some(70));
    assert_eq!(ewm.get_working_area(1, rect(0, 0, 1, 1)), zone);
    assert_eq!(ewm.resolve_layer_keyboard_focus(), Some(70));
    ewm.sync_keyboard_focus();
    assert_eq!(ewm.keyboard_focus, Some(70));
    // The surface loses its buffer.
    c.has_buffer = false;
    assert!(ewm.handle_layer_surface_commit(70, 70, &c));
    assert!(ewm.unmapped_layer_surfaces.contains(&70));
    ewm.layer_destroyed(70, rect(0, 0, 1000, 500), &vec![]);
    assert!(ewm.layers.is_empty());
    assert_eq!(ewm.layer_shell_on_demand_focus, None);
    assert_eq!(ewm.get_working_area(1, rect(0, 0, 1, 1)), rect(0, 0, 1000, 500));
    assert!(!ewm.handle_layer_surface_commit(70, 70, &c));
}

#[test]
fn a_layer_surface_for_an_unknown_output_is_closed() {
    let mut fixture = desk();
    let ewm = fixture.ewm();
    ewm.new_layer_surface(71, RequestedOutput::Unknown, Layer::Top, String::new());
    assert_eq!(ewm.take_actions(), vec![Action::CloseLayer { surface: 71 }]);
    assert!(ewm.layers.is_empty());
}

#[test]
fn an_arrangement_moves_all_layer_surfaces_of_an_output() {
    let mut fixture = desk();
    let ewm = fixture.ewm();
    let full = rect(0, 0, 1000, 500);
    for surface in [70, 71] {
        ewm.new_layer_surface(surface, RequestedOutput::Known(1), Layer::Top, String::new());
    }
    let c = committed(70, Layer::Top, KeyboardInteractivity::Never, rect(0, 0, 1000, 20), full);
    ewm.handle_layer_surface_commit(70, 70, &c);
    // The second one reserves the top edge, and the first one makes way.
    let mut c = committed(71, Layer::Top, KeyboardInteractivity::Never, rect(0, 0, 1000, 30), rect(0, 30, 1000, 470));
    c.places.push(LayerPlace { surface: 70, geometry: rect(0, 30, 1000, 20) });
    ewm.handle_layer_surface_commit(71, 71, &c);
    assert_eq!(ewm.layers[0].geometry, rect(0, 30, 1000, 20));
    assert_eq!(ewm.layers[1].geometry, rect(0, 0, 1000, 30));
    let back = vec![LayerPlace { surface: 70, geometry: rect(0, 0, 1000, 20) }];
    ewm.layer_destroyed(71, full, &back);
    assert_eq!(ewm.layers[0].geometry, rect(0, 0, 1000, 20));
    ewm.check_working_area_change(1, "A", full, &vec![LayerPlace { surface: 70, geometry: rect(5, 5, 9, 9) }]);
    assert_eq!(ewm.layers[0].geometry, rect(5, 5, 9, 9));
    // On an output that is not mapped a commit changes only what was asked for.
    ewm.unmap_output(1);
    let c = committed(70, Layer::Overlay, KeyboardInteractivity::OnDemand, full, full);
    assert!(!ewm.handle_layer_surface_commit(70, 70, &c));
    assert_eq!(ewm.layers[0].layer, Layer::Overlay);
    assert_eq!(ewm.layers[0].interactivity, KeyboardInteractivity::OnDemand);
    assert_eq!(ewm.layers[0].geometry, rect(5, 5, 9, 9));
}

#[test]
fn exclusive_overlays_take_the_keyboard() {
    let mut fixture = desk();
    let ewm = fixture.ewm();
    let zone = rect(0, 0, 1000, 500);
    ewm.new_layer_surface(70, RequestedOutput::Known(1), Layer::Bottom, String::new());
    let c = committed(70, Layer::Bottom, KeyboardInteractivity::Exclusive, rect(0, 0, 10, 10), zone);
    ewm.handle_layer_surface_commit(70, 70, &c);
    // A window is focused: lower layers yield.
    ewm.focus_surface(1, false);
    assert_eq!(ewm.resolve_layer_keyboard_focus(), None);
    assert_eq!(layer_focus_on_output(&ewm.layers, 1, None, false), Some(70));
    ewm.new_layer_surface(72, RequestedOutput::Known(1), Layer::Overlay, String::new());
    let c = committed(72, Layer::Overlay, KeyboardInteractivity::Exclusive, rect(0, 0, 10, 10), zone);
    ewm.handle_layer_surface_commit(72, 72, &c);
    assert_eq!(ewm.resolve_layer_keyboard_focus(), Some(72));
    ewm.focus_layer_surface_if_on_demand(Some(70));
    assert_eq!(ewm.layer_shell_on_demand_focus, None);
}

#[test]
fn the_topmost_thing_is_under_the_pointer() {
    let mut fixture = desk();
    let ewm = fixture.ewm();
    let zone = rect(0, 0, 800, 600);
    ewm.new_layer_surface(70, RequestedOutput::Known(2), Layer::Top, String::new());
    ewm.handle_layer_surface_commit(
        70,
        70,
        &committed(70, Layer::Top, KeyboardInteractivity::Never, rect(0, 0, 800, 30), zone),
    );
    ewm.new_layer_surface(71, RequestedOutput::Known(2), Layer::Background, String::new());
    ewm.handle_layer_surface_commit(
        71,
        71,
        &committed(71, Layer::Background, KeyboardInteractivity::Never, rect(0, 0, 800, 600), zone),
    );
    let hits = vec![
        LayerHit { layer: 70, surface: 700, loc: Point { x: 0, y: 0 } },
        LayerHit { layer: 71, surface: 710, loc: Point { x: 0, y: 0 } },
    ];
    let window = Some(Hit { surface: 20, loc: Point { x: 1100, y: 50 } });
    let popups = vec![PopupBox {
        window: 20,
        surface: 21,
        offset: Point { x: 5, y: 5 },
        size: Size { w: 20, h: 20 },
    }];
    let hit = ewm.surface_under_point(&at(1110, 10), &hits, &popups, window).unwrap();
    assert_eq!(hit.surface, 700);
    assert_eq!(hit.loc, Point { x: 1000, y: 0 });
    let no_top = vec![hits[1]];
    let hit = ewm.surface_under_point(&at(1110, 60), &no_top, &popups, window).unwrap();
    assert_eq!(hit.surface, 21);
    let hit = ewm.surface_under_point(&at(1110, 60), &no_top, &vec![], window).unwrap();
    assert_eq!(hit.surface, 20);
    let hit = ewm.surface_under_point(&at(1110, 60), &no_top, &vec![], None).unwrap();
    assert_eq!(hit.surface, 710);
    assert_eq!(ewm.layer_under_point(&at(1110, 10), &hits), Some(70));
}

#[test]
fn windows_are_on_the_outputs_of_their_views() {
    let mut fixture = desk();
    let ewm = fixture.ewm();
    let size = Some(Size { w: 200, h: 100 });
    assert_eq!(ewm.outputs_for_window(1, size), vec![2]);
    ewm.set_views(
        1,
        vec![
            SurfaceView { x: 0, y: 0, w: 200, h: 100, active: true },
            SurfaceView { x: 900, y: 0, w: 200, h: 100, active: false },
        ],
    );
    assert_eq!(ewm.outputs_for_window(1, size), vec![1, 2]);
    assert!(ewm.outputs_for_window(9, size).is_empty());
}

#[test]
fn an_output_shows_its_scene_front_to_back() {
    let mut fixture = desk();
    let ewm = fixture.ewm();
    let zone = rect(0, 0, 800, 600);
    for (surface, layer) in [(70, Layer::Overlay), (71, Layer::Top), (72, Layer::Bottom), (73, Layer::Background)] {
        ewm.new_layer_surface(surface, RequestedOutput::Known(2), layer, String::new());
        ewm.handle_layer_surface_commit(
            surface,
            surface,
            &committed(surface, layer, KeyboardInteractivity::Never, rect(0, 0, 8, 8), zone),
        );
    }
    let sizes = vec![WindowSize { window: 20, size: Size { w: 200, h: 100 } }];
    let popups = vec![PopupBox {
        window: 20,
        surface: 21,
        offset: Point { x: 5, y: 5 },
        size: Size { w: 20, h: 20 },
    }];
    ewm.handle_pointer_motion(at(1005, 5));
    let origin = Point { x: 0, y: 0 };
    let scene = vec![
        DrawItem::Cursor,
        DrawItem::Surface { surface: 70, at: origin },
        DrawItem::Surface { surface: 71, at: origin },
        DrawItem::Surface { surface: 21, at: Point { x: 105, y: 55 } },
        DrawItem::Window { window: 20, at: Point { x: 100, y: 50 } },
        DrawItem::Surface { surface: 72, at: origin },
        DrawItem::Surface { surface: 73, at: origin },
    ];
    assert_eq!(ewm.collect_render_elements_for_output(&canvas(ewm, 2), true, &sizes, &popups), scene);
    assert_eq!(ewm.collect_render_elements_for_output(&canvas(ewm, 2), false, &sizes, &popups), scene[1..].to_vec());
    assert!(ewm.collect_render_elements_for_output(&canvas(ewm, 1), true, &sizes, &popups).is_empty());
    assert_eq!(
        ewm.collect_render_elements(&popups),
        vec![
            DrawItem::Window { window: 20, at: Point { x: 1100, y: 50 } },
            DrawItem::Surface { surface: 21, at: Point { x: 1105, y: 55 } },
        ]
    );
    ewm.lock(5, false);
    ewm.new_lock_surface(50, 2, Size { w: 1, h: 1 });
    assert_eq!(
        ewm.collect_render_elements_for_output(&canvas(ewm, 2), true, &sizes, &popups),
        vec![
            DrawItem::LockSurface { surface: 50 },
            DrawItem::LockBackground { w: 800, h: 600 },
        ]
    );
}

#[test]
fn a_lock_surface_of_an_unmapped_output_is_taken_up() {
    let mut fixture = desk();
    let ewm = fixture.ewm();
    ewm.lock(5, false);
    ewm.unmap_output(2);
    ewm.take_actions();
    ewm.new_lock_surface(50, 2, Size { w: 600, h: 800 });
    assert_eq!(
        ewm.take_actions(),
        vec![
            Action::SendScale { surface: 50, output: 2 },
            Action::ConfigureLockSurface { surface: 50, w: 600, h: 800 },
        ]
    );
    let state = ewm.state_of(2).unwrap();
    assert_eq!(state.lock_surface, Some(50));
    assert!(matches!(state.redraw_state, RedrawState::Queued));
}

#[test]
fn declared_layouts_take_precedence() {
    let mut fixture = desk();
    let ewm = fixture.ewm();
    let sizes = vec![WindowSize { window: 20, size: Size { w: 200, h: 100 } }];
    ewm.set_output_layout("A".to_string(), vec![LayoutEntry { id: 1, x: 7, y: 8 }]);
    assert!(ewm.is_declared(1));
    assert!(!ewm.is_declared(2));
    assert_eq!(
        ewm.collect_render_elements_for_output(&canvas(ewm, 1), false, &sizes, &vec![]),
        vec![DrawItem::Window { window: 20, at: Point { x: 7, y: 8 } }]
    );
    assert!(ewm.collect_render_elements_for_output(&canvas(ewm, 2), false, &sizes, &vec![]).is_empty());
}

#[test]
fn an_unmapped_output_still_shows_its_layers_and_declared_surfaces() {
    let mut fixture = desk();
    let ewm = fixture.ewm();
    ewm.new_layer_surface(70, RequestedOutput::Known(2), Layer::Top, String::new());
    ewm.handle_layer_surface_commit(
        70,
        70,
        &committed(70, Layer::Top, KeyboardInteractivity::Never, rect(0, 0, 800, 20), rect(0, 20, 800, 580)),
    );
    ewm.handle_new_toplevel(21, None, None, None);
    ewm.set_output_layout("B".to_string(), vec![LayoutEntry { id: 1, x: 7, y: 8 }]);
    ewm.layout(2, -10, -10, 50, 50);
    ewm.unmap_output(2);
    let sizes = vec![
        WindowSize { window: 20, size: Size { w: 200, h: 100 } },
        WindowSize { window: 21, size: Size { w: 50, h: 50 } },
    ];
    ewm.handle_pointer_motion(at(0, 0));
    // Without a place in the space it has no extent: the cursor is never on
    // it, and only a window around the origin crosses it.
    assert_eq!(
        ewm.collect_render_elements_for_output(&canvas(ewm, 2), true, &sizes, &vec![]),
        vec![
            DrawItem::Surface { surface: 70, at: Point { x: 0, y: 0 } },
            DrawItem::Window { window: 20, at: Point { x: 7, y: 28 } },
            DrawItem::Window { window: 21, at: Point { x: -10, y: -10 } },
        ]
    );
}

#[test]
fn copies_of_the_screen_are_taken_and_answered() {
    let request = |id: u64, output: u64, with_damage: bool| ScreencopyRequest {
        id,
        output,
        with_damage,
        size: Size { w: 4, h: 3 },
        region: Point { x: 0, y: 0 },
    };
    let queues = vec![
        vec![request(1, 2, false), request(2, 2, false)],
        vec![request(3, 1, true)],
        vec![],
    ];
    let fixture = desk();
    let ewm = fixture.ewm_ref();
    assert!(ewm.has_pending_screencopies(&queues));
    assert!(!ewm.has_pending_screencopies(&vec![vec![]]));
    let (rest, taken) = take_screencopies(queues, 2);
    assert_eq!(taken, vec![request(1, 2, false)]);
    assert_eq!(rest[0], vec![request(2, 2, false)]);
    assert_eq!(rest[1].len(), 1);
    let sizes = vec![WindowSize { window: 20, size: Size { w: 200, h: 100 } }];
    let (rest, taken, plan) = ewm.process_screencopies_for_output(rest, &canvas(ewm, 2), &sizes, &vec![]);
    assert_eq!(taken, vec![request(2, 2, false)]);
    assert_eq!(plan, vec![DrawItem::Window { window: 20, at: Point { x: 100, y: 50 } }]);
    let (_, taken, plan) = ewm.process_screencopies_for_output(rest, &canvas(ewm, 2), &sizes, &vec![]);
    assert!(taken.is_empty());
    assert!(plan.is_empty());
    assert_eq!(
        screencopy_reply(&request(3, 1, true), true),
        ScreencopyReply::Submit { id: 3, damage: Some(rect(0, 0, 4, 3)) }
    );
    assert_eq!(
        screencopy_reply(&request(1, 1, false), true),
        ScreencopyReply::Submit { id: 1, damage: None }
    );
    assert_eq!(screencopy_reply(&request(1, 1, false), false), ScreencopyReply::Drop { id: 1 });
}

#[test]
fn buffers_must_fit() {
    let size = Size { w: 4, h: 3 };
    assert!(dmabuf_fits(4, 3, size));
    assert!(!dmabuf_fits(5, 3, size));
    assert!(shm_fits(true, 4, 3, 16, 48, size));
    assert!(!shm_fits(false, 4, 3, 16, 48, size));
    assert!(!shm_fits(true, 4, 3, 20, 60, size));
    assert_eq!(element_damage(size, rect(2, 1, 10, 1)), Some(rect(0, 0, 2, 1)));
    assert_eq!(element_damage(size, rect(20, 1, 10, 1)), None);
}

#[test]
fn popups_stay_on_the_screen() {
    let fixture = desk();
    let target = fixture
        .ewm_ref()
        .unconstrain_popup(20, Point { x: 0, y: 0 }, Point { x: 5, y: 5 });
    assert_eq!(target, Some(rect(-1105, -55, 1800, 600)));
    assert_eq!(
        fixture.ewm_ref().unconstrain_popup(99, Point { x: 0, y: 0 }, Point { x: 5, y: 5 }),
        None
    );
}

#[test]
fn commits_reach_windows_and_imports() {
    let mut fixture = desk();
    let ewm = fixture.ewm();
    let c = committed(70, Layer::Top, KeyboardInteractivity::Never, rect(0, 0, 1, 1), rect(0, 0, 1, 1));
    ewm.commit(20, 20, false, &c, "app".to_string(), "title".to_string());
    assert!(ewm.take_actions().contains(&Action::CommitWindow { window: 20 }));
    assert_eq!(ewm.surface_info[&1].title, "title");
    ewm.commit(33, 20, true, &c, String::new(), String::new());
    assert!(ewm.take_actions().is_empty());
    assert_eq!(ewm.take_early_imports(), vec![20, 33]);
    assert!(ewm.take_early_imports().is_empty());
}
