use drawing_canvas::brush::{BrushParams, InputFilterMode};
use drawing_canvas::input::PointerEventSource;
use drawing_canvas::renderer::{BlendColorSpace, SurfaceSize};
use drawing_canvas::window::{
    check_and_relocate_canvas_global, clear_canvas_global, ensure_global_brush_params,
    get_canvas_height_global, get_canvas_width_global, get_global_brush_params,
    set_blend_color_space_global, set_brush_color_global, set_brush_flow_global,
    set_brush_hardness_global, set_brush_size_global, set_brush_spacing_global,
    set_input_filter_mode_global, update_global_brush_params, AppWrapper, BlendChange,
    CanvasContainer, GlobalBrushParams, PointerSample, Relocation, WindowAction, WindowInput,
};

const ONE: i32 = 65536;

fn fx(v: f64) -> i32 {
    (v * 65536.0).round() as i32
}

fn power(base: i32, exponent: i32) -> i32 {
    fx((base as f64 / 65536.0).powf(exponent as f64 / 65536.0))
}

fn sample(source: PointerEventSource, x: f64, stamp: i64) -> PointerSample {
    PointerSample {
        source,
        position: [fx(x), 0],
        pressure: ONE,
        tilt: None,
        azimuth: None,
        twist: None,
        time_stamp: stamp,
    }
}

fn ready() -> (GlobalBrushParams, AppWrapper) {
    let mut store = GlobalBrushParams::new();
    let mut wrapper = AppWrapper::new();
    let fill = wrapper.create_app_and_renderer(&mut store, SurfaceSize { width: 800, height: 600 }, 4096);
    assert_eq!(fill, [0, 0, 0, 0]);
    (store, wrapper)
}

fn container(has_canvas: bool, is_current_parent: bool) -> CanvasContainer {
    CanvasContainer { has_canvas, is_current_parent }
}

#[test]
fn store_starts_with_the_default_brush() {
    let mut store = GlobalBrushParams::new();
    let params = get_global_brush_params(&mut store);
    assert_eq!(params.size, BrushParams::default().size);
    assert_eq!(params.color, BrushParams::default().color);
    let mut store = GlobalBrushParams::new();
    ensure_global_brush_params(&mut store);
    assert_eq!(get_global_brush_params(&mut store).spacing, BrushParams::default().spacing);
}

#[test]
fn ensure_keeps_what_is_stored() {
    let mut store = GlobalBrushParams::new();
    update_global_brush_params(&mut store, |mut p: BrushParams| {
        p.size = 12345;
        p
    });
    ensure_global_brush_params(&mut store);
    assert_eq!(get_global_brush_params(&mut store).size, 12345);
    assert_eq!(get_global_brush_params(&mut store).flow, BrushParams::default().flow);
}

#[test]
fn update_applies_the_updater_to_what_is_stored() {
    let mut store = GlobalBrushParams::new();
    update_global_brush_params(&mut store, |mut p: BrushParams| {
        p.size += 1;
        p
    });
    update_global_brush_params(&mut store, |mut p: BrushParams| {
        p.size *= 2;
        p
    });
    assert_eq!(get_global_brush_params(&mut store).size, (BrushParams::default().size + 1) * 2);
}

#[test]
fn settings_survive_a_rebuilt_application() {
    let (mut store, mut wrapper) = ready();
    assert_eq!(set_brush_size_global(&mut store, &mut wrapper, fx(7.0)), Ok(()));
    assert_eq!(set_brush_flow_global(&mut store, &mut wrapper, fx(0.5)), Ok(()));
    let mut rebuilt = AppWrapper::new();
    rebuilt.create_app_and_renderer(&mut store, SurfaceSize { width: 10, height: 10 }, 4096);
    assert_eq!(get_global_brush_params(&mut store).size, fx(7.0));
    assert_eq!(get_global_brush_params(&mut store).flow, fx(0.5));
    assert_eq!(get_canvas_width_global(&rebuilt), 10);
    // the rebuilt application draws with the stored brush
    assert_eq!(set_brush_spacing_global(&mut store, &mut rebuilt, ONE), Ok(()));
    let down = WindowInput::PointerButton { pressed: true, primary: true, sample: sample(PointerEventSource::Mouse, 0.0, 1) };
    rebuilt.window_event(down);
    let moved = WindowInput::PointerMoved { sample: sample(PointerEventSource::Mouse, 14.0, 2) };
    rebuilt.window_event(moved);
    let frame = rebuilt.render(true, &power).unwrap();
    let xs: Vec<i32> = frame.instances.iter().map(|d| d.position[0]).collect();
    assert_eq!(xs, vec![0, fx(7.0), fx(14.0)]);
}

#[test]
fn settings_out_of_range_are_refused_and_change_nothing() {
    let (mut store, mut wrapper) = ready();
    assert_eq!(set_brush_size_global(&mut store, &mut wrapper, fx(64.0)), Ok(()));
    assert_eq!(
        set_brush_size_global(&mut store, &mut wrapper, 0),
        Err("Brush size must be positive".to_string())
    );
    assert_eq!(
        set_brush_size_global(&mut store, &mut wrapper, -fx(5.0)),
        Err("Brush size must be positive".to_string())
    );
    assert_eq!(get_global_brush_params(&mut store).size, fx(64.0));

    assert_eq!(set_brush_flow_global(&mut store, &mut wrapper, fx(0.3)), Ok(()));
    assert_eq!(
        set_brush_flow_global(&mut store, &mut wrapper, fx(1.5)),
        Err("Flow must be between 0.0 and 1.0".to_string())
    );
    assert_eq!(
        set_brush_flow_global(&mut store, &mut wrapper, -1),
        Err("Flow must be between 0.0 and 1.0".to_string())
    );
    assert_eq!(get_global_brush_params(&mut store).flow, fx(0.3));
    assert_eq!(set_brush_flow_global(&mut store, &mut wrapper, 0), Ok(()));
    assert_eq!(set_brush_flow_global(&mut store, &mut wrapper, ONE), Ok(()));

    assert_eq!(set_brush_hardness_global(&mut store, &mut wrapper, fx(0.25)), Ok(()));
    assert_eq!(
        set_brush_hardness_global(&mut store, &mut wrapper, fx(2.0)),
        Err("Hardness must be between 0.0 and 1.0".to_string())
    );
    assert_eq!(
        set_brush_hardness_global(&mut store, &mut wrapper, -fx(2.0)),
        Err("Hardness must be between 0.0 and 1.0".to_string())
    );
    assert_eq!(get_global_brush_params(&mut store).hardness, fx(0.25));

    assert_eq!(set_brush_spacing_global(&mut store, &mut wrapper, fx(0.5)), Ok(()));
    assert_eq!(
        set_brush_spacing_global(&mut store, &mut wrapper, 0),
        Err("Spacing must be between 0.0 and 1.0".to_string())
    );
    assert_eq!(
        set_brush_spacing_global(&mut store, &mut wrapper, ONE + 1),
        Err("Spacing must be between 0.0 and 1.0".to_string())
    );
    assert_eq!(get_global_brush_params(&mut store).spacing, fx(0.5));
    // one setting leaves the others as they were
    assert_eq!(get_global_brush_params(&mut store).size, fx(64.0));
    assert_eq!(get_global_brush_params(&mut store).flow, ONE);
}

#[test]
fn refused_setting_on_an_empty_store_leaves_the_default_brush() {
    let mut store = GlobalBrushParams::new();
    let mut wrapper = AppWrapper::new();
    assert!(set_brush_size_global(&mut store, &mut wrapper, 0).is_err());
    assert_eq!(get_global_brush_params(&mut store).size, BrushParams::default().size);
}

#[test]
fn colour_channels_are_limited_to_the_unit_interval() {
    let (mut store, mut wrapper) = ready();
    set_brush_color_global(&mut store, &mut wrapper, fx(1.5), -1, fx(0.5), fx(9.0));
    assert_eq!(get_global_brush_params(&mut store).color, [ONE, 0, fx(0.5), ONE]);
    set_brush_color_global(&mut store, &mut wrapper, 0, ONE, 1, ONE - 1);
    assert_eq!(get_global_brush_params(&mut store).color, [0, ONE, 1, ONE - 1]);
}

#[test]
fn input_filter_mode_is_set_by_a_flag() {
    let (mut store, mut wrapper) = ready();
    set_input_filter_mode_global(&mut store, &mut wrapper, true);
    assert_eq!(get_global_brush_params(&mut store).input_filter_mode, InputFilterMode::PenOnly);
    // a touch stroke is now ignored by the running application
    let touch = WindowInput::PointerButton { pressed: true, primary: true, sample: sample(PointerEventSource::Touch, 0.0, 1) };
    wrapper.window_event(touch);
    let moved = WindowInput::PointerMoved { sample: sample(PointerEventSource::Touch, 100.0, 2) };
    wrapper.window_event(moved);
    assert!(wrapper.render(true, &power).unwrap().instances.is_empty());
    set_input_filter_mode_global(&mut store, &mut wrapper, false);
    assert_eq!(get_global_brush_params(&mut store).input_filter_mode, InputFilterMode::PenAndTouch);
}

#[test]
fn settings_reach_the_running_application() {
    let (mut store, mut wrapper) = ready();
    assert_eq!(set_brush_size_global(&mut store, &mut wrapper, fx(20.0)), Ok(()));
    assert_eq!(set_brush_spacing_global(&mut store, &mut wrapper, fx(0.5)), Ok(()));
    assert_eq!(set_brush_flow_global(&mut store, &mut wrapper, fx(0.5)), Ok(()));
    let down = WindowInput::PointerButton { pressed: true, primary: true, sample: sample(PointerEventSource::Mouse, 0.0, 1) };
    assert_eq!(wrapper.window_event(down), WindowAction::RequestRedraw);
    let moved = WindowInput::PointerMoved { sample: sample(PointerEventSource::Mouse, 20.0, 2) };
    assert_eq!(wrapper.window_event(moved), WindowAction::RequestRedraw);
    let frame = wrapper.render(true, &power).unwrap();
    assert_eq!(frame.instances.len(), 3);
    assert_eq!(frame.instances[1].position, [fx(10.0), 0]);
}

#[test]
fn settings_without_an_application_only_reach_the_store() {
    let mut store = GlobalBrushParams::new();
    let mut wrapper = AppWrapper::new();
    assert_eq!(set_brush_size_global(&mut store, &mut wrapper, fx(3.0)), Ok(()));
    assert_eq!(get_global_brush_params(&mut store).size, fx(3.0));
    assert!(wrapper.render(true, &power).is_none());
}

#[test]
fn close_request_leaves_the_loop() {
    let (_, mut wrapper) = ready();
    assert_eq!(wrapper.window_event(WindowInput::CloseRequested), WindowAction::Exit);
    let mut empty = AppWrapper::new();
    assert_eq!(empty.window_event(WindowInput::CloseRequested), WindowAction::Exit);
    assert_eq!(empty.window_event(WindowInput::Other), WindowAction::Ignore);
}

#[test]
fn resize_reconfigures_to_the_clamped_size() {
    let (_, mut wrapper) = ready();
    let action = wrapper.window_event(WindowInput::SurfaceResized(SurfaceSize { width: 5000, height: 300 }));
    assert_eq!(action, WindowAction::Reconfigure(SurfaceSize { width: 4096, height: 300 }));
    // the host is told the size of the canvas, which is what an export holds
    assert_eq!(get_canvas_width_global(&wrapper), 4096);
    assert_eq!(get_canvas_height_global(&wrapper), 300);
    let action = wrapper.window_event(WindowInput::SurfaceResized(SurfaceSize { width: 0, height: 300 }));
    assert_eq!(action, WindowAction::Ignore);
    assert_eq!(get_canvas_width_global(&wrapper), 4096);
    let mut empty = AppWrapper::new();
    let action = empty.window_event(WindowInput::SurfaceResized(SurfaceSize { width: 50, height: 30 }));
    assert_eq!(action, WindowAction::Ignore);
    assert_eq!(get_canvas_width_global(&empty), 0);
    assert_eq!(get_canvas_height_global(&empty), 0);
}

#[test]
fn redraw_renders_once_everything_exists() {
    let mut empty = AppWrapper::new();
    assert_eq!(empty.window_event(WindowInput::RedrawRequested), WindowAction::Ignore);
    let (_, mut wrapper) = ready();
    assert_eq!(wrapper.window_event(WindowInput::RedrawRequested), WindowAction::Render);
    let frame = wrapper.render(true, &power).unwrap();
    assert!(frame.present);
    assert!(frame.instances.is_empty());
    let frame = wrapper.render(false, &power).unwrap();
    assert!(!frame.present);
}

#[test]
fn secondary_buttons_are_ignored_but_every_touch_is_handled() {
    let (_, mut wrapper) = ready();
    let secondary = WindowInput::PointerButton { pressed: true, primary: false, sample: sample(PointerEventSource::Mouse, 0.0, 1) };
    assert_eq!(wrapper.window_event(secondary), WindowAction::Ignore);
    let stylus = WindowInput::PointerButton { pressed: true, primary: false, sample: sample(PointerEventSource::TabletTool, 0.0, 1) };
    assert_eq!(wrapper.window_event(stylus), WindowAction::Ignore);
    // nothing was queued: a move is dropped by the queue
    let moved = WindowInput::PointerMoved { sample: sample(PointerEventSource::Mouse, 50.0, 2) };
    assert_eq!(wrapper.window_event(moved), WindowAction::Ignore);
    let touch = WindowInput::PointerButton { pressed: true, primary: false, sample: sample(PointerEventSource::Touch, 0.0, 3) };
    assert_eq!(wrapper.window_event(touch), WindowAction::RequestRedraw);
    let lift = WindowInput::PointerButton { pressed: false, primary: false, sample: sample(PointerEventSource::Touch, 0.0, 4) };
    assert_eq!(wrapper.window_event(lift), WindowAction::RequestRedraw);
    // a handled button asks for a redraw even before the application exists
    let mut empty = AppWrapper::new();
    let press = WindowInput::PointerButton { pressed: true, primary: true, sample: sample(PointerEventSource::Mouse, 0.0, 1) };
    assert_eq!(empty.window_event(press), WindowAction::RequestRedraw);
}

#[test]
fn moves_that_are_not_newer_are_dropped() {
    let (mut store, mut wrapper) = ready();
    assert_eq!(set_brush_size_global(&mut store, &mut wrapper, fx(20.0)), Ok(()));
    assert_eq!(set_brush_spacing_global(&mut store, &mut wrapper, fx(0.5)), Ok(()));
    let press = WindowInput::PointerButton { pressed: true, primary: true, sample: sample(PointerEventSource::Mouse, 0.0, 10) };
    wrapper.window_event(press);
    let first = WindowInput::PointerMoved { sample: sample(PointerEventSource::Mouse, 10.0, 20) };
    assert_eq!(wrapper.window_event(first), WindowAction::RequestRedraw);
    let same = WindowInput::PointerMoved { sample: sample(PointerEventSource::Mouse, 500.0, 20) };
    assert_eq!(wrapper.window_event(same), WindowAction::Ignore);
    let older = WindowInput::PointerMoved { sample: sample(PointerEventSource::Mouse, 600.0, 19) };
    assert_eq!(wrapper.window_event(older), WindowAction::Ignore);
    let newer = WindowInput::PointerMoved { sample: sample(PointerEventSource::Mouse, 20.0, 21) };
    assert_eq!(wrapper.window_event(newer), WindowAction::RequestRedraw);
    let frame = wrapper.render(true, &power).unwrap();
    let xs: Vec<i32> = frame.instances.iter().map(|d| d.position[0]).collect();
    assert_eq!(xs, vec![0, fx(10.0), fx(20.0)]);
}

#[test]
fn moves_at_or_before_time_zero_are_dropped_at_first() {
    let (_, mut wrapper) = ready();
    let press = WindowInput::PointerButton { pressed: true, primary: true, sample: sample(PointerEventSource::Mouse, 0.0, 0) };
    wrapper.window_event(press);
    let at_zero = WindowInput::PointerMoved { sample: sample(PointerEventSource::Mouse, 10.0, 0) };
    assert_eq!(wrapper.window_event(at_zero), WindowAction::Ignore);
    let negative = WindowInput::PointerMoved { sample: sample(PointerEventSource::Mouse, 10.0, -5) };
    assert_eq!(wrapper.window_event(negative), WindowAction::Ignore);
}

#[test]
fn move_outside_a_stroke_asks_for_no_redraw() {
    let (_, mut wrapper) = ready();
    let hover = WindowInput::PointerMoved { sample: sample(PointerEventSource::Mouse, 10.0, 5) };
    assert_eq!(wrapper.window_event(hover), WindowAction::Ignore);
    let mut empty = AppWrapper::new();
    assert_eq!(empty.window_event(hover), WindowAction::Ignore);
}

#[test]
fn blend_policy_is_switched_through_the_wrapper() {
    let mut empty = AppWrapper::new();
    assert_eq!(
        set_blend_color_space_global(&mut empty, false),
        BlendChange { uniform: None, redraw: false }
    );
    let (_, mut wrapper) = ready();
    assert_eq!(
        set_blend_color_space_global(&mut wrapper, true),
        BlendChange { uniform: None, redraw: true }
    );
    assert_eq!(
        set_blend_color_space_global(&mut wrapper, false),
        BlendChange { uniform: Some(0), redraw: true }
    );
    assert_eq!(
        set_blend_color_space_global(&mut wrapper, true),
        BlendChange { uniform: Some(1), redraw: true }
    );
    assert_eq!(get_canvas_width_global(&wrapper), 800);
    assert_eq!(get_canvas_height_global(&wrapper), 600);
    let _ = BlendColorSpace::Linear;
}

#[test]
fn clear_through_the_wrapper_gives_the_fill_colour() {
    let empty = AppWrapper::new();
    assert_eq!(clear_canvas_global(&empty), None);
    let (_, wrapper) = ready();
    assert_eq!(clear_canvas_global(&wrapper), Some([0, 0, 0, 0]));
}

#[test]
fn canvas_goes_to_the_first_container_without_one() {
    assert_eq!(check_and_relocate_canvas_global(&[], true), Relocation::Stay);
    assert_eq!(check_and_relocate_canvas_global(&[], false), Relocation::Stay);
    let full = [container(true, true), container(true, false)];
    assert_eq!(check_and_relocate_canvas_global(&full, true), Relocation::Stay);
    assert_eq!(check_and_relocate_canvas_global(&full, false), Relocation::Stay);
    let second_free = [container(true, true), container(false, false), container(false, false)];
    assert_eq!(check_and_relocate_canvas_global(&second_free, true), Relocation::Move(1));
    assert_eq!(check_and_relocate_canvas_global(&second_free, false), Relocation::Attach(1));
    // the first empty container is the canvas's parent by name: it stays
    let same = [container(true, false), container(false, true), container(false, false)];
    assert_eq!(check_and_relocate_canvas_global(&same, true), Relocation::Stay);
    assert_eq!(check_and_relocate_canvas_global(&same, false), Relocation::Attach(1));
    let first_free = [container(false, false)];
    assert_eq!(check_and_relocate_canvas_global(&first_free, true), Relocation::Move(0));
}

#[test]
fn wrapper_shows_what_it_holds() {
    let empty = AppWrapper::new();
    assert!(empty.renderer().is_none());
    assert!(empty.app().is_none());
    assert_eq!(empty.cursor_position(), None);
    let (_, mut wrapper) = ready();
    assert_eq!(wrapper.renderer().unwrap().blend_color_space(), BlendColorSpace::Srgb);
    assert_eq!(wrapper.renderer().unwrap().size(), SurfaceSize { width: 800, height: 600 });
    assert!(!wrapper.app().unwrap().has_pending_input());
    let press = WindowInput::PointerButton { pressed: true, primary: true, sample: sample(PointerEventSource::Mouse, 12.0, 1) };
    wrapper.window_event(press);
    assert_eq!(wrapper.cursor_position(), Some([fx(12.0), 0]));
    assert!(wrapper.app().unwrap().has_pending_input());
    let hover = WindowInput::PointerMoved { sample: sample(PointerEventSource::Mouse, 13.0, 2) };
    wrapper.window_event(hover);
    assert_eq!(wrapper.cursor_position(), Some([fx(13.0), 0]));
    // a move that is dropped as stale does not move the cursor
    let stale = WindowInput::PointerMoved { sample: sample(PointerEventSource::Mouse, 99.0, 2) };
    wrapper.window_event(stale);
    assert_eq!(wrapper.cursor_position(), Some([fx(13.0), 0]));
}

#[test]
fn setting_changes_one_field_where_store_and_application_differ() {
    let (mut store, mut wrapper) = ready();
    // the store goes its own way: half the flow, another colour
    update_global_brush_params(&mut store, |mut p: BrushParams| {
        p.flow = ONE / 2;
        p.color = [1, 2, 3, 4];
        p.hardness = 77;
        p
    });
    let live_before = wrapper.app().unwrap().brush_state().params();
    assert_eq!(live_before.flow, ONE);
    assert_eq!(set_brush_size_global(&mut store, &mut wrapper, fx(20.0)), Ok(()));
    let live = wrapper.app().unwrap().brush_state().params();
    assert_eq!(live.size, fx(20.0));
    assert_eq!(live.flow, live_before.flow);
    assert_eq!(live.color, live_before.color);
    assert_eq!(live.hardness, live_before.hardness);
    assert_eq!(live.spacing, live_before.spacing);
    assert_eq!(live.input_filter_mode, live_before.input_filter_mode);
    let stored = get_global_brush_params(&mut store);
    assert_eq!(stored.size, fx(20.0));
    assert_eq!(stored.flow, ONE / 2);
    assert_eq!(stored.color, [1, 2, 3, 4]);
    assert_eq!(stored.hardness, 77);

    // the same for the other settings
    assert_eq!(set_brush_hardness_global(&mut store, &mut wrapper, fx(0.25)), Ok(()));
    assert_eq!(set_brush_spacing_global(&mut store, &mut wrapper, fx(0.5)), Ok(()));
    set_brush_color_global(&mut store, &mut wrapper, ONE, 0, ONE, ONE);
    set_input_filter_mode_global(&mut store, &mut wrapper, true);
    let live = wrapper.app().unwrap().brush_state().params();
    assert_eq!(live.flow, ONE);
    assert_eq!(live.size, fx(20.0));
    assert_eq!(live.hardness, fx(0.25));
    assert_eq!(live.spacing, fx(0.5));
    assert_eq!(live.color, [ONE, 0, ONE, ONE]);
    assert_eq!(live.input_filter_mode, InputFilterMode::PenOnly);
    assert_eq!(get_global_brush_params(&mut store).flow, ONE / 2);
    assert_eq!(set_brush_flow_global(&mut store, &mut wrapper, fx(0.75)), Ok(()));
    assert_eq!(wrapper.app().unwrap().brush_state().params().flow, fx(0.75));
    assert_eq!(get_global_brush_params(&mut store).flow, fx(0.75));
    assert_eq!(get_global_brush_params(&mut store).hardness, fx(0.25));
}

#[test]
fn refused_setting_leaves_store_and_application_as_they_are() {
    let (mut store, mut wrapper) = ready();
    update_global_brush_params(&mut store, |mut p: BrushParams| {
        p.flow = ONE / 2;
        p
    });
    assert!(set_brush_size_global(&mut store, &mut wrapper, 0).is_err());
    assert!(set_brush_flow_global(&mut store, &mut wrapper, ONE + 1).is_err());
    let live = wrapper.app().unwrap().brush_state().params();
    assert_eq!(live.size, BrushParams::default().size);
    assert_eq!(live.flow, ONE);
    assert_eq!(get_global_brush_params(&mut store).flow, ONE / 2);
    assert_eq!(get_global_brush_params(&mut store).size, BrushParams::default().size);
}

#[test]
fn value_in_range_is_accepted_whatever_the_other_settings_hold() {
    let (mut store, mut wrapper) = ready();
    update_global_brush_params(&mut store, |mut p: BrushParams| {
        p.flow = -5;
        p
    });
    assert_eq!(set_brush_size_global(&mut store, &mut wrapper, fx(3.0)), Ok(()));
    assert_eq!(get_global_brush_params(&mut store).size, fx(3.0));
    assert_eq!(get_global_brush_params(&mut store).flow, -5);
}
