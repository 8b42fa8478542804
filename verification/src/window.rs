//! Window events and settings, decided without a window.
//!
//! The windowing layer delivers events and executes actions; what action
//! follows from which event is decided here. The same holds for the
//! settings that an embedding host changes at run time: they are kept in a
//! store that outlives the application, so that a canvas that is torn down
//! and rebuilt starts with the settings last chosen.
use crate::app::{
    after_events, events_placements, fresh_app, instances_of, App, AppView, Frame,
};
use crate::brush::{
    default_brush_params, serves, stamps_all, BrushDab, BrushParams, BrushParamsError,
    InputFilterMode,
};
use crate::fixed::{clamp, ONE};
use crate::input::{
    after_push, InputQueueView, PointerEvent, PointerEventSource, PointerEventType,
};
use crate::renderer::{
    blend_mode_uniform, canvas_color, clamp_to_texture_limit, BlendColorSpace, Renderer,
    RendererState, SurfaceSize,
};
use vstd::prelude::*;

verus! {

/// Brush parameters that persist while the application is torn down and
/// rebuilt. The store is empty until it is first used.
pub struct GlobalBrushParams {
    slot: Option<BrushParams>,
}

impl View for GlobalBrushParams {
    type V = Option<BrushParams>;

    closed spec fn view(&self) -> Option<BrushParams> {
        self.slot
    }
}

/// The parameters that a store stands for: those it holds, or the default
/// brush while it is empty.
pub open spec fn stored_params(store: Option<BrushParams>) -> BrushParams {
    match store {
        Some(params) => params,
        None => default_brush_params(),
    }
}

impl GlobalBrushParams {
    /// Creates an empty store.
    pub fn new() -> (store: Self)
        ensures
            store@.is_none(),
    {
        GlobalBrushParams { slot: None }
    }
}

/// Fills the store with the default brush unless it holds parameters
/// already.
pub fn ensure_global_brush_params(store: &mut GlobalBrushParams)
    ensures
        final(store)@ == Some(stored_params(old(store)@)),
{
    if store.slot.is_none() {
        store.slot = Some(BrushParams::default());
    }
}

/// The stored brush parameters. An empty store is filled with the default
/// brush first.
pub fn get_global_brush_params(store: &mut GlobalBrushParams) -> (params: BrushParams)
    ensures
        params == stored_params(old(store)@),
        final(store)@ == Some(params),
{
    ensure_global_brush_params(store);
    match store.slot {
        Some(params) => params,
        None => BrushParams::default(),
    }
}

/// Replaces the stored brush parameters by what `updater` makes of them.
pub fn update_global_brush_params<F: FnOnce(BrushParams) -> BrushParams>(
    store: &mut GlobalBrushParams,
    updater: F,
)
    requires
        call_requires(updater, (stored_params(old(store)@),)),
    ensures
        final(store)@.is_some(),
        call_ensures(updater, (stored_params(old(store)@),), final(store)@.unwrap()),
{
    let current = get_global_brush_params(store);
    let updated = updater(current);
    store.slot = Some(updated);
}

/// Everything that a pointer reports at one instant.
#[derive(Debug, Clone, Copy)]
pub struct PointerSample {
    /// Device that produced the sample.
    pub source: PointerEventSource,
    /// Position in canvas space (pixels from top-left).
    pub position: [i32; 2],
    /// Pressure in `[0, 1]`.
    pub pressure: i32,
    /// Tilt angles, if available.
    pub tilt: Option<[i32; 2]>,
    /// Azimuth angle, if available.
    pub azimuth: Option<i32>,
    /// Barrel rotation, if available.
    pub twist: Option<i32>,
    /// Time of the sample in microseconds.
    pub time_stamp: i64,
}

/// A window event, reduced to what the application reacts to.
#[derive(Debug, Clone, Copy)]
pub enum WindowInput {
    /// The user asked to close the window.
    CloseRequested,
    /// The surface changed size.
    SurfaceResized(SurfaceSize),
    /// The window is to be redrawn.
    RedrawRequested,
    /// A pointer button or contact changed state.
    PointerButton { pressed: bool, primary: bool, sample: PointerSample },
    /// A pointer moved.
    PointerMoved { sample: PointerSample },
    /// Any other event.
    Other,
}

/// What the windowing layer is to do after an event.
#[derive(Debug, Clone, Copy, PartialEq, Eq, Structural)]
pub enum WindowAction {
    /// Nothing.
    Ignore,
    /// Leave the event loop.
    Exit,
    /// Reconfigure the surface and recreate the canvas at this size.
    Reconfigure(SurfaceSize),
    /// Render a frame now.
    Render,
    /// Ask the window for a redraw.
    RequestRedraw,
}

/// What follows from a change of blend policy.
#[derive(Debug, Clone, Copy, PartialEq, Eq, Structural)]
pub struct BlendChange {
    /// The value to write to the blend-mode uniform, if it changed.
    pub uniform: Option<u32>,
    /// Whether the window is to be asked for a redraw.
    pub redraw: bool,
}

/// A container of the host page that can hold the canvas.
#[derive(Debug, Clone, Copy, PartialEq, Eq, Structural)]
pub struct CanvasContainer {
    /// Whether the container holds a canvas already.
    pub has_canvas: bool,
    /// Whether the container is the present parent of the canvas.
    pub is_current_parent: bool,
}

/// Where the canvas is to go when the host page has been rebuilt.
#[derive(Debug, Clone, Copy, PartialEq, Eq, Structural)]
pub enum Relocation {
    /// The canvas stays where it is.
    Stay,
    /// The canvas moves from its present parent to the container with this
    /// index.
    Move(usize),
    /// The canvas has no parent and is attached to the container with this
    /// index.
    Attach(usize),
}

/// What an [`AppWrapper`] holds.
pub struct AppWrapperView {
    /// The compositor, once it exists.
    pub renderer: Option<RendererState>,
    /// The application, once it exists.
    pub app: Option<AppView>,
    /// Last known pointer position.
    pub cursor_position: Option<[i32; 2]>,
    /// Time of the last pointer move that was accepted.
    pub last_pointer_move_time: i64,
}

/// The pointer event that a sample makes in a given phase.
pub open spec fn sample_event(sample: PointerSample, phase: PointerEventType) -> PointerEvent {
    PointerEvent {
        position: sample.position,
        pressure: sample.pressure,
        tilt: sample.tilt,
        azimuth: sample.azimuth,
        twist: sample.twist,
        timestamp: sample.time_stamp,
        event_type: phase,
        source: sample.source,
    }
}

/// The application after `event` has been offered to its input queue.
pub open spec fn app_with_event(app: Option<AppView>, event: PointerEvent) -> Option<AppView> {
    match app {
        Some(view) => Some(AppView { input: after_push(view.input, event), ..view }),
        None => None,
    }
}

/// Whether a button event is handled: the primary button of any device,
/// and every touch contact.
pub open spec fn handles_button(primary: bool, sample: PointerSample) -> bool {
    primary || sample.source == PointerEventSource::Touch
}

/// The state after a window event.
pub open spec fn after_window_event(state: AppWrapperView, event: WindowInput) -> AppWrapperView {
    match event {
        WindowInput::SurfaceResized(size) => match state.renderer {
            Some(renderer) => if size.width > 0 && size.height > 0 {
                AppWrapperView {
                    renderer: Some(
                        RendererState {
                            surface: clamp_to_texture_limit(size, renderer.max_texture_dimension),
                            ..renderer
                        },
                    ),
                    ..state
                }
            } else {
                state
            },
            None => state,
        },
        WindowInput::PointerButton { pressed, primary, sample } => if handles_button(
            primary,
            sample,
        ) {
            AppWrapperView {
                cursor_position: Some(sample.position),
                app: app_with_event(
                    state.app,
                    sample_event(
                        sample,
                        if pressed {
                            PointerEventType::Down
                        } else {
                            PointerEventType::Up
                        },
                    ),
                ),
                ..state
            }
        } else {
            state
        },
        WindowInput::PointerMoved { sample } => if sample.time_stamp
            <= state.last_pointer_move_time {
            state
        } else {
            AppWrapperView {
                cursor_position: Some(sample.position),
                last_pointer_move_time: sample.time_stamp,
                app: app_with_event(state.app, sample_event(sample, PointerEventType::Move)),
                ..state
            }
        },
        _ => state,
    }
}

/// The action that follows a window event.
///
/// A close request leaves the loop. A resize to a non-empty size
/// reconfigures the surface once a compositor exists. A redraw request
/// renders once compositor and application exist. A handled button event
/// asks for a redraw. A pointer move asks for a redraw only when it is
/// newer than the last one accepted and leaves input pending.
pub open spec fn window_action(state: AppWrapperView, event: WindowInput) -> WindowAction {
    match event {
        WindowInput::CloseRequested => WindowAction::Exit,
        WindowInput::SurfaceResized(size) => match state.renderer {
            Some(renderer) => if size.width > 0 && size.height > 0 {
                WindowAction::Reconfigure(
                    clamp_to_texture_limit(size, renderer.max_texture_dimension),
                )
            } else {
                WindowAction::Ignore
            },
            None => WindowAction::Ignore,
        },
        WindowInput::RedrawRequested => if state.renderer.is_some() && state.app.is_some() {
            WindowAction::Render
        } else {
            WindowAction::Ignore
        },
        WindowInput::PointerButton { pressed, primary, sample } => if handles_button(
            primary,
            sample,
        ) {
            WindowAction::RequestRedraw
        } else {
            WindowAction::Ignore
        },
        WindowInput::PointerMoved { sample } => match after_window_event(state, event).app {
            Some(app) => if sample.time_stamp > state.last_pointer_move_time
                && app.input.events.len() > 0 {
                WindowAction::RequestRedraw
            } else {
                WindowAction::Ignore
            },
            None => WindowAction::Ignore,
        },
        WindowInput::Other => WindowAction::Ignore,
    }
}

/// Whether the container at index `i` is the first that holds no canvas.
pub open spec fn is_first_empty(containers: Seq<CanvasContainer>, i: int) -> bool {
    &&& 0 <= i < containers.len()
    &&& !containers[i].has_canvas
    &&& forall|j: int| 0 <= j < i ==> containers[j].has_canvas
}

/// Decides where the canvas goes after the host page has been rebuilt.
///
/// The target is the first container that holds no canvas. Without one the
/// canvas stays. A canvas without a parent is attached to the target; a
/// canvas whose parent is another container moves to it; a canvas that is
/// in the target already stays.
pub fn check_and_relocate_canvas_global(containers: &[CanvasContainer], has_parent: bool) -> (to:
    Relocation)
    ensures
        match to {
            Relocation::Stay => (forall|i: int|
                0 <= i < containers@.len() ==> containers@[i].has_canvas) || (exists|i: int|
                is_first_empty(containers@, i) && containers@[i].is_current_parent && has_parent),
            Relocation::Move(target) => is_first_empty(containers@, target as int) && has_parent
                && !containers@[target as int].is_current_parent,
            Relocation::Attach(target) => is_first_empty(containers@, target as int)
                && !has_parent,
        },
{
    let mut i: usize = 0;
    while i < containers.len()
        invariant
            i <= containers@.len(),
            forall|j: int| 0 <= j < i ==> containers@[j].has_canvas,
        decreases containers@.len() - i,
    {
        let container: CanvasContainer = containers[i];
        if !container.has_canvas {
            if !has_parent {
                return Relocation::Attach(i);
            }
            if container.is_current_parent {
                assert(is_first_empty(containers@, i as int));
                return Relocation::Stay;
            }
            return Relocation::Move(i);
        }
        i += 1;
    }
    Relocation::Stay
}

/// The window's view of the application: compositor and application once
/// they exist, and what is remembered about the pointer.
pub struct AppWrapper {
    renderer: Option<Renderer>,
    app: Option<App>,
    cursor_position: Option<[i32; 2]>,
    last_pointer_move_time: i64,
}

impl View for AppWrapper {
    type V = AppWrapperView;

    closed spec fn view(&self) -> AppWrapperView {
        AppWrapperView {
            renderer: match self.renderer {
                Some(renderer) => Some(renderer@),
                None => None,
            },
            app: match self.app {
                Some(app) => Some(app@),
                None => None,
            },
            cursor_position: self.cursor_position,
            last_pointer_move_time: self.last_pointer_move_time,
        }
    }
}

impl AppWrapper {
    /// Creates a wrapper without compositor or application.
    pub fn new() -> (wrapper: Self)
        ensures
            wrapper@ == (AppWrapperView {
                renderer: None,
                app: None,
                cursor_position: None,
                last_pointer_move_time: 0,
            }),
    {
        AppWrapper { renderer: None, app: None, cursor_position: None, last_pointer_move_time: 0 }
    }

    /// The compositor's sizes and blend policy, once they exist.
    pub fn renderer(&self) -> (renderer: Option<&Renderer>)
        ensures
            renderer.is_some() == self@.renderer.is_some(),
            renderer.is_some() ==> Some(renderer.unwrap()@) == self@.renderer,
    {
        match &self.renderer {
            Some(renderer) => Some(renderer),
            None => None,
        }
    }

    /// The application, once it exists.
    pub fn app(&self) -> (app: Option<&App>)
        ensures
            app.is_some() == self@.app.is_some(),
            app.is_some() ==> Some(app.unwrap()@) == self@.app,
    {
        match &self.app {
            Some(app) => Some(app),
            None => None,
        }
    }

    /// Last known pointer position.
    pub fn cursor_position(&self) -> (position: Option<[i32; 2]>)
        ensures
            position == self@.cursor_position,
    {
        self.cursor_position
    }

    /// Creates compositor and application for a surface of the given size
    /// on a device with the given largest texture dimension. The brush is
    /// the one in the store. The result is the colour with which the fresh
    /// canvas is to be filled.
    pub fn create_app_and_renderer(
        &mut self,
        store: &mut GlobalBrushParams,
        initial_size: SurfaceSize,
        max_texture_dimension: u32,
    ) -> (fill: [i32; 4])
        ensures
            final(store)@ == Some(stored_params(old(store)@)),
            final(self)@.cursor_position == old(self)@.cursor_position,
            final(self)@.last_pointer_move_time == old(self)@.last_pointer_move_time,
            final(self)@.renderer == Some(
                RendererState {
                    surface: clamp_to_texture_limit(initial_size, max_texture_dimension),
                    max_texture_dimension,
                    blend_color_space: BlendColorSpace::Srgb,
                },
            ),
            final(self)@.app == Some(fresh_app(stored_params(old(store)@))),
            fill == [0i32, 0i32, 0i32, 0i32],
    {
        let renderer = Renderer::new(initial_size, max_texture_dimension);
        let params = get_global_brush_params(store);
        let app = App::with_brush_params(params);
        let fill = app.clear_canvas(&renderer);
        self.renderer = Some(renderer);
        self.app = Some(app);
        fill
    }

    /// Takes a window event and decides what the windowing layer does next.
    pub fn window_event(&mut self, event: WindowInput) -> (action: WindowAction)
        ensures
            final(self)@ == after_window_event(old(self)@, event),
            action == window_action(old(self)@, event),
    {
        match event {
            WindowInput::CloseRequested => WindowAction::Exit,
            WindowInput::SurfaceResized(size) => {
                if size.width == 0 || size.height == 0 {
                    return WindowAction::Ignore;
                }
                match &mut self.renderer {
                    Some(renderer) => match renderer.resize(size) {
                        Some(clamped) => WindowAction::Reconfigure(clamped),
                        None => WindowAction::Ignore,
                    },
                    None => WindowAction::Ignore,
                }
            },
            WindowInput::RedrawRequested => {
                if self.renderer.is_some() && self.app.is_some() {
                    WindowAction::Render
                } else {
                    WindowAction::Ignore
                }
            },
            WindowInput::PointerButton { pressed, primary, sample } => {
                let is_touch: bool = match sample.source {
                    PointerEventSource::Touch => true,
                    _ => false,
                };
                if !(primary || is_touch) {
                    return WindowAction::Ignore;
                }
                self.cursor_position = Some(sample.position);
                let phase = if pressed {
                    PointerEventType::Down
                } else {
                    PointerEventType::Up
                };
                match &mut self.app {
                    Some(app) => {
                        app.queue_input_event(Self::event_of(sample, phase));
                    },
                    None => {},
                }
                WindowAction::RequestRedraw
            },
            WindowInput::PointerMoved { sample } => {
                if sample.time_stamp <= self.last_pointer_move_time {
                    return WindowAction::Ignore;
                }
                self.last_pointer_move_time = sample.time_stamp;
                self.cursor_position = Some(sample.position);
                match &mut self.app {
                    Some(app) => {
                        app.queue_input_event(Self::event_of(sample, PointerEventType::Move));
                        if app.has_pending_input() {
                            WindowAction::RequestRedraw
                        } else {
                            WindowAction::Ignore
                        }
                    },
                    None => WindowAction::Ignore,
                }
            },
            WindowInput::Other => WindowAction::Ignore,
        }
    }

    /// The pointer event that a sample makes in a given phase.
    fn event_of(sample: PointerSample, phase: PointerEventType) -> (event: PointerEvent)
        ensures
            event == sample_event(sample, phase),
    {
        PointerEvent {
            position: sample.position,
            pressure: sample.pressure,
            tilt: sample.tilt,
            azimuth: sample.azimuth,
            twist: sample.twist,
            timestamp: sample.time_stamp,
            event_type: phase,
            source: sample.source,
        }
    }

    /// Plans one frame, if compositor and application exist.
    pub fn render<F: Fn(i32, i32) -> i32>(&mut self, texture_available: bool, curve: &F) -> (frame:
        Option<Frame>)
        requires
            old(self)@.app.is_some() ==> serves(curve, old(self)@.app.unwrap().params),
        ensures
            old(self)@.renderer.is_none() || old(self)@.app.is_none() ==> frame.is_none()
                && final(self)@ == old(self)@,
            old(self)@.renderer.is_some() && old(self)@.app.is_some() ==> {
                let renderer = old(self)@.renderer.unwrap();
                let app = old(self)@.app.unwrap();
                &&& frame matches Some(planned)
                &&& planned.present == (renderer.surface.width > 0 && renderer.surface.height > 0
                    && texture_available)
                &&& exists|dabs: Seq<BrushDab>|
                    stamps_all(
                        app.params,
                        events_placements(app.stroke, app.params, app.input.events),
                        curve,
                        dabs,
                    ) && planned.instances@ == #[trigger] instances_of(
                        dabs,
                        renderer.blend_color_space,
                    )
                &&& final(self)@ == (AppWrapperView {
                    app: Some(
                        AppView {
                            input: InputQueueView { events: Seq::empty(), ..app.input },
                            stroke: after_events(app.stroke, app.params, app.input.events),
                            ..app
                        },
                    ),
                    ..old(self)@
                })
            },
    {
        match &self.renderer {
            Some(renderer) => match &mut self.app {
                Some(app) => Some(app.render(renderer, texture_available, curve)),
                None => None,
            },
            None => None,
        }
    }
}

/// A requested value limited to the unit interval.
pub open spec fn accepted_unit(value: i32) -> i32 {
    clamp(value as int, 0, ONE as int) as i32
}

/// The wrapper's application with its brush parameters replaced.
pub open spec fn app_with_params(state: AppWrapperView, params: BrushParams) -> AppWrapperView {
    match state.app {
        Some(app) => AppWrapperView { app: Some(AppView { params, ..app }), ..state },
        None => state,
    }
}

/// Limits a value to the unit interval.
fn clamp_to_unit(value: i32) -> (clamped: i32)
    ensures
        clamped == accepted_unit(value),
{
    if value < 0 {
        0
    } else if value > ONE {
        ONE
    } else {
        value
    }
}

/// Switches the blend policy, if compositor and application exist. The
/// result says what to write to the blend-mode uniform and whether to ask
/// for a redraw.
pub fn set_blend_color_space_global(wrapper: &mut AppWrapper, is_srgb: bool) -> (change:
    BlendChange)
    ensures
        old(wrapper)@.renderer.is_none() || old(wrapper)@.app.is_none() ==> final(wrapper)@ == old(
            wrapper,
        )@ && change == (BlendChange { uniform: None, redraw: false }),
        old(wrapper)@.renderer.is_some() && old(wrapper)@.app.is_some() ==> {
            let renderer = old(wrapper)@.renderer.unwrap();
            let space = if is_srgb {
                BlendColorSpace::Srgb
            } else {
                BlendColorSpace::Linear
            };
            &&& final(wrapper)@ == (AppWrapperView {
                renderer: Some(RendererState { blend_color_space: space, ..renderer }),
                ..old(wrapper)@
            })
            &&& change.redraw
            &&& change.uniform == if renderer.blend_color_space == space {
                None
            } else {
                Some(blend_mode_uniform(space))
            }
        },
{
    let space = if is_srgb {
        BlendColorSpace::Srgb
    } else {
        BlendColorSpace::Linear
    };
    if wrapper.app.is_none() {
        return BlendChange { uniform: None, redraw: false };
    }
    match &mut wrapper.renderer {
        Some(renderer) => {
            let uniform = renderer.set_blend_color_space(space);
            BlendChange { uniform, redraw: true }
        },
        None => BlendChange { uniform: None, redraw: false },
    }
}

/// One brush setting with its new value.
#[derive(Debug, Clone, Copy)]
pub enum BrushSetting {
    /// The brush diameter in pixels.
    Size(i32),
    /// The opacity of each dab.
    Flow(i32),
    /// The edge hardness.
    Hardness(i32),
    /// The spacing between dabs as a fraction of the diameter.
    Spacing(i32),
    /// The brush colour.
    Color([i32; 4]),
    /// Which input sources may draw.
    FilterMode(InputFilterMode),
}

impl BrushSetting {
    /// Why the new value is refused, if it is: a size that is not
    /// positive, a flow or hardness outside `[0, 1]`, a spacing outside
    /// `(0, 1]`. The value alone decides; the other settings play no part.
    pub open spec fn refusal(self) -> Option<BrushParamsError> {
        match self {
            BrushSetting::Size(size) => if size <= 0 {
                Some(BrushParamsError::Size)
            } else {
                None
            },
            BrushSetting::Flow(flow) => if !(0 <= flow <= ONE) {
                Some(BrushParamsError::Flow)
            } else {
                None
            },
            BrushSetting::Hardness(hardness) => if !(0 <= hardness <= ONE) {
                Some(BrushParamsError::Hardness)
            } else {
                None
            },
            BrushSetting::Spacing(spacing) => if !(0 < spacing <= ONE) {
                Some(BrushParamsError::Spacing)
            } else {
                None
            },
            _ => None,
        }
    }

    /// `params` with this one setting changed and all others as they are.
    pub open spec fn changed(self, params: BrushParams) -> BrushParams {
        match self {
            BrushSetting::Size(size) => BrushParams { size, ..params },
            BrushSetting::Flow(flow) => BrushParams { flow, ..params },
            BrushSetting::Hardness(hardness) => BrushParams { hardness, ..params },
            BrushSetting::Spacing(spacing) => BrushParams { spacing, ..params },
            BrushSetting::Color(color) => BrushParams { color, ..params },
            BrushSetting::FilterMode(input_filter_mode) => BrushParams {
                input_filter_mode,
                ..params
            },
        }
    }

    /// Checks the new value.
    fn check(self) -> (result: Result<(), String>)
        ensures
            result.is_ok() <==> self.refusal().is_none(),
            result.is_err() ==> self.refusal().is_some() && result->Err_0@
                == self.refusal().unwrap().message(),
    {
        match self {
            BrushSetting::Size(size) => if size <= 0 {
                Err("Brush size must be positive".to_string())
            } else {
                Ok(())
            },
            BrushSetting::Flow(flow) => if flow < 0 || flow > ONE {
                Err("Flow must be between 0.0 and 1.0".to_string())
            } else {
                Ok(())
            },
            BrushSetting::Hardness(hardness) => if hardness < 0 || hardness > ONE {
                Err("Hardness must be between 0.0 and 1.0".to_string())
            } else {
                Ok(())
            },
            BrushSetting::Spacing(spacing) => if spacing <= 0 || spacing > ONE {
                Err("Spacing must be between 0.0 and 1.0".to_string())
            } else {
                Ok(())
            },
            _ => Ok(()),
        }
    }

    /// `params` with this one setting changed.
    fn change(self, params: BrushParams) -> (changed: BrushParams)
        ensures
            changed == self.changed(params),
    {
        match self {
            BrushSetting::Size(size) => BrushParams { size, ..params },
            BrushSetting::Flow(flow) => BrushParams { flow, ..params },
            BrushSetting::Hardness(hardness) => BrushParams { hardness, ..params },
            BrushSetting::Spacing(spacing) => BrushParams { spacing, ..params },
            BrushSetting::Color(color) => BrushParams { color, ..params },
            BrushSetting::FilterMode(input_filter_mode) => BrushParams {
                input_filter_mode,
                ..params
            },
        }
    }
}

/// The wrapper's application with one brush setting changed and all its
/// other settings, and the stroke in progress, as they are.
pub open spec fn app_with_setting(state: AppWrapperView, setting: BrushSetting) -> AppWrapperView {
    match state.app {
        Some(app) => app_with_params(state, setting.changed(app.params)),
        None => state,
    }
}

/// What setting one brush value leaves behind. A value that is in range
/// changes that one setting in the store and that one setting in the
/// application; every other setting stays as it is in either place, even
/// where the two differ. A value out of range is refused with the message
/// of its fault, and store and application stay as they are.
pub open spec fn setting_applied(
    setting: BrushSetting,
    store_before: Option<BrushParams>,
    wrapper_before: AppWrapperView,
    store_after: Option<BrushParams>,
    wrapper_after: AppWrapperView,
    result: Result<(), String>,
) -> bool {
    match setting.refusal() {
        None => {
            &&& result.is_ok()
            &&& store_after == Some(setting.changed(stored_params(store_before)))
            &&& wrapper_after == app_with_setting(wrapper_before, setting)
        },
        Some(error) => {
            &&& result.is_err()
            &&& result->Err_0@ == error.message()
            &&& store_after == store_before
            &&& wrapper_after == wrapper_before
        },
    }
}

/// Checks one brush setting and, if its value is in range, changes it in
/// the store and in the application.
fn apply_setting(
    store: &mut GlobalBrushParams,
    wrapper: &mut AppWrapper,
    setting: BrushSetting,
) -> (result: Result<(), String>)
    ensures
        setting_applied(
            setting,
            old(store)@,
            old(wrapper)@,
            final(store)@,
            final(wrapper)@,
            result,
        ),
{
    match setting.check() {
        Ok(()) => {
            let stored = get_global_brush_params(store);
            store.slot = Some(setting.change(stored));
            match &mut wrapper.app {
                Some(app) => {
                    let live = app.brush_state().params();
                    app.set_brush_params(setting.change(live));
                },
                None => {},
            }
            Ok(())
        },
        Err(message) => Err(message),
    }
}

/// Sets the brush diameter in the store and in the application. A size
/// that is not positive is refused.
pub fn set_brush_size_global(store: &mut GlobalBrushParams, wrapper: &mut AppWrapper, size: i32) -> (result:
    Result<(), String>)
    ensures
        setting_applied(
            BrushSetting::Size(size),
            old(store)@,
            old(wrapper)@,
            final(store)@,
            final(wrapper)@,
            result,
        ),
{
    apply_setting(store, wrapper, BrushSetting::Size(size))
}

/// Sets the brush flow in the store and in the application. A flow
/// outside `[0, 1]` is refused.
pub fn set_brush_flow_global(store: &mut GlobalBrushParams, wrapper: &mut AppWrapper, flow: i32) -> (result:
    Result<(), String>)
    ensures
        setting_applied(
            BrushSetting::Flow(flow),
            old(store)@,
            old(wrapper)@,
            final(store)@,
            final(wrapper)@,
            result,
        ),
{
    apply_setting(store, wrapper, BrushSetting::Flow(flow))
}

/// Sets the brush hardness in the store and in the application. A
/// hardness outside `[0, 1]` is refused.
pub fn set_brush_hardness_global(
    store: &mut GlobalBrushParams,
    wrapper: &mut AppWrapper,
    hardness: i32,
) -> (result: Result<(), String>)
    ensures
        setting_applied(
            BrushSetting::Hardness(hardness),
            old(store)@,
            old(wrapper)@,
            final(store)@,
            final(wrapper)@,
            result,
        ),
{
    apply_setting(store, wrapper, BrushSetting::Hardness(hardness))
}

/// Sets the spacing between dabs, as a fraction of the brush diameter, in
/// the store and in the application. A spacing outside `(0, 1]` is
/// refused.
pub fn set_brush_spacing_global(
    store: &mut GlobalBrushParams,
    wrapper: &mut AppWrapper,
    spacing: i32,
) -> (result: Result<(), String>)
    ensures
        setting_applied(
            BrushSetting::Spacing(spacing),
            old(store)@,
            old(wrapper)@,
            final(store)@,
            final(wrapper)@,
            result,
        ),
{
    apply_setting(store, wrapper, BrushSetting::Spacing(spacing))
}

/// Sets the brush colour, each channel limited to `[0, 1]`, in the store
/// and in the application. No other setting changes in either place.
pub fn set_brush_color_global(
    store: &mut GlobalBrushParams,
    wrapper: &mut AppWrapper,
    r: i32,
    g: i32,
    b: i32,
    a: i32,
)
    ensures
        ({
            let setting = BrushSetting::Color(
                [accepted_unit(r), accepted_unit(g), accepted_unit(b), accepted_unit(a)],
            );
            &&& final(store)@ == Some(setting.changed(stored_params(old(store)@)))
            &&& final(wrapper)@ == app_with_setting(old(wrapper)@, setting)
        }),
{
    let color: [i32; 4] = [clamp_to_unit(r), clamp_to_unit(g), clamp_to_unit(b), clamp_to_unit(a)];
    let _ = apply_setting(store, wrapper, BrushSetting::Color(color));
}

/// Sets the input filter mode in the store and in the application. No
/// other setting changes in either place.
pub fn set_input_filter_mode_global(
    store: &mut GlobalBrushParams,
    wrapper: &mut AppWrapper,
    pen_only: bool,
)
    ensures
        ({
            let setting = BrushSetting::FilterMode(
                if pen_only {
                    InputFilterMode::PenOnly
                } else {
                    InputFilterMode::PenAndTouch
                },
            );
            &&& final(store)@ == Some(setting.changed(stored_params(old(store)@)))
            &&& final(wrapper)@ == app_with_setting(old(wrapper)@, setting)
        }),
{
    let mode = if pen_only {
        InputFilterMode::PenOnly
    } else {
        InputFilterMode::PenAndTouch
    };
    let _ = apply_setting(store, wrapper, BrushSetting::FilterMode(mode));
}

/// The colour with which the canvas is to be filled to clear it, if
/// compositor and application exist; a redraw follows.
pub fn clear_canvas_global(wrapper: &AppWrapper) -> (fill: Option<[i32; 4]>)
    ensures
        wrapper@.renderer.is_none() || wrapper@.app.is_none() ==> fill.is_none(),
        wrapper@.renderer.is_some() && wrapper@.app.is_some() ==> fill == Some(
            canvas_color(
                wrapper@.app.unwrap().clear_color,
                wrapper@.renderer.unwrap().blend_color_space,
            ),
        ),
{
    match &wrapper.renderer {
        Some(renderer) => match &wrapper.app {
            Some(app) => Some(app.clear_canvas(renderer)),
            None => None,
        },
        None => None,
    }
}

/// The width of the canvas, or zero without a compositor.
pub fn get_canvas_width_global(wrapper: &AppWrapper) -> (width: u32)
    ensures
        width == match wrapper@.renderer {
            Some(renderer) => renderer.surface.width,
            None => 0,
        },
{
    match &wrapper.renderer {
        Some(renderer) => renderer.size().width,
        None => 0,
    }
}

/// The height of the canvas, or zero without a compositor.
pub fn get_canvas_height_global(wrapper: &AppWrapper) -> (height: u32)
    ensures
        height == match wrapper@.renderer {
            Some(renderer) => renderer.surface.height,
            None => 0,
        },
{
    match &wrapper.renderer {
        Some(renderer) => renderer.size().height,
        None => 0,
    }
}

} // verus!
