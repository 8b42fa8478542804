//! The per-frame driver.
//!
//! Once per frame the application drains the input queue, feeds every
//! sample to the stroke resampler, hands the resulting dabs to the
//! compositor, and asks for the canvas to be presented. It is independent
//! of the windowing system and of the graphics device.
use crate::brush::{
    after_sample, sample_placements, serves, stamps, stamps_all, started_stroke, with_source,
    BrushDab, BrushParams, BrushState, Placement, StrokeState,
};
use crate::input::{InputQueue, InputQueueView, PointerEvent, PointerEventType};
use crate::renderer::{
    blend_mode_uniform, canvas_color, dab_instance, BlendColorSpace, DabInstance, Renderer,
    RendererState,
};
use vstd::prelude::*;

verus! {

/// What an [`App`] holds.
pub struct AppView {
    /// Colour to which the canvas is cleared, as authored.
    pub clear_color: [i32; 4],
    /// The input queue.
    pub input: InputQueueView,
    /// The brush parameters.
    pub params: BrushParams,
    /// The state of the stroke in progress.
    pub stroke: StrokeState,
}

/// What is to be drawn in one frame.
pub struct Frame {
    /// Instances to draw onto the canvas, in order; none if empty.
    pub instances: Vec<DabInstance>,
    /// Whether the canvas is then blitted to the surface and presented.
    pub present: bool,
}

/// A new application with the given brush: transparent black clear
/// colour, nothing queued, no stroke yet.
pub open spec fn fresh_app(params: BrushParams) -> AppView {
    AppView {
        clear_color: [0i32, 0i32, 0i32, 0i32],
        input: crate::input::empty_queue(),
        params,
        stroke: crate::brush::fresh_stroke(),
    }
}

/// The stroke state in which the resampler meets an event: the event's
/// source has been announced, and a press has begun a new stroke.
pub open spec fn stroke_for_event(stroke: StrokeState, event: PointerEvent) -> StrokeState {
    let announced = with_source(stroke, event.source);
    if event.event_type == PointerEventType::Down {
        started_stroke(announced)
    } else {
        announced
    }
}

/// The pointer sample that an event carries.
pub open spec fn event_sample(event: PointerEvent) -> Placement {
    Placement { position: event.position, pressure: event.pressure }
}

/// The stroke state after a sequence of events, taken in order.
pub open spec fn after_events(
    stroke: StrokeState,
    params: BrushParams,
    events: Seq<PointerEvent>,
) -> StrokeState
    decreases events.len(),
{
    if events.len() == 0 {
        stroke
    } else {
        after_sample(
            stroke_for_event(after_events(stroke, params, events.drop_last()), events.last()),
            params,
            event_sample(events.last()),
            events.last().event_type,
        )
    }
}

/// The placements that a sequence of events adds, in order.
pub open spec fn events_placements(
    stroke: StrokeState,
    params: BrushParams,
    events: Seq<PointerEvent>,
) -> Seq<Placement>
    decreases events.len(),
{
    if events.len() == 0 {
        Seq::empty()
    } else {
        events_placements(stroke, params, events.drop_last()) + sample_placements(
            stroke_for_event(after_events(stroke, params, events.drop_last()), events.last()),
            params,
            event_sample(events.last()),
            events.last().event_type,
        )
    }
}

/// The instances of a batch of dabs under a blend policy.
pub open spec fn instances_of(dabs: Seq<BrushDab>, space: BlendColorSpace) -> Seq<DabInstance> {
    Seq::new(dabs.len(), |i: int| dab_instance(dabs[i], space))
}

/// Dabs stamped for two runs of placements are, joined, dabs stamped for
/// the joined placements.
pub proof fn lemma_stamps_all_concat<F: Fn(i32, i32) -> i32>(
    params: BrushParams,
    first: Seq<Placement>,
    second: Seq<Placement>,
    curve: &F,
    first_dabs: Seq<BrushDab>,
    second_dabs: Seq<BrushDab>,
)
    requires
        stamps_all(params, first, curve, first_dabs),
        stamps_all(params, second, curve, second_dabs),
    ensures
        stamps_all(params, first + second, curve, first_dabs + second_dabs),
{
    let joined = first + second;
    let dabs = first_dabs + second_dabs;
    assert forall|i: int| 0 <= i < dabs.len() implies stamps(
        params,
        #[trigger] joined[i],
        curve,
        dabs[i],
    ) by {
        if i < first.len() {
            assert(joined[i] == first[i]);
            assert(dabs[i] == first_dabs[i]);
        } else {
            assert(joined[i] == second[i - first.len()]);
            assert(dabs[i] == second_dabs[i - first.len()]);
        }
    }
}

/// Application state: clear colour, input queue and stroke resampler.
pub struct App {
    clear_color: [i32; 4],
    input_queue: InputQueue,
    brush_state: BrushState,
}

impl View for App {
    type V = AppView;

    closed spec fn view(&self) -> AppView {
        AppView {
            clear_color: self.clear_color,
            input: self.input_queue@,
            params: self.brush_state.params(),
            stroke: self.brush_state@,
        }
    }
}

impl App {
    /// Creates an application with the default brush, an empty queue and a
    /// transparent black clear colour.
    pub fn new() -> (app: Self)
        ensures
            app@ == fresh_app(crate::brush::default_brush_params()),
    {
        Self::with_brush_params(BrushParams::default())
    }

    /// Creates an application with the given brush.
    pub fn with_brush_params(params: BrushParams) -> (app: Self)
        ensures
            app@ == fresh_app(params),
    {
        App {
            clear_color: [0, 0, 0, 0],
            input_queue: InputQueue::new(),
            brush_state: BrushState::with_params(params),
        }
    }

    /// Advances time by `delta_time` microseconds. Nothing in the
    /// application state depends on time.
    pub fn update(&mut self, delta_time: i64)
        ensures
            final(self)@ == old(self)@,
    {
    }

    /// Plans one frame: processes the pending input, converts the dabs to
    /// instances under the compositor's blend policy, and decides whether
    /// the canvas can be presented.
    pub fn render<F: Fn(i32, i32) -> i32>(
        &mut self,
        renderer: &Renderer,
        texture_available: bool,
        curve: &F,
    ) -> (frame: Frame)
        requires
            serves(curve, old(self)@.params),
        ensures
            final(self)@ == (AppView {
                input: InputQueueView { events: Seq::empty(), ..old(self)@.input },
                stroke: after_events(old(self)@.stroke, old(self)@.params, old(self)@.input.events),
                ..old(self)@
            }),
            frame.present == (renderer@.surface.width > 0 && renderer@.surface.height > 0
                && texture_available),
            exists|dabs: Seq<BrushDab>|
                stamps_all(
                    old(self)@.params,
                    events_placements(
                        old(self)@.stroke,
                        old(self)@.params,
                        old(self)@.input.events,
                    ),
                    curve,
                    dabs,
                ) && frame.instances@ == #[trigger] instances_of(
                    dabs,
                    renderer@.blend_color_space,
                ),
    {
        let dabs = self.process_input_events(curve);
        let instances = if dabs.len() > 0 {
            renderer.render_dabs(dabs.as_slice())
        } else {
            Vec::new()
        };
        let present = renderer.render(texture_available);
        assert(instances@ == instances_of(dabs@, renderer@.blend_color_space));
        Frame { instances, present }
    }

    /// The colour with which the canvas is filled when it is cleared to the
    /// application's clear colour under the compositor's blend policy.
    pub fn clear_canvas(&self, renderer: &Renderer) -> (fill: [i32; 4])
        ensures
            fill == canvas_color(self@.clear_color, renderer@.blend_color_space),
    {
        renderer.clear_canvas(&self.clear_color)
    }

    /// Sets the clear colour.
    pub fn set_clear_color(&mut self, r: i32, g: i32, b: i32, a: i32)
        ensures
            final(self)@ == (AppView { clear_color: [r, g, b, a], ..old(self)@ }),
    {
        self.clear_color = [r, g, b, a];
    }

    /// The clear colour.
    pub fn clear_color(&self) -> (color: [i32; 4])
        ensures
            color == self@.clear_color,
    {
        self.clear_color
    }

    /// Offers a pointer event to the input queue.
    pub fn queue_input_event(&mut self, event: PointerEvent)
        ensures
            final(self)@ == (AppView {
                input: crate::input::after_push(old(self)@.input, event),
                ..old(self)@
            }),
    {
        self.input_queue.push_event(event);
    }

    /// Whether any input is pending.
    pub fn has_pending_input(&self) -> (pending: bool)
        ensures
            pending == (self@.input.events.len() > 0),
    {
        self.input_queue.has_events()
    }

    /// The stroke resampler.
    pub fn brush_state(&self) -> (state: &BrushState)
        ensures
            state.params() == self@.params,
            state@ == self@.stroke,
    {
        &self.brush_state
    }

    /// The stroke resampler, for adjustment. What the caller leaves in it
    /// is what the application holds afterwards.
    pub fn brush_state_mut(&mut self) -> (state: &mut BrushState)
        ensures
            state.params() == old(self)@.params,
            state@ == old(self)@.stroke,
            final(self)@ == (AppView {
                params: final(state).params(),
                stroke: final(state)@,
                ..old(self)@
            }),
    {
        &mut self.brush_state
    }

    /// Replaces the brush parameters; the stroke in progress is kept.
    pub fn set_brush_params(&mut self, params: BrushParams)
        ensures
            final(self)@ == (AppView { params, ..old(self)@ }),
    {
        self.brush_state.set_params(params);
    }

    /// Switches the compositor's blend policy. The application state and
    /// everything in the compositor but the policy stay as they are; the
    /// result is the value to write to the blend-mode uniform, if any.
    pub fn set_blend_color_space(
        &mut self,
        color_space: BlendColorSpace,
        renderer: &mut Renderer,
    ) -> (uniform: Option<u32>)
        ensures
            final(self)@ == old(self)@,
            final(renderer)@ == (RendererState {
                blend_color_space: color_space,
                ..old(renderer)@
            }),
            old(renderer)@.blend_color_space == color_space ==> uniform.is_none(),
            old(renderer)@.blend_color_space != color_space ==> uniform == Some(
                blend_mode_uniform(color_space),
            ),
    {
        renderer.set_blend_color_space(color_space)
    }

    /// The compositor's blend policy.
    pub fn blend_color_space(&self, renderer: &Renderer) -> (space: BlendColorSpace)
        ensures
            space == renderer@.blend_color_space,
    {
        renderer.blend_color_space()
    }

    /// Drains the input queue and resamples every event into dabs.
    ///
    /// Before an event reaches the resampler its source is announced, so
    /// that a change of source ends the stroke in progress, and a press
    /// begins a new stroke.
    pub fn process_input_events<F: Fn(i32, i32) -> i32>(&mut self, curve: &F) -> (dabs: Vec<
        BrushDab,
    >)
        requires
            serves(curve, old(self)@.params),
        ensures
            final(self)@ == (AppView {
                input: InputQueueView { events: Seq::empty(), ..old(self)@.input },
                stroke: after_events(old(self)@.stroke, old(self)@.params, old(self)@.input.events),
                ..old(self)@
            }),
            stamps_all(
                old(self)@.params,
                events_placements(old(self)@.stroke, old(self)@.params, old(self)@.input.events),
                curve,
                dabs@,
            ),
    {
        let ghost start = old(self)@.stroke;
        let ghost params = old(self)@.params;
        let events = self.input_queue.drain_events();
        let mut all_dabs: Vec<BrushDab> = Vec::new();
        let mut i: usize = 0;
        while i < events.len()
            invariant
                i <= events@.len(),
                events@ == old(self)@.input.events,
                start == old(self)@.stroke,
                params == old(self)@.params,
                self.clear_color == old(self).clear_color,
                self.input_queue@ == (InputQueueView {
                    events: Seq::empty(),
                    ..old(self)@.input
                }),
                self.brush_state.params() == params,
                self.brush_state@ == after_events(start, params, events@.take(i as int)),
                stamps_all(
                    params,
                    events_placements(start, params, events@.take(i as int)),
                    curve,
                    all_dabs@,
                ),
                serves(curve, params),
            decreases events@.len() - i,
        {
            let event: PointerEvent = events[i];
            let ghost before = events@.take(i as int);
            let ghost upto = events@.take(i + 1);
            assert(upto.drop_last() == before);
            assert(upto.last() == event);
            self.brush_state.update_brush_src(event.source);
            match event.event_type {
                PointerEventType::Down => {
                    self.brush_state.begin_stroke();
                },
                _ => {},
            }
            let mut dabs = self.brush_state.calculate_dabs(
                event.position,
                event.pressure,
                event.event_type,
                curve,
            );
            proof {
                lemma_stamps_all_concat(
                    params,
                    events_placements(start, params, before),
                    sample_placements(
                        stroke_for_event(after_events(start, params, before), event),
                        params,
                        event_sample(event),
                        event.event_type,
                    ),
                    curve,
                    all_dabs@,
                    dabs@,
                );
            }
            all_dabs.append(&mut dabs);
            i += 1;
        }
        assert(events@.take(events@.len() as int) == events@);
        all_dabs
    }
}

impl Default for App {
    fn default() -> (app: Self)
        ensures
            app@ == fresh_app(crate::brush::default_brush_params()),
    {
        Self::new()
    }
}

} // verus!
