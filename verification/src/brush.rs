//! Brush parameters and the stroke resampler.
//!
//! The resampler turns sparse pointer samples into brush dabs placed at a
//! fixed distance from each other along the path of the stroke. Every
//! scalar is a 16.16 fixed-point number (see [`crate::fixed`]).
//!
//! The power function of the pressure curve is the one computation that the
//! resampler does not perform itself: callers pass it in as `curve`, a
//! function from a base in `[0, 1]` and an exponent to the base raised to
//! that exponent.
use crate::fixed::{
    clamp, clamp_unit, interpolate, isqrt, lemma_product_bound, lemma_product_unit, lerp,
    mul_fixed, product, sqrt_floor, unsigned_magnitude, ONE,
};
use crate::input::{PointerEventSource, PointerEventType};
use vstd::prelude::*;

verus! {

/// Smallest spacing between dabs, as a fraction of the brush diameter
/// (about one hundredth).
pub const MIN_SPACING_RATIO: i32 = 655;

/// How input pressure modulates the brush.
#[derive(Debug, Clone, Copy, PartialEq, Eq, Structural)]
pub enum PressureMapping {
    /// Pressure controls opacity.
    Flow,
    /// Pressure controls size.
    Size,
    /// Pressure controls both size and opacity.
    Both,
    /// No pressure sensitivity.
    Off,
}

impl Default for PressureMapping {
    fn default() -> (mapping: Self)
        ensures
            mapping == PressureMapping::Both,
    {
        PressureMapping::Both
    }
}

impl PressureMapping {
    /// Whether pressure scales the dab's size under this mapping.
    pub open spec fn scales_size(self) -> bool {
        self == PressureMapping::Size || self == PressureMapping::Both
    }

    /// Whether pressure scales the dab's opacity under this mapping.
    pub open spec fn scales_flow(self) -> bool {
        self == PressureMapping::Flow || self == PressureMapping::Both
    }
}

/// Which input sources may draw.
#[derive(Debug, Clone, Copy, PartialEq, Eq, Structural)]
pub enum InputFilterMode {
    /// Only stylus-like input draws; touch is rejected.
    PenOnly,
    /// Pen, touch and mouse all draw.
    PenAndTouch,
}

impl Default for InputFilterMode {
    fn default() -> (mode: Self)
        ensures
            mode == InputFilterMode::PenAndTouch,
    {
        InputFilterMode::PenAndTouch
    }
}

impl InputFilterMode {
    /// Whether samples from `source` may draw under this mode.
    pub open spec fn accepts_source(self, source: PointerEventSource) -> bool {
        !(self == InputFilterMode::PenOnly && source == PointerEventSource::Touch)
    }

    /// Whether samples from `source` may draw under this mode: pen-only
    /// mode rejects touch and nothing else.
    pub fn accepts(self, source: PointerEventSource) -> (accepted: bool)
        ensures
            accepted == self.accepts_source(source),
            self == InputFilterMode::PenAndTouch ==> accepted,
            self == InputFilterMode::PenOnly ==> (accepted <==> source
                != PointerEventSource::Touch),
    {
        match self {
            InputFilterMode::PenOnly => match source {
                PointerEventSource::Touch => false,
                _ => true,
            },
            InputFilterMode::PenAndTouch => true,
        }
    }
}

/// Parameters that define brush behaviour.
#[derive(Debug, Clone, Copy)]
pub struct BrushParams {
    /// Brush diameter in pixels.
    pub size: i32,
    /// Base opacity of each dab, in `[0, 1]`.
    pub flow: i32,
    /// Edge hardness, from `0` (soft) to `1` (hard).
    pub hardness: i32,
    /// Distance between dabs as a fraction of the diameter, in `(0, 1]`.
    pub spacing: i32,
    /// Brush colour as authored (gamma-encoded RGB, linear alpha).
    pub color: [i32; 4],
    /// How pressure modulates the brush.
    pub pressure_mapping: PressureMapping,
    /// Size factor at zero pressure.
    pub min_size_percent: i32,
    /// Size factor at full pressure; may exceed `1`.
    pub max_size_percent: i32,
    /// Opacity factor at zero pressure.
    pub min_flow_percent: i32,
    /// Opacity factor at full pressure; may exceed `1`.
    pub max_flow_percent: i32,
    /// Exponent of the size pressure curve.
    pub size_gamma: i32,
    /// Exponent of the opacity pressure curve.
    pub flow_gamma: i32,
    /// Which input sources may draw.
    pub input_filter_mode: InputFilterMode,
}

/// The parameters of the default brush.
pub open spec fn default_brush_params() -> BrushParams {
    BrushParams {
        size: 1966080,
        flow: 65536,
        hardness: 65536,
        spacing: 9830,
        color: [41891, 514, 57054, 65536],
        pressure_mapping: PressureMapping::Both,
        min_size_percent: 0,
        max_size_percent: 262144,
        min_flow_percent: 3276,
        max_flow_percent: 262144,
        size_gamma: 78643,
        flow_gamma: 117964,
        input_filter_mode: InputFilterMode::PenAndTouch,
    }
}

/// Why a set of brush parameters is refused.
#[derive(Debug, Clone, Copy, PartialEq, Eq, Structural)]
pub enum BrushParamsError {
    /// The size is zero or negative.
    Size,
    /// The flow lies outside `[0, 1]`.
    Flow,
    /// The hardness lies outside `[0, 1]`.
    Hardness,
    /// The spacing lies outside `(0, 1]`.
    Spacing,
}

impl BrushParamsError {
    /// The text that `validate` reports for this refusal.
    pub open spec fn message(self) -> Seq<char> {
        match self {
            BrushParamsError::Size => "Brush size must be positive"@,
            BrushParamsError::Flow => "Flow must be between 0.0 and 1.0"@,
            BrushParamsError::Hardness => "Hardness must be between 0.0 and 1.0"@,
            BrushParamsError::Spacing => "Spacing must be between 0.0 and 1.0"@,
        }
    }
}

/// The value of a pressure curve whose power term is `curved`:
/// `min + curved * (max - min)`.
pub open spec fn pressure_curve(curved: int, min: int, max: int) -> int {
    min + product(curved, max - min)
}

/// The factor by which a curve with power term `curved` scales size or
/// opacity: the curve's value limited to `[0, 1]`.
pub open spec fn pressure_scale(curved: int, min: int, max: int) -> int {
    clamp(pressure_curve(curved, min, max), 0, ONE as int)
}

/// The dabs of a valid brush: whatever the pressure curves give, a dab is
/// no larger than the brush, no more opaque than its flow, and its opacity
/// lies in `[0, 1]`.
pub proof fn lemma_dab_in_range(
    params: BrushParams,
    position: [i32; 2],
    size_curve: i32,
    flow_curve: i32,
)
    requires
        params.first_error().is_none(),
    ensures
        0 <= params.dab(position, size_curve, flow_curve).size <= params.size,
        0 <= params.dab(position, size_curve, flow_curve).opacity <= params.flow,
        params.dab(position, size_curve, flow_curve).opacity <= ONE,
{
    let size_scale = pressure_scale(
        size_curve as int,
        params.min_size_percent as int,
        params.max_size_percent as int,
    );
    let flow_scale = pressure_scale(
        flow_curve as int,
        params.min_flow_percent as int,
        params.max_flow_percent as int,
    );
    lemma_product_unit(params.size as int, size_scale);
    lemma_product_unit(params.flow as int, flow_scale);
    assert(product(params.size as int, size_scale) >= 0) by (nonlinear_arith)
        requires
            params.size >= 0,
            size_scale >= 0,
            product(params.size as int, size_scale) == (params.size * size_scale) / 65536,
    ;
    assert(product(params.flow as int, flow_scale) >= 0) by (nonlinear_arith)
        requires
            params.flow >= 0,
            flow_scale >= 0,
            product(params.flow as int, flow_scale) == (params.flow * flow_scale) / 65536,
    ;
}

impl BrushParams {
    /// The first refusal that `validate` reports, if any.
    pub open spec fn first_error(&self) -> Option<BrushParamsError> {
        if self.size <= 0 {
            Some(BrushParamsError::Size)
        } else if !(0 <= self.flow <= ONE) {
            Some(BrushParamsError::Flow)
        } else if !(0 <= self.hardness <= ONE) {
            Some(BrushParamsError::Hardness)
        } else if !(0 < self.spacing <= ONE) {
            Some(BrushParamsError::Spacing)
        } else {
            None
        }
    }

    /// The distance in pixels between consecutive dabs: the spacing
    /// fraction, raised to the minimum ratio, times the diameter.
    pub open spec fn spacing_pixels(&self) -> int {
        product(vstd::math::max(self.spacing as int, MIN_SPACING_RATIO as int), self.size as int)
    }

    /// The dab that these parameters stamp at `position` when the power
    /// terms of the size and opacity curves are `size_curve` and
    /// `flow_curve`. A term whose curve the pressure mapping does not use
    /// has no influence.
    pub open spec fn dab(&self, position: [i32; 2], size_curve: i32, flow_curve: i32) -> BrushDab {
        let size_scale = pressure_scale(
            size_curve as int,
            self.min_size_percent as int,
            self.max_size_percent as int,
        );
        let flow_scale = pressure_scale(
            flow_curve as int,
            self.min_flow_percent as int,
            self.max_flow_percent as int,
        );
        BrushDab {
            position,
            size: if self.pressure_mapping.scales_size() {
                product(self.size as int, size_scale) as i32
            } else {
                self.size
            },
            opacity: if self.pressure_mapping.scales_flow() {
                product(self.flow as int, flow_scale) as i32
            } else {
                self.flow
            },
            color: self.color,
            hardness: self.hardness,
        }
    }

    /// Creates brush parameters from the five basic settings; the rest are
    /// those of the default brush.
    pub fn new(size: i32, flow: i32, hardness: i32, spacing: i32, color: [i32; 4]) -> (params:
        Self)
        ensures
            params == (BrushParams { size, flow, hardness, spacing, color, ..default_brush_params() }),
    {
        let base = BrushParams::default();
        BrushParams {
            size,
            flow,
            hardness,
            spacing,
            color,
            pressure_mapping: base.pressure_mapping,
            min_size_percent: base.min_size_percent,
            max_size_percent: base.max_size_percent,
            min_flow_percent: base.min_flow_percent,
            max_flow_percent: base.max_flow_percent,
            size_gamma: base.size_gamma,
            flow_gamma: base.flow_gamma,
            input_filter_mode: base.input_filter_mode,
        }
    }

    /// The value of a pressure curve whose power term is `curved`.
    pub fn apply_pressure_curve(curved: i32, min: i32, max: i32) -> (value: i64)
        ensures
            value == pressure_curve(curved as int, min as int, max as int),
    {
        let range: i64 = max as i64 - min as i64;
        proof {
            lemma_product_bound(curved as int, range as int, 0x8000_0000, 0x1_0000_0000);
        }
        let scaled: i128 = mul_fixed(curved as i64, range);
        (min as i128 + scaled) as i64
    }

    /// Checks that the parameters are usable: a positive size, flow and
    /// hardness in `[0, 1]`, and spacing in `(0, 1]`. The first setting
    /// that is out of range is reported by its message.
    pub fn validate(&self) -> (result: Result<(), String>)
        ensures
            result.is_ok() <==> self.first_error().is_none(),
            result matches Err(message) ==> self.first_error() matches Some(error)
                && message@ == error.message(),
    {
        if self.size <= 0 {
            return Err("Brush size must be positive".to_string());
        }
        if self.flow < 0 || self.flow > ONE {
            return Err("Flow must be between 0.0 and 1.0".to_string());
        }
        if self.hardness < 0 || self.hardness > ONE {
            return Err("Hardness must be between 0.0 and 1.0".to_string());
        }
        if self.spacing <= 0 || self.spacing > ONE {
            return Err("Spacing must be between 0.0 and 1.0".to_string());
        }
        Ok(())
    }

    /// The distance in pixels between consecutive dabs.
    pub fn spacing_px(&self) -> (spacing: i64)
        ensures
            spacing == self.spacing_pixels(),
    {
        let ratio: i32 = if self.spacing > MIN_SPACING_RATIO {
            self.spacing
        } else {
            MIN_SPACING_RATIO
        };
        proof {
            lemma_product_bound(ratio as int, self.size as int, 0x8000_0000, 0x8000_0000);
        }
        mul_fixed(ratio as i64, self.size as i64) as i64
    }

    /// Stamps a dab at `position` from the power terms of the two pressure
    /// curves. With valid parameters the dab is no larger than the brush
    /// and its opacity lies in `[0, 1]`.
    pub fn dab_from_curves(&self, position: [i32; 2], size_curve: i32, flow_curve: i32) -> (dab:
        BrushDab)
        ensures
            dab == self.dab(position, size_curve, flow_curve),
            self.first_error().is_none() ==> 0 <= dab.size <= self.size && 0 <= dab.opacity
                <= ONE,
    {
        proof {
            if self.first_error().is_none() {
                lemma_dab_in_range(*self, position, size_curve, flow_curve);
            }
        }
        let size: i32 = match self.pressure_mapping {
            PressureMapping::Size | PressureMapping::Both => {
                let scale: i32 = clamp_unit(
                    Self::apply_pressure_curve(
                        size_curve,
                        self.min_size_percent,
                        self.max_size_percent,
                    ),
                );
                proof {
                    lemma_product_unit(self.size as int, scale as int);
                }
                mul_fixed(self.size as i64, scale as i64) as i32
            },
            _ => self.size,
        };
        let opacity: i32 = match self.pressure_mapping {
            PressureMapping::Flow | PressureMapping::Both => {
                let scale: i32 = clamp_unit(
                    Self::apply_pressure_curve(
                        flow_curve,
                        self.min_flow_percent,
                        self.max_flow_percent,
                    ),
                );
                proof {
                    lemma_product_unit(self.flow as int, scale as int);
                }
                mul_fixed(self.flow as i64, scale as i64) as i32
            },
            _ => self.flow,
        };
        BrushDab { position, size, opacity, color: self.color, hardness: self.hardness }
    }
}

impl Default for BrushParams {
    fn default() -> (params: Self)
        ensures
            params == default_brush_params(),
    {
        BrushParams {
            size: 1966080,
            flow: 65536,
            hardness: 65536,
            spacing: 9830,
            color: [41891, 514, 57054, 65536],
            pressure_mapping: PressureMapping::Both,
            min_size_percent: 0,
            max_size_percent: 262144,
            min_flow_percent: 3276,
            max_flow_percent: 262144,
            size_gamma: 78643,
            flow_gamma: 117964,
            input_filter_mode: InputFilterMode::PenAndTouch,
        }
    }
}

/// A single stamp of the brush, ready for the compositor.
#[derive(Debug, Clone, Copy)]
pub struct BrushDab {
    /// Centre in canvas space (pixels).
    pub position: [i32; 2],
    /// Diameter in pixels.
    pub size: i32,
    /// Opacity of this dab.
    pub opacity: i32,
    /// Colour as authored; the compositor converts it per blend policy.
    pub color: [i32; 4],
    /// Edge hardness.
    pub hardness: i32,
}

/// The state that the resampler carries from one call to the next.
pub struct StrokeState {
    /// Where the last dab of the stroke was placed, or the seed position
    /// before any dab; `None` before the first sample of a stroke.
    pub last_dab_position: Option<[i32; 2]>,
    /// Pressure at the last dab, or at the seed.
    pub last_dab_pressure: i32,
    /// Whether a move has been processed since the seed.
    pub has_moved: bool,
    /// Whether a stroke is in progress.
    pub brush_down: bool,
    /// Source of the stroke in progress.
    pub brush_src: PointerEventSource,
}

/// Where a dab goes, and the pressure that shapes it.
pub struct Placement {
    pub position: [i32; 2],
    pub pressure: i32,
}

/// The state between strokes.
pub open spec fn idle_stroke() -> StrokeState {
    StrokeState {
        last_dab_position: None,
        last_dab_pressure: 0,
        has_moved: false,
        brush_down: false,
        brush_src: PointerEventSource::Unknown,
    }
}

/// The state of a resampler that has not seen a stroke yet: as between
/// strokes, with full pressure on record.
pub open spec fn fresh_stroke() -> StrokeState {
    StrokeState { last_dab_pressure: ONE, ..idle_stroke() }
}

/// The state at the start of a stroke: nothing recorded, brush down, the
/// source as it was.
pub open spec fn started_stroke(stroke: StrokeState) -> StrokeState {
    StrokeState {
        last_dab_position: None,
        last_dab_pressure: 0,
        has_moved: false,
        brush_down: true,
        brush_src: stroke.brush_src,
    }
}

/// The state after a sample from `source` has been announced: a change of
/// source in the middle of a stroke ends the stroke.
pub open spec fn with_source(stroke: StrokeState, source: PointerEventSource) -> StrokeState {
    if stroke.brush_src != source && stroke.brush_down {
        StrokeState { brush_src: source, ..idle_stroke() }
    } else {
        StrokeState { brush_src: source, ..stroke }
    }
}

/// Whether the resampler ignores a sample: no stroke is in progress, or the
/// filter mode refuses the stroke's source.
pub open spec fn ignores_sample(stroke: StrokeState, params: BrushParams) -> bool {
    !stroke.brush_down || !params.input_filter_mode.accepts_source(stroke.brush_src)
}

/// The length of the segment between two points, rounded down.
pub open spec fn segment_length(from: [i32; 2], to: [i32; 2]) -> int {
    sqrt_floor((to[0] - from[0]) * (to[0] - from[0]) + (to[1] - from[1]) * (to[1] - from[1]))
}

/// How many dabs fit on the segment from `from` to `to` at the given
/// spacing: the length divided by the spacing, rounded down. No dab is
/// placed unless the spacing is positive.
pub open spec fn segment_dab_count(from: [i32; 2], to: [i32; 2], spacing: int) -> int {
    if spacing > 0 {
        segment_length(from, to) / spacing
    } else {
        0
    }
}

/// The `k`-th placement on a segment (counting from one): `k` spacings
/// along the segment from its start, with pressure interpolated between
/// the two ends at the same fraction.
pub open spec fn segment_placement(
    from: Placement,
    to: Placement,
    spacing: int,
    k: int,
) -> Placement {
    let length = segment_length(from.position, to.position);
    Placement {
        position: [
            interpolate(from.position[0] as int, to.position[0] as int, k * spacing, length) as i32,
            interpolate(from.position[1] as int, to.position[1] as int, k * spacing, length) as i32,
        ],
        pressure: interpolate(from.pressure as int, to.pressure as int, k * spacing, length) as i32,
    }
}

/// The placements on the segment from `from` to `to`, in the order in
/// which they are met.
pub open spec fn segment_placements(from: Placement, to: Placement, spacing: int) -> Seq<
    Placement,
> {
    Seq::new(
        segment_dab_count(from.position, to.position, spacing) as nat,
        |i: int| segment_placement(from, to, spacing, i + 1),
    )
}

/// The record of the last dab after the segment from `from` to `to`: the
/// last placement on the segment, or `from` when nothing was placed.
pub open spec fn segment_end(from: Placement, to: Placement, spacing: int) -> Placement {
    let count = segment_dab_count(from.position, to.position, spacing);
    if count > 0 {
        segment_placement(from, to, spacing, count)
    } else {
        from
    }
}

/// Whether a sample of the given phase is the first move of its stroke.
pub open spec fn is_first_move(stroke: StrokeState, phase: PointerEventType) -> bool {
    !stroke.has_moved && phase == PointerEventType::Move
}

/// The placements that one sample adds to a stroke, in the order in which
/// they are stamped.
///
/// Nothing is placed while the sample is ignored or only seeds the stroke.
/// The first move after the seed places a catch-up dab at the seed with
/// the pressure of the move. Then come the dabs of the segment from the
/// last dab (or the seed) to the sample.
pub open spec fn sample_placements(
    stroke: StrokeState,
    params: BrushParams,
    sample: Placement,
    phase: PointerEventType,
) -> Seq<Placement> {
    if ignores_sample(stroke, params) || stroke.last_dab_position.is_none() {
        Seq::empty()
    } else {
        let from = Placement {
            position: stroke.last_dab_position.unwrap(),
            pressure: stroke.last_dab_pressure,
        };
        let catch_up = if is_first_move(stroke, phase) {
            seq![Placement { position: from.position, pressure: sample.pressure }]
        } else {
            Seq::empty()
        };
        catch_up + segment_placements(from, sample, params.spacing_pixels())
    }
}

/// The state of the stroke after one sample.
///
/// An ignored sample changes nothing. Otherwise a release ends the stroke;
/// the first sample of a stroke becomes its seed; and any later sample
/// moves the last-dab record to the last dab placed on its segment, if
/// there is one.
pub open spec fn after_sample(
    stroke: StrokeState,
    params: BrushParams,
    sample: Placement,
    phase: PointerEventType,
) -> StrokeState {
    if ignores_sample(stroke, params) {
        stroke
    } else if phase == PointerEventType::Up {
        idle_stroke()
    } else if stroke.last_dab_position.is_none() {
        StrokeState {
            last_dab_position: Some(sample.position),
            last_dab_pressure: sample.pressure,
            ..stroke
        }
    } else {
        let from = Placement {
            position: stroke.last_dab_position.unwrap(),
            pressure: stroke.last_dab_pressure,
        };
        let last = segment_end(from, sample, params.spacing_pixels());
        StrokeState {
            last_dab_position: Some(last.position),
            last_dab_pressure: last.pressure,
            has_moved: stroke.has_moved || phase == PointerEventType::Move,
            ..stroke
        }
    }
}

/// Whether `curve` can be asked for every power term that `params` may
/// need: it accepts every base in `[0, 1]` with the exponent of either
/// pressure curve.
pub open spec fn serves<F: Fn(i32, i32) -> i32>(curve: &F, params: BrushParams) -> bool {
    &&& forall|base: i32|
        0 <= base <= ONE ==> #[trigger] call_requires(*curve, (base, params.size_gamma))
    &&& forall|base: i32|
        0 <= base <= ONE ==> #[trigger] call_requires(*curve, (base, params.flow_gamma))
}

/// What a function owes to stand for raising to the power `exponent`: on
/// bases in `[0, 1]` its results lie in `[0, 1]`, one raised to the power
/// is one, and equal bases give equal results.
pub open spec fn raises_to<F: Fn(i32, i32) -> i32>(curve: &F, exponent: i32) -> bool {
    &&& forall|base: i32, result: i32|
        0 <= base <= ONE && #[trigger] call_ensures(*curve, (base, exponent), result) ==> 0
            <= result <= ONE
    &&& forall|result: i32| #[trigger]
        call_ensures(*curve, (ONE, exponent), result) ==> result == ONE
    &&& forall|base: i32, first: i32, second: i32|
        #[trigger] call_ensures(*curve, (base, exponent), first) && #[trigger] call_ensures(
            *curve,
            (base, exponent),
            second,
        ) ==> first == second
}

/// Whether `curve` is a power function for both pressure curves of
/// `params`.
pub open spec fn is_power_curve<F: Fn(i32, i32) -> i32>(curve: &F, params: BrushParams) -> bool {
    raises_to(curve, params.size_gamma) && raises_to(curve, params.flow_gamma)
}

/// Whether `dab` is a dab that `params` stamps for `placement` when the
/// power terms of its pressure curves come from `curve`: the function is
/// applied to the placement's pressure, limited to `[0, 1]`, and the
/// exponent of each curve that the pressure mapping uses.
pub open spec fn stamps<F: Fn(i32, i32) -> i32>(
    params: BrushParams,
    placement: Placement,
    curve: &F,
    dab: BrushDab,
) -> bool {
    let base = clamp(placement.pressure as int, 0, ONE as int) as i32;
    exists|size_curve: i32, flow_curve: i32|
        {
            &&& params.pressure_mapping.scales_size() ==> call_ensures(
                *curve,
                (base, params.size_gamma),
                size_curve,
            )
            &&& params.pressure_mapping.scales_flow() ==> call_ensures(
                *curve,
                (base, params.flow_gamma),
                flow_curve,
            )
            &&& dab == #[trigger] params.dab(placement.position, size_curve, flow_curve)
        }
}

/// Whether `dabs` are, one for one and in order, dabs that `params` stamps
/// for `placements`.
pub open spec fn stamps_all<F: Fn(i32, i32) -> i32>(
    params: BrushParams,
    placements: Seq<Placement>,
    curve: &F,
    dabs: Seq<BrushDab>,
) -> bool {
    &&& dabs.len() == placements.len()
    &&& forall|i: int|
        0 <= i < dabs.len() ==> stamps(params, #[trigger] placements[i], curve, dabs[i])
}

/// The stroke resampler: brush parameters and the state of the stroke in
/// progress.
pub struct BrushState {
    params: BrushParams,
    stroke: StrokeState,
}

impl View for BrushState {
    type V = StrokeState;

    closed spec fn view(&self) -> StrokeState {
        self.stroke
    }
}

impl BrushState {
    /// The current brush parameters.
    pub closed spec fn spec_params(&self) -> BrushParams {
        self.params
    }

    /// The current brush parameters, read afresh for every dab.
    #[verifier::when_used_as_spec(spec_params)]
    pub fn params(&self) -> (params: BrushParams)
        ensures
            params == self.params(),
    {
        self.params
    }

    /// Replaces the brush parameters; the stroke in progress is kept.
    pub fn set_params(&mut self, params: BrushParams)
        ensures
            final(self).params() == params,
            final(self)@ == old(self)@,
    {
        self.params = params;
    }

    /// Creates a resampler with the default brush, between strokes.
    pub fn new() -> (state: Self)
        ensures
            state.params() == default_brush_params(),
            state@ == fresh_stroke(),
    {
        Self::with_params(BrushParams::default())
    }

    /// Creates a resampler with the given brush, between strokes.
    pub fn with_params(params: BrushParams) -> (state: Self)
        ensures
            state.params() == params,
            state@ == fresh_stroke(),
    {
        Self {
            params,
            stroke: StrokeState {
                last_dab_position: None,
                last_dab_pressure: ONE,
                has_moved: false,
                brush_down: false,
                brush_src: PointerEventSource::Unknown,
            },
        }
    }

    /// Announces the source of the next sample. If it differs from the
    /// source of the stroke in progress, the stroke ends at once.
    pub fn update_brush_src(&mut self, source: PointerEventSource)
        ensures
            final(self)@ == with_source(old(self)@, source),
            final(self).params() == old(self).params(),
    {
        if self.stroke.brush_src != source && self.stroke.brush_down {
            self.end_stroke();
        }
        self.stroke.brush_src = source;
    }

    /// Returns the resampler to the state between strokes.
    pub fn reset_brush(&mut self)
        ensures
            final(self)@ == idle_stroke(),
            final(self).params() == old(self).params(),
    {
        self.stroke.last_dab_position = None;
        self.stroke.last_dab_pressure = 0;
        self.stroke.has_moved = false;
        self.stroke.brush_down = false;
        self.stroke.brush_src = PointerEventSource::Unknown;
    }

    /// Begins a stroke: the brush is down and nothing is recorded yet.
    pub fn begin_stroke(&mut self)
        ensures
            final(self)@ == started_stroke(old(self)@),
            final(self).params() == old(self).params(),
    {
        self.stroke.last_dab_position = None;
        self.stroke.last_dab_pressure = 0;
        self.stroke.has_moved = false;
        self.stroke.brush_down = true;
    }

    /// Ends the stroke in progress.
    pub fn end_stroke(&mut self)
        ensures
            final(self)@ == idle_stroke(),
            final(self).params() == old(self).params(),
    {
        self.reset_brush();
    }

    /// The length of the segment between two points, rounded down.
    fn segment_length_of(from: [i32; 2], to: [i32; 2]) -> (length: u64)
        ensures
            length == segment_length(from, to),
            length < 0x2_0000_0000,
    {
        let dx: u64 = unsigned_magnitude(to[0] as i64 - from[0] as i64);
        let dy: u64 = unsigned_magnitude(to[1] as i64 - from[1] as i64);
        assert(dx * dx == (to[0] - from[0]) * (to[0] - from[0])) by (nonlinear_arith)
            requires
                dx == if to[0] - from[0] < 0 {
                    -(to[0] - from[0])
                } else {
                    to[0] - from[0]
                },
        ;
        assert(dy * dy == (to[1] - from[1]) * (to[1] - from[1])) by (nonlinear_arith)
            requires
                dy == if to[1] - from[1] < 0 {
                    -(to[1] - from[1])
                } else {
                    to[1] - from[1]
                },
        ;
        assert(dx * dx <= 0xffff_ffff * 0xffff_ffff) by (nonlinear_arith)
            requires
                0 <= dx <= 0xffff_ffff,
        ;
        assert(dy * dy <= 0xffff_ffff * 0xffff_ffff) by (nonlinear_arith)
            requires
                0 <= dy <= 0xffff_ffff,
        ;
        let squares: u128 = (dx as u128) * (dx as u128) + (dy as u128) * (dy as u128);
        let length: u64 = isqrt(squares);
        assert(length < 0x2_0000_0000) by (nonlinear_arith)
            requires
                length * length <= squares,
                squares <= 2 * (0xffff_ffff * 0xffff_ffff),
        ;
        length
    }

    /// Stamps one dab for a placement, asking `curve` for the power term of
    /// each pressure curve that the pressure mapping uses.
    fn create_dab<F: Fn(i32, i32) -> i32>(&self, position: [i32; 2], pressure: i32, curve: &F) -> (dab:
        BrushDab)
        requires
            serves(curve, self.params()),
        ensures
            stamps(self.params(), Placement { position, pressure }, curve, dab),
    {
        let base: i32 = clamp_unit(pressure as i64);
        let size_curve: i32 = match self.params.pressure_mapping {
            PressureMapping::Size | PressureMapping::Both => curve(base, self.params.size_gamma),
            _ => 0,
        };
        let flow_curve: i32 = match self.params.pressure_mapping {
            PressureMapping::Flow | PressureMapping::Both => curve(base, self.params.flow_gamma),
            _ => 0,
        };
        let dab = self.params.dab_from_curves(position, size_curve, flow_curve);
        proof {
            let placement = Placement { position, pressure };
            assert(base == clamp(placement.pressure as int, 0, ONE as int) as i32);
            assert(self.params.pressure_mapping.scales_size() ==> call_ensures(
                *curve,
                (base, self.params.size_gamma),
                size_curve,
            ));
            assert(self.params.pressure_mapping.scales_flow() ==> call_ensures(
                *curve,
                (base, self.params.flow_gamma),
                flow_curve,
            ));
            assert(dab == self.params.dab(placement.position, size_curve, flow_curve));
        }
        dab
    }

    /// Resamples the path from the last dab to a new pointer sample and
    /// returns the dabs to stamp, in order.
    ///
    /// `curve(base, exponent)` supplies the power term of a pressure curve:
    /// `base` raised to `exponent`, for a base in `[0, 1]`.
    pub fn calculate_dabs<F: Fn(i32, i32) -> i32>(
        &mut self,
        position: [i32; 2],
        pressure: i32,
        event_type: PointerEventType,
        curve: &F,
    ) -> (dabs: Vec<BrushDab>)
        requires
            serves(curve, old(self).params()),
        ensures
            final(self).params() == old(self).params(),
            final(self)@ == after_sample(
                old(self)@,
                old(self).params(),
                Placement { position, pressure },
                event_type,
            ),
            stamps_all(
                old(self).params(),
                sample_placements(
                    old(self)@,
                    old(self).params(),
                    Placement { position, pressure },
                    event_type,
                ),
                curve,
                dabs@,
            ),
    {
        let ghost sample = Placement { position, pressure };
        let ghost placements = sample_placements(old(self)@, old(self).params, sample, event_type);
        let mut dabs: Vec<BrushDab> = Vec::new();
        if !self.stroke.brush_down {
            return dabs;
        }
        if !self.params.input_filter_mode.accepts(self.stroke.brush_src) {
            return dabs;
        }
        let is_up: bool = event_type == PointerEventType::Up;
        let is_move: bool = event_type == PointerEventType::Move;
        let prev_pos: [i32; 2] = match self.stroke.last_dab_position {
            Some(seed) => seed,
            None => {
                if is_up {
                    self.reset_brush();
                } else {
                    self.stroke.last_dab_position = Some(position);
                    self.stroke.last_dab_pressure = pressure;
                }
                return dabs;
            },
        };
        let prev_pressure: i32 = self.stroke.last_dab_pressure;
        let ghost from = Placement { position: prev_pos, pressure: prev_pressure };
        if !self.stroke.has_moved && is_move {
            let first = self.create_dab(prev_pos, pressure, curve);
            dabs.push(first);
        }
        self.stroke.has_moved = self.stroke.has_moved || is_move;
        let ghost lead = dabs@.len();
        let length: u64 = Self::segment_length_of(prev_pos, position);
        let spacing: i64 = self.params.spacing_px();
        let ghost count = segment_dab_count(prev_pos, position, spacing as int);
        assert(placements.len() == lead + count);
        if spacing > 0 && spacing as u64 <= length {
            let step: u64 = spacing as u64;
            let last: u64 = length / step;
            let mut k: u64 = 1;
            while k <= last
                invariant
                    1 <= k <= last + 1,
                    step > 0,
                    last == length / step,
                    last == count,
                    length == segment_length(prev_pos, position),
                    length < 0x2_0000_0000,
                    step == self.params.spacing_pixels(),
                    self.params == old(self).params,
                    from == (Placement { position: prev_pos, pressure: prev_pressure }),
                    sample == (Placement { position, pressure }),
                    placements == sample_placements(
                        old(self)@,
                        old(self).params,
                        sample,
                        event_type,
                    ),
                    placements.len() == lead + count,
                    !ignores_sample(old(self)@, old(self).params),
                    old(self)@.last_dab_position == Some(prev_pos),
                    old(self)@.last_dab_pressure == prev_pressure,
                    lead == if is_first_move(old(self)@, event_type) { 1int } else { 0int },
                    dabs@.len() == lead + k - 1,
                    forall|i: int|
                        0 <= i < dabs@.len() ==> stamps(
                            self.params,
                            #[trigger] placements[i],
                            curve,
                            dabs@[i],
                        ),
                    serves(curve, self.params),
                    self.stroke.brush_down == old(self).stroke.brush_down,
                    self.stroke.brush_src == old(self).stroke.brush_src,
                    self.stroke.has_moved == (old(self).stroke.has_moved || is_move),
                    k == 1 ==> self.stroke.last_dab_position == Some(prev_pos)
                        && self.stroke.last_dab_pressure == prev_pressure,
                    k > 1 ==> self.stroke.last_dab_position == Some(
                        segment_placement(from, sample, step as int, k - 1).position,
                    ) && self.stroke.last_dab_pressure == segment_placement(
                        from,
                        sample,
                        step as int,
                        k - 1,
                    ).pressure,
                decreases last + 1 - k,
            {
                assert(k * step <= length) by (nonlinear_arith)
                    requires
                        1 <= k <= last,
                        step > 0,
                        last == length / step,
                ;
                let along: u64 = k * step;
                let x: i32 = lerp(prev_pos[0], position[0], along, length);
                let y: i32 = lerp(prev_pos[1], position[1], along, length);
                let dab_pos: [i32; 2] = [x, y];
                let dab_pressure: i32 = lerp(prev_pressure, pressure, along, length);
                let ghost placed = segment_placement(from, sample, step as int, k as int);
                assert(placed == (Placement { position: dab_pos, pressure: dab_pressure }));
                assert(placements[lead + k - 1] == placed);
                let dab = self.create_dab(dab_pos, dab_pressure, curve);
                dabs.push(dab);
                self.stroke.last_dab_position = Some(dab_pos);
                self.stroke.last_dab_pressure = dab_pressure;
                k += 1;
            }
        } else {
            assert(count == 0) by (nonlinear_arith)
                requires
                    count == if spacing > 0 {
                        length as int / spacing as int
                    } else {
                        0
                    },
                    spacing <= 0 || spacing > length,
                    length >= 0,
            ;
        }
        if is_up {
            self.reset_brush();
        }
        dabs
    }
}

impl Default for BrushState {
    fn default() -> (state: Self)
        ensures
            state.params() == default_brush_params(),
            state@ == fresh_stroke(),
    {
        Self::new()
    }
}

} // verus!
