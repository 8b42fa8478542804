//! Theorems about strokes.
//!
//! The resampler is specified one sample at a time. The theorems of this
//! module say what follows for whole strokes: how many dabs a straight
//! stroke receives and where they lie, that uniform pressure reaches every
//! dab unchanged, that nothing is stamped before the first move, and which
//! samples the input filter lets through.
use crate::app::{after_events, event_sample, events_placements, stroke_for_event};
use crate::brush::{
    after_sample, ignores_sample, is_power_curve, sample_placements, segment_dab_count,
    segment_end, segment_length, segment_placement, segment_placements, stamps, stamps_all,
    BrushDab, BrushParams, InputFilterMode, Placement, StrokeState,
};
use crate::fixed::{
    interpolate, lemma_product_unit, lemma_proportion_bounds, lemma_sqrt_floor_exists,
    lemma_sqrt_floor_is, magnitude, product, proportion, ONE,
};
use crate::input::{PointerEvent, PointerEventSource, PointerEventType};
use vstd::prelude::*;

verus! {

/// The record of the last dab after a path: the segments from `from`
/// through `samples`, each starting where the last dab of the segment
/// before it was placed.
pub open spec fn path_end(from: Placement, samples: Seq<Placement>, spacing: int) -> Placement
    decreases samples.len(),
{
    if samples.len() == 0 {
        from
    } else {
        segment_end(path_end(from, samples.drop_last(), spacing), samples.last(), spacing)
    }
}

/// The placements along a path, in the order in which they are met.
pub open spec fn path_placements(from: Placement, samples: Seq<Placement>, spacing: int) -> Seq<
    Placement,
>
    decreases samples.len(),
{
    if samples.len() == 0 {
        Seq::empty()
    } else {
        path_placements(from, samples.drop_last(), spacing) + segment_placements(
            path_end(from, samples.drop_last(), spacing),
            samples.last(),
            spacing,
        )
    }
}

/// A direction on the grid whose length is a whole number of units: each
/// step along it moves by `x` and `y` and covers `length`.
pub struct Heading {
    pub x: int,
    pub y: int,
    pub length: int,
}

impl Heading {
    /// Whether the length is that of the step: `x * x + y * y` is the
    /// square of `length`. The four directions along the axes are such
    /// headings of length one; `(3, 4)` is one of length five.
    pub open spec fn is_whole(self) -> bool {
        self.length > 0 && self.x * self.x + self.y * self.y == self.length * self.length
    }
}

/// Whether `point` lies `steps` steps along the heading from `from`, at
/// the pressure of `from`.
pub open spec fn is_on_ray(from: Placement, heading: Heading, steps: int, point: Placement) -> bool {
    &&& 0 <= steps
    &&& point.position[0] == from.position[0] + steps * heading.x
    &&& point.position[1] == from.position[1] + steps * heading.y
    &&& point.pressure == from.pressure
}

/// The point that lies `steps` steps along the heading from `from`.
pub open spec fn ray_placement(from: Placement, heading: Heading, steps: int) -> Placement {
    Placement {
        position: [
            (from.position[0] + steps * heading.x) as i32,
            (from.position[1] + steps * heading.y) as i32,
        ],
        pressure: from.pressure,
    }
}

/// Whether a path runs straight along a heading at one pressure: sample
/// `i` lies `at[i]` steps along the heading from `from`, and no sample
/// lies behind the one before it.
pub open spec fn is_straight_path(
    from: Placement,
    samples: Seq<Placement>,
    heading: Heading,
    at: Seq<int>,
) -> bool {
    &&& at.len() == samples.len()
    &&& forall|i: int|
        0 <= i < samples.len() ==> is_on_ray(from, heading, at[i], #[trigger] samples[i])
    &&& forall|i: int, j: int| 0 <= i <= j < at.len() ==> #[trigger] at[i] <= #[trigger] at[j]
}

/// Dividing after taking whole multiples of the divisor away.
pub proof fn lemma_div_minus_multiple(n: int, c: int, s: int)
    requires
        s > 0,
    ensures
        (n - c * s) / s == n / s - c,
{
    let q = n / s;
    let r = n % s;
    assert(n == q * s + r && 0 <= r < s) by (nonlinear_arith)
        requires
            s > 0,
            q == n / s,
            r == n % s,
    ;
    assert(n - c * s == (q - c) * s + r) by (nonlinear_arith)
        requires
            n == q * s + r,
    ;
    vstd::arithmetic::div_mod::lemma_fundamental_div_mod_converse(n - c * s, s, q - c, r);
}

/// On a segment the number of dabs is the length divided by the spacing,
/// rounded down: the dabs fit, and one more would not.
pub proof fn lemma_segment_count(from: [i32; 2], to: [i32; 2], spacing: int)
    requires
        spacing > 0,
    ensures
        segment_dab_count(from, to, spacing) * spacing <= segment_length(from, to),
        segment_length(from, to) < (segment_dab_count(from, to, spacing) + 1) * spacing,
{
    let length = segment_length(from, to);
    let count = length / spacing;
    assert(count * spacing <= length < (count + 1) * spacing) by (nonlinear_arith)
        requires
            spacing > 0,
            count == length / spacing,
    ;
}

/// The number of dabs on a segment is the true length of the segment
/// divided by the spacing, rounded down: rounding the length itself down
/// first loses nothing. Stated without the square root, the square of the
/// distance covered by the dabs is at most the square of the length, and
/// the square of the distance that one more dab would cover exceeds it.
pub proof fn lemma_segment_count_exact(from: [i32; 2], to: [i32; 2], spacing: int)
    requires
        spacing > 0,
    ensures
        ({
            let count = segment_dab_count(from, to, spacing);
            let dx = to[0] - from[0];
            let dy = to[1] - from[1];
            &&& 0 <= count
            &&& (count * spacing) * (count * spacing) <= dx * dx + dy * dy
            &&& dx * dx + dy * dy < ((count + 1) * spacing) * ((count + 1) * spacing)
        }),
{
    let dx = to[0] - from[0];
    let dy = to[1] - from[1];
    let squares = dx * dx + dy * dy;
    assert(squares >= 0) by (nonlinear_arith)
        requires
            squares == dx * dx + dy * dy,
    ;
    lemma_sqrt_floor_exists(squares);
    let length = segment_length(from, to);
    let count = segment_dab_count(from, to, spacing);
    lemma_segment_count(from, to, spacing);
    let covered = count * spacing;
    let beyond = (count + 1) * spacing;
    assert(0 <= count) by (nonlinear_arith)
        requires
            count == length / spacing,
            length >= 0,
            spacing > 0,
    ;
    assert(0 <= covered) by (nonlinear_arith)
        requires
            covered == count * spacing,
            0 <= count,
            spacing > 0,
    ;
    assert(covered * covered <= length * length) by (nonlinear_arith)
        requires
            0 <= covered <= length,
    ;
    assert((length + 1) * (length + 1) <= beyond * beyond) by (nonlinear_arith)
        requires
            0 <= length + 1 <= beyond,
    ;
}

/// Every dab of a segment lies where the exact point `k` spacings along
/// the segment lies, moved toward the start of the segment by less than
/// one unit per axis.
pub proof fn lemma_placement_on_segment(from: Placement, to: Placement, spacing: int, k: int)
    requires
        spacing > 0,
        1 <= k <= segment_dab_count(from.position, to.position, spacing),
    ensures
        ({
            let length = segment_length(from.position, to.position);
            let placed = segment_placement(from, to, spacing, k);
            let dx = to.position[0] - from.position[0];
            let dy = to.position[1] - from.position[1];
            let off_x = placed.position[0] - from.position[0];
            let off_y = placed.position[1] - from.position[1];
            &&& 0 < k * spacing <= length
            &&& magnitude(off_x) * length <= magnitude(dx) * (k * spacing)
            &&& magnitude(dx) * (k * spacing) < (magnitude(off_x) + 1) * length
            &&& magnitude(off_y) * length <= magnitude(dy) * (k * spacing)
            &&& magnitude(dy) * (k * spacing) < (magnitude(off_y) + 1) * length
            &&& (dx >= 0 ==> off_x >= 0) && (dx <= 0 ==> off_x <= 0)
            &&& (dy >= 0 ==> off_y >= 0) && (dy <= 0 ==> off_y <= 0)
        }),
{
    let length = segment_length(from.position, to.position);
    let count = segment_dab_count(from.position, to.position, spacing);
    lemma_segment_count(from.position, to.position, spacing);
    let along = k * spacing;
    assert(0 < along <= count * spacing) by (nonlinear_arith)
        requires
            along == k * spacing,
            1 <= k <= count,
            spacing > 0,
    ;
    let dx = to.position[0] - from.position[0];
    let dy = to.position[1] - from.position[1];
    lemma_proportion_bounds(dx, along, length);
    lemma_proportion_bounds(dy, along, length);
    lemma_proportion_rounding(dx, along, length);
    lemma_proportion_rounding(dy, along, length);
}

/// A proportion is the exact fraction, rounded toward zero by less than
/// one.
pub proof fn lemma_proportion_rounding(x: int, num: int, den: int)
    requires
        0 <= num <= den,
        0 < den,
    ensures
        magnitude(proportion(x, num, den)) * den <= magnitude(x) * num,
        magnitude(x) * num < (magnitude(proportion(x, num, den)) + 1) * den,
{
    let m = magnitude(x);
    let q = (m * num) / den;
    assert(q * den <= m * num < (q + 1) * den && q >= 0) by (nonlinear_arith)
        requires
            q == (m * num) / den,
            0 <= m,
            0 <= num,
            0 < den,
    ;
}

/// Uniform pressure: on a segment whose two ends have the same pressure,
/// every dab has that pressure.
pub proof fn lemma_uniform_pressure(from: Placement, to: Placement, spacing: int, k: int)
    requires
        spacing > 0,
        1 <= k <= segment_dab_count(from.position, to.position, spacing),
        from.pressure == to.pressure,
    ensures
        segment_placement(from, to, spacing, k).pressure == from.pressure,
{
    let length = segment_length(from.position, to.position);
    lemma_placement_on_segment(from, to, spacing, k);
    assert((0 * (k * spacing)) / length == 0) by (nonlinear_arith)
        requires
            length > 0,
    ;
}

/// Interpolated pressure: the pressure of every dab of a segment is the
/// linear interpolation of the pressures at the two ends of the segment,
/// at the fraction of the segment at which the dab lies, and so lies
/// between them.
pub proof fn lemma_interpolated_pressure(from: Placement, to: Placement, spacing: int, k: int)
    requires
        spacing > 0,
        1 <= k <= segment_dab_count(from.position, to.position, spacing),
    ensures
        segment_placement(from, to, spacing, k).pressure == interpolate(
            from.pressure as int,
            to.pressure as int,
            k * spacing,
            segment_length(from.position, to.position),
        ),
        from.pressure <= to.pressure ==> from.pressure <= segment_placement(
            from,
            to,
            spacing,
            k,
        ).pressure <= to.pressure,
        to.pressure <= from.pressure ==> to.pressure <= segment_placement(
            from,
            to,
            spacing,
            k,
        ).pressure <= from.pressure,
{
    lemma_placement_on_segment(from, to, spacing, k);
    lemma_proportion_bounds(
        to.pressure - from.pressure,
        k * spacing,
        segment_length(from.position, to.position),
    );
}

/// Dividing two multiples of the same number divides their factors.
pub proof fn lemma_div_common_factor(a: int, b: int, c: int)
    requires
        0 <= a,
        0 < b,
        0 < c,
    ensures
        (a * c) / (b * c) == a / b,
{
    let q = a / b;
    let r = a % b;
    assert(a == q * b + r && 0 <= r < b) by (nonlinear_arith)
        requires
            0 < b,
            q == a / b,
            r == a % b,
    ;
    assert(a * c == q * (b * c) + r * c && 0 <= r * c < b * c) by (nonlinear_arith)
        requires
            a == q * b + r,
            0 <= r < b,
            0 < c,
    ;
    vstd::arithmetic::div_mod::lemma_fundamental_div_mod_converse(a * c, b * c, q, r * c);
}

/// A proportion that comes out whole is not rounded: the fraction
/// `part * scale` of `whole * scale` taken of `unit * whole` is
/// `unit * part`.
pub proof fn lemma_proportion_whole(unit: int, part: int, whole: int, scale: int)
    requires
        0 <= part,
        0 < whole,
        0 < scale,
    ensures
        proportion(unit * whole, part * scale, whole * scale) == unit * part,
{
    let m = magnitude(unit);
    let den = whole * scale;
    assert(0 < den) by (nonlinear_arith)
        requires
            den == whole * scale,
            0 < whole,
            0 < scale,
    ;
    assert(magnitude(unit * whole) == m * whole && ((unit * whole < 0) <==> (unit < 0)))
        by (nonlinear_arith)
        requires
            m == magnitude(unit),
            0 < whole,
    ;
    assert((m * whole) * (part * scale) == (m * part) * den) by (nonlinear_arith)
        requires
            den == whole * scale,
    ;
    assert(((m * part) * den) / den == m * part) by (nonlinear_arith)
        requires
            0 < den,
    ;
    assert(unit < 0 ==> -(m * part) == unit * part) by (nonlinear_arith)
        requires
            m == magnitude(unit),
    ;
    assert(unit >= 0 ==> m * part == unit * part) by (nonlinear_arith)
        requires
            m == magnitude(unit),
    ;
    if unit >= 0 {
        assert((unit * whole) * (part * scale) == (m * whole) * (part * scale));
    }
}

/// A segment along a heading: its length is the number of steps times the
/// length of the step; with a spacing of `step` steps its dabs lie every
/// `step` steps from its start, and all have the pressure of the path.
pub proof fn lemma_ray_segment(
    from: Placement,
    to: Placement,
    heading: Heading,
    steps: int,
    step: int,
)
    requires
        heading.is_whole(),
        step > 0,
        is_on_ray(from, heading, steps, to),
    ensures
        segment_length(from.position, to.position) == steps * heading.length,
        segment_dab_count(from.position, to.position, step * heading.length) == steps / step,
        forall|k: int|
            1 <= k <= steps / step ==> #[trigger] segment_placement(
                from,
                to,
                step * heading.length,
                k,
            ) == ray_placement(from, heading, k * step) && is_on_ray(
                from,
                heading,
                k * step,
                ray_placement(from, heading, k * step),
            ) && k * step <= steps,
        segment_end(from, to, step * heading.length) == ray_placement(
            from,
            heading,
            (steps / step) * step,
        ),
        is_on_ray(
            from,
            heading,
            (steps / step) * step,
            ray_placement(from, heading, (steps / step) * step),
        ),
        (steps / step) * step <= steps,
{
    let dx = to.position[0] - from.position[0];
    let dy = to.position[1] - from.position[1];
    let length = steps * heading.length;
    let spacing = step * heading.length;
    assert(dx * dx + dy * dy == length * length) by (nonlinear_arith)
        requires
            dx == steps * heading.x,
            dy == steps * heading.y,
            length == steps * heading.length,
            heading.x * heading.x + heading.y * heading.y == heading.length * heading.length,
    ;
    assert(0 <= length && length * length < (length + 1) * (length + 1)) by (nonlinear_arith)
        requires
            length == steps * heading.length,
            0 <= steps,
            0 < heading.length,
    ;
    lemma_sqrt_floor_is(dx * dx + dy * dy, length);
    assert(0 < spacing) by (nonlinear_arith)
        requires
            spacing == step * heading.length,
            0 < step,
            0 < heading.length,
    ;
    lemma_div_common_factor(steps, step, heading.length);
    let count = steps / step;
    assert(0 <= count && count * step <= steps) by (nonlinear_arith)
        requires
            count == steps / step,
            step > 0,
            steps >= 0,
    ;
    assert forall|k: int| 1 <= k <= count implies #[trigger] segment_placement(
        from,
        to,
        spacing,
        k,
    ) == ray_placement(from, heading, k * step) && is_on_ray(
        from,
        heading,
        k * step,
        ray_placement(from, heading, k * step),
    ) && k * step <= steps by {
        lemma_ray_point(from, to, heading, steps, step, k);
    }
    if count > 0 {
        lemma_ray_point(from, to, heading, steps, step, count);
    } else {
        assert(0 * step == 0 && 0 * heading.x == 0 && 0 * heading.y == 0) by (nonlinear_arith);
        assert(from.position == [from.position[0], from.position[1]]);
    }
}

/// One dab of a segment along a heading.
proof fn lemma_ray_point(
    from: Placement,
    to: Placement,
    heading: Heading,
    steps: int,
    step: int,
    k: int,
)
    requires
        heading.is_whole(),
        step > 0,
        is_on_ray(from, heading, steps, to),
        segment_length(from.position, to.position) == steps * heading.length,
        1 <= k <= steps / step,
    ensures
        segment_placement(from, to, step * heading.length, k) == ray_placement(
            from,
            heading,
            k * step,
        ),
        is_on_ray(from, heading, k * step, ray_placement(from, heading, k * step)),
        k * step <= steps,
{
    let part = k * step;
    assert(0 < part <= steps) by (nonlinear_arith)
        requires
            part == k * step,
            1 <= k <= steps / step,
            step > 0,
    ;
    assert(k * (step * heading.length) == part * heading.length) by (nonlinear_arith)
        requires
            part == k * step,
    ;
    lemma_proportion_whole(heading.x, part, steps, heading.length);
    lemma_proportion_whole(heading.y, part, steps, heading.length);
    lemma_proportion_whole(0, part, steps, heading.length);
    assert(heading.x * steps == steps * heading.x && heading.y * steps == steps * heading.y
        && heading.x * part == part * heading.x && heading.y * part == part * heading.y
        && 0 * steps == 0 && 0 * part == 0) by (nonlinear_arith);
    lemma_between(steps * heading.x, part, steps, heading.x);
    lemma_between(steps * heading.y, part, steps, heading.y);
}

/// A part of the way lies between the start and the end.
proof fn lemma_between(whole_way: int, part: int, steps: int, unit: int)
    requires
        0 <= part <= steps,
        whole_way == steps * unit,
    ensures
        whole_way >= 0 ==> 0 <= part * unit <= whole_way,
        whole_way <= 0 ==> whole_way <= part * unit <= 0,
{
    assert((steps * unit >= 0 ==> 0 <= part * unit <= steps * unit) && (steps * unit <= 0
        ==> steps * unit <= part * unit <= 0)) by (nonlinear_arith)
        requires
            0 <= part <= steps,
    ;
}

/// Straight strokes: along a heading whose step has a whole length, with
/// a spacing of `step` steps and uniform pressure, the number of dabs is
/// the length of the path divided by the spacing, rounded down; the dabs
/// lie exactly one spacing apart, the first one spacing from the start;
/// and all have the pressure of the path. It makes no difference into how
/// many samples the path is cut.
pub proof fn theorem_straight_path(
    from: Placement,
    samples: Seq<Placement>,
    heading: Heading,
    at: Seq<int>,
    step: int,
)
    requires
        heading.is_whole(),
        step > 0,
        samples.len() > 0,
        is_straight_path(from, samples, heading, at),
    ensures
        ({
            let dabs = path_placements(from, samples, step * heading.length);
            let count = at.last() / step;
            &&& dabs.len() == count
            &&& forall|j: int|
                0 <= j < count ==> #[trigger] dabs[j] == ray_placement(
                    from,
                    heading,
                    (j + 1) * step,
                )
            &&& path_end(from, samples, step * heading.length) == ray_placement(
                from,
                heading,
                count * step,
            )
            &&& is_on_ray(from, heading, count * step, ray_placement(from, heading, count * step))
            &&& count * step <= at.last()
        }),
    decreases samples.len(),
{
    let spacing = step * heading.length;
    let rest = samples.drop_last();
    let rest_at = at.drop_last();
    let to = samples.last();
    let reach = at.last();
    let total = reach / step;
    assert(samples[samples.len() - 1] == to);
    assert(at[at.len() - 1] == reach);
    assert(is_on_ray(from, heading, reach, to));
    if rest.len() == 0 {
        assert(path_placements(from, rest, spacing) == Seq::<Placement>::empty());
        assert(path_end(from, rest, spacing) == from);
        lemma_ray_segment(from, to, heading, reach, step);
        assert(path_placements(from, samples, spacing) == segment_placements(from, to, spacing));
        assert forall|j: int| 0 <= j < total implies #[trigger] path_placements(
            from,
            samples,
            spacing,
        )[j] == ray_placement(from, heading, (j + 1) * step) by {
            assert(segment_placements(from, to, spacing)[j] == segment_placement(
                from,
                to,
                spacing,
                j + 1,
            ));
        }
    } else {
        assert(is_straight_path(from, rest, heading, rest_at)) by {
            assert forall|i: int| 0 <= i < rest.len() implies is_on_ray(
                from,
                heading,
                rest_at[i],
                #[trigger] rest[i],
            ) by {
                assert(rest[i] == samples[i]);
                assert(rest_at[i] == at[i]);
            }
            assert forall|i: int, j: int| 0 <= i <= j < rest_at.len() implies #[trigger] rest_at[i]
                <= #[trigger] rest_at[j] by {
                assert(rest_at[i] == at[i]);
                assert(rest_at[j] == at[j]);
            }
        }
        theorem_straight_path(from, rest, heading, rest_at, step);
        let done = rest_at.last();
        assert(done == at[at.len() - 2]);
        assert(done <= reach);
        let before = done / step;
        let covered = before * step;
        let reached = path_end(from, rest, spacing);
        assert(reached == ray_placement(from, heading, covered));
        assert(is_on_ray(from, heading, covered, reached));
        assert(is_on_ray(reached, heading, reach - covered, to)) by {
            assert((reach - covered) * heading.x == reach * heading.x - covered * heading.x
                && (reach - covered) * heading.y == reach * heading.y - covered * heading.y)
                by (nonlinear_arith);
        }
        lemma_ray_segment(reached, to, heading, reach - covered, step);
        lemma_div_minus_multiple(reach, before, step);
        let added = (reach - covered) / step;
        assert(added == total - before);
        let earlier = path_placements(from, rest, spacing);
        let fresh = segment_placements(reached, to, spacing);
        assert(path_placements(from, samples, spacing) == earlier + fresh);
        assert forall|j: int| 0 <= j < total implies #[trigger] (earlier + fresh)[j]
            == ray_placement(from, heading, (j + 1) * step) by {
            if j >= before {
                let k = j - before + 1;
                assert((earlier + fresh)[j] == fresh[j - before]);
                assert(fresh[j - before] == segment_placement(reached, to, spacing, k));
                lemma_ray_join(from, heading, covered, k * step);
                assert(covered + k * step == (j + 1) * step) by (nonlinear_arith)
                    requires
                        covered == before * step,
                        k == j - before + 1,
                ;
            } else {
                assert((earlier + fresh)[j] == earlier[j]);
            }
        }
        lemma_ray_join(from, heading, covered, added * step);
        assert(covered + added * step == total * step) by (nonlinear_arith)
            requires
                covered == before * step,
                added == total - before,
        ;
        assert((covered + added * step) * heading.x == covered * heading.x + (added * step)
            * heading.x && (covered + added * step) * heading.y == covered * heading.y + (added
            * step) * heading.y) by (nonlinear_arith);
        assert(0 <= total * step) by (nonlinear_arith)
            requires
                0 <= total,
                0 < step,
        ;
    }
}

/// Going on along a heading from a point on the ray reaches the point that
/// many steps further along the ray.
proof fn lemma_ray_join(from: Placement, heading: Heading, first: int, second: int)
    requires
        is_on_ray(from, heading, first, ray_placement(from, heading, first)),
    ensures
        ray_placement(ray_placement(from, heading, first), heading, second) == ray_placement(
            from,
            heading,
            first + second,
        ),
{
    assert((first + second) * heading.x == first * heading.x + second * heading.x && (first
        + second) * heading.y == first * heading.y + second * heading.y) by (nonlinear_arith);
}

/// The brush is up: whatever else holds, a sample that arrives while no
/// stroke is in progress stamps nothing and changes nothing.
pub proof fn theorem_brush_up(
    stroke: StrokeState,
    params: BrushParams,
    sample: Placement,
    phase: PointerEventType,
)
    requires
        !stroke.brush_down,
    ensures
        sample_placements(stroke, params, sample, phase) == Seq::<Placement>::empty(),
        after_sample(stroke, params, sample, phase) == stroke,
{
}

/// The input filter: while a stroke is in progress, pen-only mode ignores
/// exactly the samples of touch strokes, and the other mode ignores none.
/// An ignored sample stamps nothing.
pub proof fn theorem_input_filter(
    stroke: StrokeState,
    params: BrushParams,
    sample: Placement,
    phase: PointerEventType,
)
    requires
        stroke.brush_down,
    ensures
        params.input_filter_mode == InputFilterMode::PenOnly ==> (ignores_sample(stroke, params)
            <==> stroke.brush_src == PointerEventSource::Touch),
        params.input_filter_mode == InputFilterMode::PenAndTouch ==> !ignores_sample(
            stroke,
            params,
        ),
        ignores_sample(stroke, params) ==> sample_placements(stroke, params, sample, phase)
            == Seq::<Placement>::empty() && after_sample(stroke, params, sample, phase) == stroke,
{
}

/// Whether `events` are the moves of one stroke from `source`.
pub open spec fn are_moves_from(events: Seq<PointerEvent>, source: PointerEventSource) -> bool {
    forall|i: int|
        0 <= i < events.len() ==> (#[trigger] events[i]).event_type == PointerEventType::Move
            && events[i].source == source
}

/// The samples of a sequence of events.
pub open spec fn samples_of(events: Seq<PointerEvent>) -> Seq<Placement> {
    Seq::new(events.len(), |i: int| event_sample(events[i]))
}

/// The state of a stroke that began with the press `down` and has since
/// seen `moves`.
pub open spec fn stroke_after_moves(
    params: BrushParams,
    down: PointerEvent,
    moves: Seq<PointerEvent>,
) -> StrokeState {
    let reached = path_end(event_sample(down), samples_of(moves), params.spacing_pixels());
    StrokeState {
        last_dab_position: Some(reached.position),
        last_dab_pressure: reached.pressure,
        has_moved: moves.len() > 0,
        brush_down: true,
        brush_src: down.source,
    }
}

/// The deferred seed: a press stamps nothing. The first move after it
/// stamps one dab at the position of the press with the pressure of that
/// move, and after it the dabs of the path; every later move adds only the
/// dabs of its segment.
pub proof fn theorem_deferred_seed(
    stroke: StrokeState,
    params: BrushParams,
    down: PointerEvent,
    moves: Seq<PointerEvent>,
)
    requires
        down.event_type == PointerEventType::Down,
        params.input_filter_mode.accepts_source(down.source),
        are_moves_from(moves, down.source),
    ensures
        events_placements(stroke, params, seq![down]) == Seq::<Placement>::empty(),
        events_placements(stroke, params, seq![down] + moves) == if moves.len() > 0 {
            seq![Placement { position: down.position, pressure: moves[0].pressure }]
                + path_placements(
                event_sample(down),
                samples_of(moves),
                params.spacing_pixels(),
            )
        } else {
            Seq::<Placement>::empty()
        },
        after_events(stroke, params, seq![down] + moves) == stroke_after_moves(
            params,
            down,
            moves,
        ),
    decreases moves.len(),
{
    let spacing = params.spacing_pixels();
    let press = seq![down];
    assert(press.drop_last() == Seq::<PointerEvent>::empty());
    assert(press.last() == down);
    assert(events_placements(stroke, params, press.drop_last()) == Seq::<Placement>::empty());
    assert(after_events(stroke, params, press.drop_last()) == stroke);
    let begun = stroke_for_event(stroke, down);
    assert(begun.last_dab_position.is_none() && begun.brush_down && begun.brush_src
        == down.source);
    assert(!ignores_sample(begun, params));
    assert(events_placements(stroke, params, press) == Seq::<Placement>::empty());
    assert(samples_of(Seq::<PointerEvent>::empty()) == Seq::<Placement>::empty());
    assert(after_events(stroke, params, press) == stroke_after_moves(
        params,
        down,
        Seq::<PointerEvent>::empty(),
    ));
    if moves.len() == 0 {
        assert(press + moves == press);
    } else {
        let earlier = moves.drop_last();
        let latest = moves.last();
        assert(moves[moves.len() - 1] == latest);
        assert(are_moves_from(earlier, down.source)) by {
            assert forall|i: int| 0 <= i < earlier.len() implies (#[trigger] earlier[i])
                == moves[i] by {}
        }
        theorem_deferred_seed(stroke, params, down, earlier);
        let events = press + moves;
        assert(events.drop_last() == press + earlier);
        assert(events.last() == latest);
        assert(samples_of(moves).drop_last() == samples_of(earlier));
        assert(samples_of(moves).last() == event_sample(latest));
        let reached = stroke_after_moves(params, down, earlier);
        let met = stroke_for_event(reached, latest);
        assert(met == reached);
        assert(!ignores_sample(met, params));
        let from = path_end(event_sample(down), samples_of(earlier), spacing);
        let fresh = segment_placements(from, event_sample(latest), spacing);
        let walked = path_placements(event_sample(down), samples_of(earlier), spacing);
        assert(path_placements(event_sample(down), samples_of(moves), spacing) == walked + fresh);
        if earlier.len() == 0 {
            assert(moves[0] == latest);
            assert(walked == Seq::<Placement>::empty());
            assert(from == event_sample(down));
            let catch_up = seq![Placement { position: down.position, pressure: latest.pressure }];
            assert(sample_placements(met, params, event_sample(latest), latest.event_type)
                == catch_up + fresh);
            assert(events_placements(stroke, params, events) == Seq::<Placement>::empty() + (
            catch_up + fresh));
            assert(Seq::<Placement>::empty() + (catch_up + fresh) == catch_up + (walked + fresh));
        } else {
            assert(earlier[0] == moves[0]);
            let catch_up = seq![Placement { position: down.position, pressure: moves[0].pressure }];
            assert(sample_placements(met, params, event_sample(latest), latest.event_type)
                == Seq::<Placement>::empty() + fresh);
            assert(Seq::<Placement>::empty() + fresh == fresh);
            assert(events_placements(stroke, params, events) == (catch_up + walked) + fresh);
            assert((catch_up + walked) + fresh == catch_up + (walked + fresh));
        }
    }
}

/// Equal pressure, equal dabs: under a power function, two dabs stamped by
/// the same brush for placements of the same pressure differ in nothing
/// but their position.
pub proof fn theorem_equal_pressure<F: Fn(i32, i32) -> i32>(
    params: BrushParams,
    first: Placement,
    second: Placement,
    curve: &F,
    first_dab: BrushDab,
    second_dab: BrushDab,
)
    requires
        is_power_curve(curve, params),
        first.pressure == second.pressure,
        stamps(params, first, curve, first_dab),
        stamps(params, second, curve, second_dab),
    ensures
        first_dab.size == second_dab.size,
        first_dab.opacity == second_dab.opacity,
        first_dab.color == second_dab.color,
        first_dab.hardness == second_dab.hardness,
        first_dab.position == first.position,
        second_dab.position == second.position,
{
}

/// Full pressure: under a power function, a dab stamped at full pressure
/// or above is the dab of the curves' full value, whatever their
/// exponents. Where a curve reaches one at full pressure, the dab has the
/// full size or the full flow of the brush.
pub proof fn theorem_full_pressure<F: Fn(i32, i32) -> i32>(
    params: BrushParams,
    placement: Placement,
    curve: &F,
    dab: BrushDab,
)
    requires
        is_power_curve(curve, params),
        placement.pressure >= ONE,
        stamps(params, placement, curve, dab),
    ensures
        dab == params.dab(placement.position, ONE, ONE),
        params.max_size_percent >= ONE ==> dab.size == params.size,
        params.max_flow_percent >= ONE ==> dab.opacity == params.flow,
{
    lemma_product_unit(params.size as int, ONE as int);
    lemma_product_unit(params.flow as int, ONE as int);
    let size_range = params.max_size_percent - params.min_size_percent;
    let flow_range = params.max_flow_percent - params.min_flow_percent;
    assert(product(ONE as int, size_range) == size_range) by {
        assert((65536 * magnitude(size_range)) / 65536 == magnitude(size_range));
    }
    assert(product(ONE as int, flow_range) == flow_range) by {
        assert((65536 * magnitude(flow_range)) / 65536 == magnitude(flow_range));
    }
}

/// A stroke of uniform pressure: under a power function, all dabs stamped
/// for placements of one pressure have the same size and the same opacity.
pub proof fn theorem_uniform_pressure<F: Fn(i32, i32) -> i32>(
    params: BrushParams,
    placements: Seq<Placement>,
    curve: &F,
    dabs: Seq<BrushDab>,
)
    requires
        is_power_curve(curve, params),
        stamps_all(params, placements, curve, dabs),
        forall|i: int, j: int|
            0 <= i < placements.len() && 0 <= j < placements.len() ==> (
            #[trigger] placements[i]).pressure == (#[trigger] placements[j]).pressure,
    ensures
        forall|i: int, j: int|
            0 <= i < dabs.len() && 0 <= j < dabs.len() ==> (#[trigger] dabs[i]).size == (
            #[trigger] dabs[j]).size && dabs[i].opacity == dabs[j].opacity,
{
    assert forall|i: int, j: int| 0 <= i < dabs.len() && 0 <= j < dabs.len() implies (
    #[trigger] dabs[i]).size == (#[trigger] dabs[j]).size && dabs[i].opacity
        == dabs[j].opacity by {
        assert(stamps(params, placements[i], curve, dabs[i]));
        assert(stamps(params, placements[j], curve, dabs[j]));
        theorem_equal_pressure(params, placements[i], placements[j], curve, dabs[i], dabs[j]);
    }
}

/// A whole straight stroke: a press followed by moves along a heading at
/// the pressure of the press stamps the catch-up dab at the press and then
/// one dab per spacing, as many as fit into the length of the path.
pub proof fn theorem_straight_stroke(
    stroke: StrokeState,
    params: BrushParams,
    down: PointerEvent,
    moves: Seq<PointerEvent>,
    heading: Heading,
    at: Seq<int>,
    step: int,
)
    requires
        down.event_type == PointerEventType::Down,
        params.input_filter_mode.accepts_source(down.source),
        are_moves_from(moves, down.source),
        moves.len() > 0,
        heading.is_whole(),
        step > 0,
        params.spacing_pixels() == step * heading.length,
        is_straight_path(event_sample(down), samples_of(moves), heading, at),
    ensures
        ({
            let dabs = events_placements(stroke, params, seq![down] + moves);
            let from = event_sample(down);
            let count = at.last() / step;
            &&& dabs.len() == 1 + count
            &&& dabs[0] == from
            &&& forall|j: int|
                1 <= j <= count ==> #[trigger] dabs[j] == ray_placement(from, heading, j * step)
        }),
{
    let from = event_sample(down);
    let spacing = params.spacing_pixels();
    let samples = samples_of(moves);
    theorem_deferred_seed(stroke, params, down, moves);
    theorem_straight_path(from, samples, heading, at, step);
    assert(samples[0] == event_sample(moves[0]));
    assert(is_on_ray(from, heading, at[0], samples[0]));
    let dabs = events_placements(stroke, params, seq![down] + moves);
    let walked = path_placements(from, samples, spacing);
    assert(dabs == seq![Placement { position: down.position, pressure: moves[0].pressure }]
        + walked);
    assert forall|j: int| 1 <= j <= walked.len() implies #[trigger] dabs[j] == ray_placement(
        from,
        heading,
        j * step,
    ) by {
        assert(dabs[j] == walked[j - 1]);
    }
}

} // verus!
