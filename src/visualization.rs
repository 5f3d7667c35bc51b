use vstd::prelude::*;

use crate::brightness::{level, valid_steps, BrightnessCurve};
use crate::histogram::{occupancy, Dimensions, Histogram};
use crate::points::{extract, points_of, Point};

verus! {

/// What a visualization holds, as mathematical values.
pub struct VisualizationView {
    pub dims: Dimensions,
    pub histogram: Seq<int>,
    pub curve: Seq<u64>,
    pub threshold: u8,
    pub points: Seq<Point>,
}

impl VisualizationView {
    /// The histogram fits its dimensions, the curve is valid and the points
    /// are those of the histogram at the threshold.
    pub open spec fn consistent(self) -> bool {
        &&& self.histogram.len() == self.dims.cells()
        &&& valid_steps(self.curve)
        &&& self.points == points_of(self.histogram, self.curve, self.threshold)
    }

    /// The same histogram and curve at threshold `t`, with its points
    /// extracted anew.
    pub open spec fn with_threshold(self, t: u8) -> VisualizationView {
        VisualizationView {
            threshold: t,
            points: points_of(self.histogram, self.curve, t),
            ..self
        }
    }
}

/// A histogram of a byte sequence, built once, with the points that are
/// bright enough at the current threshold.
pub struct Visualization {
    histogram: Histogram,
    curve: BrightnessCurve,
    points: Vec<Point>,
    draw_threshold: u8,
}

impl View for Visualization {
    type V = VisualizationView;

    closed spec fn view(&self) -> VisualizationView {
        VisualizationView {
            dims: self.histogram.dimensions(),
            histogram: self.histogram@,
            curve: self.curve@,
            threshold: self.draw_threshold,
            points: self.points@,
        }
    }
}

impl Visualization {
    pub open spec fn wf(&self) -> bool {
        self@.consistent()
    }

    /// A 3-D visualization of `bytes` (windows of three bytes) under the
    /// linear-clamp curve.
    pub fn new_from_bytes(bytes: &[u8], draw_threshold: u8) -> (r: Visualization)
        ensures
            r.wf(),
            r@.dims == Dimensions::Three,
            r@.histogram == occupancy(bytes@, Dimensions::Three),
            r@.threshold == draw_threshold,
            forall|c: int| 0 <= c ==> #[trigger] level(r@.curve, c) == if c < 255 {
                c
            } else {
                255
            },
    {
        Self::new_with_curve(bytes, Dimensions::Three, BrightnessCurve::linear(), draw_threshold)
    }

    /// A visualization of `bytes` with the given dimensions and curve.
    pub fn new_with_curve(
        bytes: &[u8],
        dims: Dimensions,
        curve: BrightnessCurve,
        draw_threshold: u8,
    ) -> (r: Visualization)
        requires
            curve.wf(),
        ensures
            r.wf(),
            r@.dims == dims,
            r@.histogram == occupancy(bytes@, dims),
            r@.curve == curve@,
            r@.threshold == draw_threshold,
    {
        let histogram = Histogram::build(bytes, dims);
        let points = extract(&histogram, &curve, draw_threshold);
        Visualization { histogram, curve, points, draw_threshold }
    }

    pub fn draw_threshold(&self) -> (r: u8)
        ensures
            r == self@.threshold,
    {
        self.draw_threshold
    }

    /// Moves to threshold `t` and extracts the points again from the
    /// histogram, which stays as it was.
    pub fn set_draw_threshold(&mut self, draw_threshold: u8)
        requires
            old(self).wf(),
        ensures
            final(self).wf(),
            final(self)@ == old(self)@.with_threshold(draw_threshold),
    {
        self.points = extract(&self.histogram, &self.curve, draw_threshold);
        self.draw_threshold = draw_threshold;
    }

    /// The points drawn at the current threshold, in cell order.
    pub fn points(&self) -> (r: &Vec<Point>)
        ensures
            r@ == self@.points,
    {
        &self.points
    }

    pub fn histogram(&self) -> (r: &Histogram)
        ensures
            r@ == self@.histogram,
            r.dimensions() == self@.dims,
    {
        &self.histogram
    }

    pub fn curve(&self) -> (r: &BrightnessCurve)
        ensures
            r@ == self@.curve,
    {
        &self.curve
    }
}

/// Extracting again at the unchanged threshold gives back the same points.
pub proof fn lemma_rethreshold_idempotent(v: VisualizationView)
    requires
        v.consistent(),
    ensures
        v.with_threshold(v.threshold) == v,
{
}

/// Setting the threshold to `t` and then back to the first value gives back
/// the first points.
pub proof fn lemma_threshold_round_trip(v: VisualizationView, t: u8)
    requires
        v.consistent(),
    ensures
        v.with_threshold(t).consistent(),
        v.with_threshold(t).with_threshold(v.threshold) == v,
        v.with_threshold(t).with_threshold(v.threshold).points == v.points,
{
}

} // verus!
