use vstd::prelude::*;

use crate::brightness::{level, valid_steps, lemma_zero_count_dark, BrightnessCurve};
use crate::histogram::{occupancy, lemma_short_input_all_zero, Dimensions, Histogram};

verus! {

/// A drawn cell: its coordinates and its brightness. A 2-D cell has `z == 0`.
#[derive(Clone, Copy, Debug, PartialEq, Eq, Structural)]
pub struct Point {
    pub x: u8,
    pub y: u8,
    pub z: u8,
    pub brightness: u8,
}

/// The point for cell `k = x + 256 * y + 65536 * z` with brightness `b`.
pub open spec fn point_at(k: int, b: nat) -> Point {
    Point {
        x: (k % 256) as u8,
        y: ((k / 256) % 256) as u8,
        z: (k / 65536) as u8,
        brightness: b as u8,
    }
}

/// Cell `k` is drawn at threshold `t`: its brightness is non-zero and at
/// least `t`.
pub open spec fn drawn(h: Seq<int>, s: Seq<u64>, t: u8, k: int) -> bool {
    level(s, h[k]) >= t && level(s, h[k]) >= 1
}

/// The points of the first `i` cells, in cell order.
pub open spec fn extraction(h: Seq<int>, s: Seq<u64>, t: u8, i: nat) -> Seq<Point>
    decreases i,
{
    if i == 0 {
        Seq::empty()
    } else {
        let rest = extraction(h, s, t, (i - 1) as nat);
        if drawn(h, s, t, i - 1) {
            rest.push(point_at(i - 1, level(s, h[i - 1])))
        } else {
            rest
        }
    }
}

/// The points of a histogram at threshold `t`, in cell order.
pub open spec fn points_of(h: Seq<int>, s: Seq<u64>, t: u8) -> Seq<Point> {
    extraction(h, s, t, h.len())
}

/// Sweeps every cell and returns, in cell order, a point for each one whose
/// brightness is non-zero and at least `t`.
pub fn extract(h: &Histogram, curve: &BrightnessCurve, t: u8) -> (r: Vec<Point>)
    requires
        h.wf(),
        curve.wf(),
    ensures
        r@ == points_of(h@, curve@, t),
{
    let n = h.len();
    let cut = curve.cutoff(t);
    let mut points: Vec<Point> = Vec::new();
    let mut i: usize = 0;
    while i < n
        invariant
            h.wf(),
            curve.wf(),
            n == h@.len(),
            i <= n,
            n <= 16777216,
            forall|c: int| #[trigger] level(curve@, c) >= t && level(curve@, c) >= 1 <==> c >= cut,
            points@ == extraction(h@, curve@, t, i as nat),
        decreases n - i,
    {
        let c = h.count(i);
        assert(drawn(h@, curve@, t, i as int) <==> c >= cut);
        if c >= cut {
            let b = curve.brightness(c);
            let p = Point {
                x: (i % 256) as u8,
                y: ((i / 256) % 256) as u8,
                z: (i / 65536) as u8,
                brightness: b,
            };
            points.push(p);
        }
        i += 1;
    }
    points
}

proof fn lemma_extraction_mono(h: Seq<int>, s: Seq<u64>, t1: u8, t2: u8, i: nat)
    requires
        t1 <= t2,
        i <= h.len(),
    ensures
        forall|p: Point|
            extraction(h, s, t2, i).contains(p) ==> #[trigger] extraction(h, s, t1, i).contains(
                p,
            ),
    decreases i,
{
    if i > 0 {
        let j = (i - 1) as nat;
        lemma_extraction_mono(h, s, t1, t2, j);
        let a = extraction(h, s, t2, j);
        let b = extraction(h, s, t1, j);
        let a2 = extraction(h, s, t2, i);
        let b2 = extraction(h, s, t1, i);
        assert forall|p: Point| a2.contains(p) implies #[trigger] b2.contains(p) by {
            let idx = choose|idx: int| 0 <= idx < a2.len() && a2[idx] == p;
            if idx < a.len() {
                assert(a[idx] == p);
                assert(b.contains(p));
                let idx2 = choose|idx2: int| 0 <= idx2 < b.len() && b[idx2] == p;
                if drawn(h, s, t1, i - 1) {
                    assert(b2[idx2] == p);
                } else {
                    assert(b2[idx2] == p);
                }
            } else {
                assert(b2[b2.len() - 1] == p);
            }
        }
    }
}

/// Raising the threshold only removes points: every point drawn at `t2` is
/// drawn at any `t1 <= t2`.
pub proof fn lemma_threshold_monotone(h: Seq<int>, s: Seq<u64>, t1: u8, t2: u8)
    requires
        t1 <= t2,
    ensures
        forall|p: Point|
            points_of(h, s, t2).contains(p) ==> #[trigger] points_of(h, s, t1).contains(p),
{
    lemma_extraction_mono(h, s, t1, t2, h.len());
}

proof fn lemma_dark_prefix(h: Seq<int>, s: Seq<u64>, t: u8, i: nat)
    requires
        valid_steps(s),
        i <= h.len(),
        forall|k: int| 0 <= k < h.len() ==> h[k] == 0,
    ensures
        extraction(h, s, t, i).len() == 0,
    decreases i,
{
    lemma_zero_count_dark(s);
    if i > 0 {
        lemma_dark_prefix(h, s, t, (i - 1) as nat);
    }
}

/// A sequence shorter than the window gives no points, at any threshold and
/// under any curve.
pub proof fn lemma_short_input_no_points(bytes: Seq<u8>, dims: Dimensions, s: Seq<u64>, t: u8)
    requires
        bytes.len() < dims.width(),
        valid_steps(s),
    ensures
        points_of(occupancy(bytes, dims), s, t).len() == 0,
{
    let h = occupancy(bytes, dims);
    lemma_short_input_all_zero(bytes, dims);
    lemma_dark_prefix(h, s, t, h.len());
}

} // verus!
