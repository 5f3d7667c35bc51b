use vstd::prelude::*;

verus! {

/// Number of brightness levels above zero.
pub const LEVELS: usize = 255;

pub open spec fn nondecreasing(s: Seq<u64>) -> bool {
    forall|i: int, j: int| 0 <= i <= j < s.len() ==> s[i] <= s[j]
}

/// A step table is usable as a brightness curve: one step per level, in
/// nondecreasing order, and no step at count zero.
pub open spec fn valid_steps(s: Seq<u64>) -> bool {
    &&& s.len() == LEVELS
    &&& nondecreasing(s)
    &&& s[0] >= 1
}

/// The brightness of a count under a step table: how many steps the count
/// reaches. Step `b - 1` is the least count that is at least `b` bright.
pub open spec fn level(s: Seq<u64>, count: int) -> nat
    decreases s.len(),
{
    if s.len() == 0 {
        0
    } else {
        level(s.drop_last(), count) + if s.last() <= count {
            1nat
        } else {
            0nat
        }
    }
}

/// On a sorted table, the steps that a count reaches are a prefix.
pub proof fn lemma_level_split(s: Seq<u64>, count: int)
    requires
        nondecreasing(s),
    ensures
        level(s, count) <= s.len(),
        forall|i: int| 0 <= i < level(s, count) ==> s[i] <= count,
        forall|i: int| level(s, count) <= i < s.len() ==> s[i] > count,
    decreases s.len(),
{
    if s.len() > 0 {
        let p = s.drop_last();
        assert(nondecreasing(p));
        lemma_level_split(p, count);
        let b = level(p, count);
        assert(forall|i: int| 0 <= i < p.len() ==> p[i] == s[i]);
        if s.last() <= count {
            if b < p.len() {
                assert(s[b as int] <= s[s.len() - 1]);
            }
            assert forall|i: int| 0 <= i < level(s, count) implies s[i] <= count by {
                if i < p.len() {
                    assert(p[i] <= count);
                }
            }
        } else {
            assert forall|i: int| level(s, count) <= i < s.len() implies s[i] > count by {
                if i < p.len() {
                    assert(p[i] > count);
                }
            }
        }
    }
}

/// A count reaches level `m` exactly when it reaches step `m - 1`.
pub proof fn lemma_level_at_least(s: Seq<u64>, count: int, m: int)
    requires
        nondecreasing(s),
        1 <= m <= s.len(),
    ensures
        level(s, count) >= m <==> s[m - 1] <= count,
{
    lemma_level_split(s, count);
}

/// A count of zero is dark under every curve.
pub proof fn lemma_zero_count_dark(s: Seq<u64>)
    requires
        valid_steps(s),
    ensures
        level(s, 0) == 0,
{
    lemma_level_split(s, 0);
}

/// A monotone map from occupancy counts to brightness levels `0..=255`,
/// given by the least count that reaches each level.
pub struct BrightnessCurve {
    steps: Vec<u64>,
}

impl View for BrightnessCurve {
    type V = Seq<u64>;

    closed spec fn view(&self) -> Seq<u64> {
        self.steps@
    }
}

impl BrightnessCurve {
    pub open spec fn wf(&self) -> bool {
        valid_steps(self@)
    }

    /// The linear-clamp curve, `min(count, 255)`: the default curve.
    pub fn linear() -> (r: BrightnessCurve)
        ensures
            r.wf(),
            forall|c: int| 0 <= c ==> #[trigger] level(r@, c) == if c < 255 {
                c
            } else {
                255
            },
    {
        let mut steps: Vec<u64> = Vec::new();
        let mut i: usize = 0;
        while i < LEVELS
            invariant
                i <= LEVELS,
                steps@.len() == i,
                forall|j: int| 0 <= j < i ==> #[trigger] steps@[j] == j + 1,
            decreases LEVELS - i,
        {
            steps.push((i + 1) as u64);
            i += 1;
        }
        let r = BrightnessCurve { steps };
        assert forall|c: int| 0 <= c implies #[trigger] level(r@, c) == if c < 255 {
            c
        } else {
            255
        } by {
            lemma_level_split(r@, c);
            let b = level(r@, c);
            if b < 255 && b < c {
                assert(r@[b as int] == b + 1);
            }
            if b > 0 && b > c {
                assert(r@[b - 1] == b);
            }
        }
        r
    }

    /// A curve from a step table; `None` unless the table has one step per
    /// level, is nondecreasing and has no step at zero.
    pub fn from_steps(steps: Vec<u64>) -> (r: Option<BrightnessCurve>)
        ensures
            r.is_some() <==> valid_steps(steps@),
            r matches Some(c) ==> c@ == steps@ && c.wf(),
    {
        if steps.len() != LEVELS || steps[0] == 0 {
            return None;
        }
        let mut i: usize = 1;
        while i < LEVELS
            invariant
                1 <= i <= LEVELS,
                steps@.len() == LEVELS,
                forall|a: int, b: int| 0 <= a <= b < i ==> steps@[a] <= steps@[b],
            decreases LEVELS - i,
        {
            if steps[i - 1] > steps[i] {
                return None;
            }
            i += 1;
        }
        Some(BrightnessCurve { steps })
    }

    /// The step table.
    pub fn steps(&self) -> (r: &Vec<u64>)
        ensures
            r@ == self@,
    {
        &self.steps
    }

    /// The brightness of a count: the number of steps it reaches.
    pub fn brightness(&self, count: u64) -> (r: u8)
        requires
            self.wf(),
        ensures
            r == level(self@, count as int),
    {
        proof {
            lemma_level_split(self@, count as int);
        }
        let mut lo: usize = 0;
        let mut hi: usize = LEVELS;
        while lo < hi
            invariant
                self.wf(),
                lo <= hi <= LEVELS,
                forall|i: int| 0 <= i < lo ==> self@[i] <= count,
                forall|i: int| hi <= i < LEVELS ==> self@[i] > count,
            decreases hi - lo,
        {
            let mid = lo + (hi - lo) / 2;
            if self.steps[mid] <= count {
                lo = mid + 1;
            } else {
                hi = mid;
            }
        }
        proof {
            let b = level(self@, count as int);
            if b < lo {
                assert(self@[b as int] > count);
            }
            if b > lo {
                assert(self@[lo as int] <= count);
            }
        }
        lo as u8
    }

    /// The least count that is at least `max(t, 1)` bright: a count is drawn
    /// at threshold `t` exactly when it reaches this one.
    pub fn cutoff(&self, t: u8) -> (r: u64)
        requires
            self.wf(),
        ensures
            forall|c: int| #[trigger] level(self@, c) >= t && level(self@, c) >= 1 <==> c >= r,
    {
        let m: usize = if t == 0 {
            1
        } else {
            t as usize
        };
        proof {
            assert forall|c: int| #[trigger] level(self@, c) >= t && level(self@, c) >= 1 <==> c
                >= self@[m - 1] by {
                lemma_level_at_least(self@, c, m as int);
            }
        }
        self.steps[m - 1]
    }
}

} // verus!
