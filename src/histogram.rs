use vstd::prelude::*;

verus! {

/// How many bytes one sliding window covers: pairs give a 2-D histogram,
/// triples a 3-D one.
#[derive(Clone, Copy, Debug, PartialEq, Eq, Structural)]
pub enum Dimensions {
    Two,
    Three,
}

impl Dimensions {
    /// The window width, which is also the number of coordinates of a cell.
    pub open spec fn width(self) -> nat {
        match self {
            Dimensions::Two => 2,
            Dimensions::Three => 3,
        }
    }

    /// Number of cells of a histogram of these dimensions: 256 to the power of
    /// the width.
    pub open spec fn cells(self) -> nat {
        match self {
            Dimensions::Two => 65536,
            Dimensions::Three => 16777216,
        }
    }

    pub fn cell_count(self) -> (r: usize)
        ensures
            r == self.cells(),
    {
        match self {
            Dimensions::Two => 65536,
            Dimensions::Three => 16777216,
        }
    }

    pub fn window_width(self) -> (r: usize)
        ensures
            r == self.width(),
    {
        match self {
            Dimensions::Two => 2,
            Dimensions::Three => 3,
        }
    }
}

/// The cell that the window starting at offset `i` falls into: the byte at
/// window position `j` is coordinate `j`, and the cell index is
/// `x + 256 * y + 65536 * z`.
pub open spec fn window_key(bytes: Seq<u8>, dims: Dimensions, i: int) -> int {
    match dims {
        Dimensions::Two => bytes[i] as int + 256 * bytes[i + 1] as int,
        Dimensions::Three => bytes[i] as int + 256 * bytes[i + 1] as int + 65536 * bytes[i
            + 2] as int,
    }
}

/// Number of window positions in a sequence of `n` bytes: `max(n - w + 1, 0)`.
pub open spec fn num_windows(n: nat, dims: Dimensions) -> nat {
    if n >= dims.width() {
        (n - dims.width() + 1) as nat
    } else {
        0
    }
}

/// Number of windows among the first `i` whose bytes equal cell `k`.
pub open spec fn occurrences(bytes: Seq<u8>, dims: Dimensions, i: nat, k: int) -> nat
    decreases i,
{
    if i == 0 {
        0
    } else {
        occurrences(bytes, dims, (i - 1) as nat, k) + if window_key(
            bytes,
            dims,
            i - 1,
        ) == k {
            1nat
        } else {
            0nat
        }
    }
}

/// The occupancy histogram of a byte sequence: cell `k` holds the number of
/// window positions whose window is exactly `k`.
pub open spec fn occupancy(bytes: Seq<u8>, dims: Dimensions) -> Seq<int> {
    Seq::new(
        dims.cells(),
        |k: int| occurrences(bytes, dims, num_windows(bytes.len(), dims), k) as int,
    )
}

/// Sum of all cells.
pub open spec fn total(s: Seq<int>) -> int
    decreases s.len(),
{
    if s.len() == 0 {
        0
    } else {
        total(s.drop_last()) + s.last()
    }
}

/// A dense histogram of `256^d` counters, one per possible window value.
pub struct Histogram {
    dims: Dimensions,
    counts: Vec<u64>,
}

impl View for Histogram {
    type V = Seq<int>;

    closed spec fn view(&self) -> Seq<int> {
        self.counts@.map_values(|c: u64| c as int)
    }
}

proof fn lemma_window_key_bounds(bytes: Seq<u8>, dims: Dimensions, i: int)
    requires
        0 <= i,
        i + dims.width() <= bytes.len(),
    ensures
        0 <= window_key(bytes, dims, i) < dims.cells(),
{
}

proof fn lemma_occurrences_bound(bytes: Seq<u8>, dims: Dimensions, i: nat, k: int)
    ensures
        occurrences(bytes, dims, i, k) <= i,
    decreases i,
{
    if i > 0 {
        lemma_occurrences_bound(bytes, dims, (i - 1) as nat, k);
    }
}

fn window_key_at(bytes: &[u8], dims: Dimensions, i: usize) -> (k: usize)
    requires
        i + dims.width() <= bytes@.len(),
    ensures
        k == window_key(bytes@, dims, i as int),
        k < dims.cells(),
{
    let x = bytes[i] as usize;
    let y = bytes[i + 1] as usize;
    match dims {
        Dimensions::Two => x + 256 * y,
        Dimensions::Three => {
            let z = bytes[i + 2] as usize;
            x + 256 * y + 65536 * z
        },
    }
}

impl Histogram {
    pub closed spec fn dimensions(&self) -> Dimensions {
        self.dims
    }

    /// Every cell of the dimensions has a counter.
    pub open spec fn wf(&self) -> bool {
        self@.len() == self.dimensions().cells()
    }

    /// Counts every sliding window of `bytes` into its cell. A sequence shorter
    /// than the window gives an all-zero histogram, which is no error.
    pub fn build(bytes: &[u8], dims: Dimensions) -> (r: Histogram)
        ensures
            r.wf(),
            r.dimensions() == dims,
            r@ == occupancy(bytes@, dims),
    {
        let cells = dims.cell_count();
        let w = dims.window_width();
        let mut counts: Vec<u64> = vec![0u64; cells];
        let mut nwin: usize = 0;
        if bytes.len() >= w {
            nwin = bytes.len() - w + 1;
        }
        let mut i: usize = 0;
        while i < nwin
            invariant
                nwin == num_windows(bytes@.len(), dims),
                i <= nwin,
                counts@.len() == dims.cells(),
                forall|k: int|
                    0 <= k < dims.cells() ==> #[trigger] counts@[k] as int == occurrences(
                        bytes@,
                        dims,
                        i as nat,
                        k,
                    ),
            decreases nwin - i,
        {
            let k = window_key_at(bytes, dims, i);
            proof {
                lemma_occurrences_bound(bytes@, dims, i as nat, k as int);
            }
            let c = counts[k];
            counts[k] = c + 1;
            i += 1;
        }
        let r = Histogram { dims, counts };
        assert(r@ =~= occupancy(bytes@, dims));
        r
    }

    pub fn dims(&self) -> (r: Dimensions)
        ensures
            r == self.dimensions(),
    {
        self.dims
    }

    /// Number of cells.
    pub fn len(&self) -> (r: usize)
        ensures
            r == self@.len(),
    {
        self.counts.len()
    }

    /// The count of cell `k`, where `k = x + 256 * y + 65536 * z`.
    pub fn count(&self, k: usize) -> (r: u64)
        requires
            k < self@.len(),
        ensures
            r == self@[k as int],
    {
        self.counts[k]
    }
}

proof fn lemma_total_zeros(s: Seq<int>)
    requires
        forall|k: int| 0 <= k < s.len() ==> s[k] == 0,
    ensures
        total(s) == 0,
    decreases s.len(),
{
    if s.len() > 0 {
        lemma_total_zeros(s.drop_last());
    }
}

proof fn lemma_total_update(s: Seq<int>, j: int, v: int)
    requires
        0 <= j < s.len(),
    ensures
        total(s.update(j, v)) == total(s) - s[j] + v,
    decreases s.len(),
{
    let t = s.update(j, v);
    if j < s.len() - 1 {
        assert(t.drop_last() =~= s.drop_last().update(j, v));
        lemma_total_update(s.drop_last(), j, v);
    } else {
        assert(t.drop_last() =~= s.drop_last());
    }
}

proof fn lemma_total_prefix(bytes: Seq<u8>, dims: Dimensions, i: nat)
    requires
        i <= num_windows(bytes.len(), dims),
    ensures
        total(Seq::new(dims.cells(), |k: int| occurrences(bytes, dims, i, k) as int)) == i,
    decreases i,
{
    let s = Seq::new(dims.cells(), |k: int| occurrences(bytes, dims, i, k) as int);
    if i == 0 {
        lemma_total_zeros(s);
    } else {
        let p = Seq::new(
            dims.cells(),
            |k: int| occurrences(bytes, dims, (i - 1) as nat, k) as int,
        );
        let j = window_key(bytes, dims, i - 1);
        lemma_window_key_bounds(bytes, dims, i - 1);
        lemma_total_prefix(bytes, dims, (i - 1) as nat);
        assert(s =~= p.update(j, p[j] + 1));
        lemma_total_update(p, j, p[j] + 1);
    }
}

/// The cells of a histogram add up to the number of window positions,
/// `max(n - w + 1, 0)`.
pub proof fn lemma_total_occupancy(bytes: Seq<u8>, dims: Dimensions)
    ensures
        total(occupancy(bytes, dims)) == num_windows(bytes.len(), dims),
{
    lemma_total_prefix(bytes, dims, num_windows(bytes.len(), dims));
}

/// A sequence shorter than the window leaves every cell at zero.
pub proof fn lemma_short_input_all_zero(bytes: Seq<u8>, dims: Dimensions)
    requires
        bytes.len() < dims.width(),
    ensures
        forall|k: int| 0 <= k < dims.cells() ==> #[trigger] occupancy(bytes, dims)[k] == 0,
{
}

} // verus!
