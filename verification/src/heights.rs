use vstd::prelude::*;

verus! {

/// Bound on the height magnitudes the two public column-sum accessors
/// accept; far above anything a step can produce, and small enough that a
/// three-way sum can never overflow.
pub const SUM_LIMIT: i128 = 1_000_000_000_000_000_000_000_000_000_000;

/// The three height fields of the grid — terrain, water and sediment —
/// as parallel row-major arrays, co-indexed with the flux field.
pub struct Heights {
    pub terrain_height: Vec<i128>,
    pub water_height: Vec<i128>,
    pub sediment_height: Vec<i128>,
}

impl Heights {
    /// The terrain heights as a mathematical sequence.
    pub open spec fn t(&self) -> Seq<int> {
        self.terrain_height@.map_values(|v: i128| v as int)
    }

    /// The water heights as a mathematical sequence.
    pub open spec fn w(&self) -> Seq<int> {
        self.water_height@.map_values(|v: i128| v as int)
    }

    /// The sediment heights as a mathematical sequence.
    pub open spec fn s(&self) -> Seq<int> {
        self.sediment_height@.map_values(|v: i128| v as int)
    }

    /// All three arrays cover exactly `n` cells.
    pub open spec fn wf_len(&self, n: int) -> bool {
        &&& self.terrain_height@.len() == n
        &&& self.water_height@.len() == n
        &&& self.sediment_height@.len() == n
    }

    /// Three zeroed arrays of `size` cells each.
    pub fn new(size: usize) -> (h: Heights)
        ensures
            h.wf_len(size as int),
            forall|i: int| 0 <= i < size ==> #[trigger] h.t()[i] == 0,
            forall|i: int| 0 <= i < size ==> #[trigger] h.w()[i] == 0,
            forall|i: int| 0 <= i < size ==> #[trigger] h.s()[i] == 0,
    {
        Heights {
            terrain_height: zeros(size),
            water_height: zeros(size),
            sediment_height: zeros(size),
        }
    }

    /// The transportable liquid volume of a cell, as a height:
    /// `water + sediment`.
    pub fn get_total_liquid_height(&self, loc: usize) -> (r: i128)
        requires
            loc < self.water_height@.len(),
            loc < self.sediment_height@.len(),
            -SUM_LIMIT <= self.w()[loc as int] <= SUM_LIMIT,
            -SUM_LIMIT <= self.s()[loc as int] <= SUM_LIMIT,
        ensures
            r == self.w()[loc as int] + self.s()[loc as int],
    {
        self.water_height[loc] + self.sediment_height[loc]
    }

    /// The total column height of a cell: `terrain + water + sediment`.
    pub fn get_total_height(&self, loc: usize) -> (r: i128)
        requires
            loc < self.terrain_height@.len(),
            loc < self.water_height@.len(),
            loc < self.sediment_height@.len(),
            -SUM_LIMIT <= self.t()[loc as int] <= SUM_LIMIT,
            -SUM_LIMIT <= self.w()[loc as int] <= SUM_LIMIT,
            -SUM_LIMIT <= self.s()[loc as int] <= SUM_LIMIT,
        ensures
            r == self.t()[loc as int] + self.w()[loc as int] + self.s()[loc as int],
    {
        self.terrain_height[loc] + self.get_total_liquid_height(loc)
    }
}

/// A zeroed vector of `size` cells.
fn zeros(size: usize) -> (v: Vec<i128>)
    ensures
        v@.len() == size,
        forall|i: int| 0 <= i < size ==> #[trigger] v@[i] == 0,
{
    let mut v: Vec<i128> = Vec::new();
    let mut k: usize = 0;
    while k < size
        invariant
            k <= size,
            v@.len() == k,
            forall|i: int| 0 <= i < k ==> #[trigger] v@[i] == 0,
        decreases size - k,
    {
        v.push(0);
        k += 1;
    }
    v
}

} // verus!
