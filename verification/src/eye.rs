//! The sensor capability: how an agent sees the food around it.
//!
//! The exact field-of-view geometry is not part of this core; the
//! simulation only relies on a sensor producing a fixed-length vision
//! vector whose length matches the first layer of the agent's brain.

use vstd::prelude::*;

use crate::fx::{sat64, FX_ONE};
use crate::world::Food;

verus! {

/// A sensor: from the agent's pose and the food collection to a
/// fixed-length vision vector of Q32.32 values.
pub trait Eye: Sized {
    /// The sensor's cell count, at the specification level.
    spec fn cells_spec(&self) -> usize;

    /// What the sensor reports, at the specification level: a function
    /// of the agent's pose and the food collection alone.
    spec fn vision_spec(&self, x: u32, y: u32, rotation: i64, foods: Seq<Food>) -> Seq<i64>;

    /// The number of cells of the vision vector; between 1 and 4096, so
    /// that a brain shaped for it always fits in memory.
    fn cells(&self) -> (r: usize)
        ensures
            r == self.cells_spec(),
            1 <= r <= 4096,
    ;

    /// Sense the world: one Q32.32 value per cell.
    fn vision(&self, x: u32, y: u32, rotation: i64, foods: &Vec<Food>) -> (r: Vec<i64>)
        ensures
            r@ == self.vision_spec(x, y, rotation, foods@),
            r@.len() == self.cells_spec(),
    ;

    /// A new sensor with the same configuration, for a freshly created
    /// agent.
    fn fresh(&self) -> (r: Self)
        ensures
            r.cells_spec() == self.cells_spec(),
    ;
}

/// Which vertical band of the world a food at `x` falls into, out of
/// `cells` equal bands.
pub open spec fn band_of(x: u32, cells: int) -> int {
    (x * cells) / 0x1_0000_0000
}

/// How many foods fall into band `c`.
pub open spec fn band_count(foods: Seq<Food>, cells: int, c: int) -> int
    decreases foods.len(),
{
    if foods.len() == 0 {
        0
    } else {
        band_count(foods.drop_last(), cells, c) + if band_of(foods.last().x, cells) == c {
            1int
        } else {
            0int
        }
    }
}

/// A deliberately simple sensor: it splits the world into vertical bands
/// and reports, per band, the food count scaled by 1.0 — enough to close
/// the sense-think-move loop while the full field-of-view sensor lives
/// outside this core.
#[derive(Debug, Clone, Copy)]
pub struct BandEye {
    cells: usize,
}

impl BandEye {
    /// A band sensor always has between 1 and 4096 cells.
    #[verifier::type_invariant]
    spec fn inv(&self) -> bool {
        1 <= self.cells <= 4096
    }

    /// A band sensor with the given cell count.
    pub fn new(cells: usize) -> (r: BandEye)
        requires
            1 <= cells <= 4096,
        ensures
            r.cells_spec() == cells,
    {
        BandEye { cells }
    }
}

impl Eye for BandEye {
    closed spec fn cells_spec(&self) -> usize {
        self.cells
    }

    /// Per band, the food count scaled by 1.0.
    open spec fn vision_spec(&self, x: u32, y: u32, rotation: i64, foods: Seq<Food>) -> Seq<i64> {
        Seq::new(
            self.cells_spec() as nat,
            |c: int| sat64(band_count(foods, self.cells_spec() as int, c) * 0x1_0000_0000) as i64,
        )
    }

    fn cells(&self) -> (r: usize) {
        proof {
            use_type_invariant(self);
        }
        self.cells
    }

    fn vision(&self, x: u32, y: u32, rotation: i64, foods: &Vec<Food>) -> (r: Vec<i64>)
    {
        let mut out: Vec<i64> = Vec::new();
        let mut c: usize = 0;
        while c < self.cells
            invariant
                out@.len() == c,
                c <= self.cells,
                forall|b: int| 0 <= b < c ==> out@[b] == sat64(
                    band_count(foods@, self.cells as int, b) * 0x1_0000_0000,
                ),
            decreases self.cells - c,
        {
            let n = foods.len();
            let mut count: u64 = 0;
            let mut i: usize = 0;
            while i < n
                invariant
                    n == foods@.len(),
                    i <= n,
                    count == band_count(foods@.take(i as int), self.cells as int, c as int),
                    count <= i,
                decreases n - i,
            {
                proof {
                    assert(foods@.take(i + 1).drop_last() =~= foods@.take(i as int));
                    assert(foods@.take(i + 1).last() == foods@[i as int]);
                }
                proof {
                    assert((foods@[i as int].x as int) * (self.cells as int)
                        < 0x1_0000_0000_0000_0000_0000_0000_0000_0000) by (nonlinear_arith)
                        requires
                            foods@[i as int].x <= u32::MAX,
                            self.cells <= usize::MAX,
                    ;
                }
                let band = ((foods[i].x as u128) * (self.cells as u128)) / 0x1_0000_0000u128;
                if band == c as u128 {
                    count = count + 1;
                }
                i += 1;
            }
            proof {
                assert(foods@.take(n as int) =~= foods@);
            }
            let value: i64 = if count > 0x7FFF_FFFFu64 {
                i64::MAX
            } else {
                (count as i64) * FX_ONE
            };
            proof {
                if count > 0x7FFF_FFFFu64 {
                    assert((count as int) * 0x1_0000_0000 > i64::MAX as int) by (nonlinear_arith)
                        requires
                            count > 0x7FFF_FFFFu64,
                    ;
                } else {
                    assert((count as int) * 0x1_0000_0000 <= i64::MAX as int) by (nonlinear_arith)
                        requires
                            count <= 0x7FFF_FFFFu64,
                    ;
                }
            }
            out.push(value);
            c += 1;
        }
        proof {
            assert(out@ =~= self.vision_spec(x, y, rotation, foods@));
        }
        out
    }

    fn fresh(&self) -> (r: Self) {
        proof {
            use_type_invariant(self);
        }
        BandEye { cells: self.cells }
    }
}

} // verus!
