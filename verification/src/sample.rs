use crate::coord::spec_square_around;
use crate::tile::lemma_linear_xy_round_trip;
use crate::Coord;
use crate::Elev;
use crate::Polygon;
use crate::Tile;
use crate::TileIndex;
use vstd::prelude::*;

verus! {

/// One elevation sample of a [`Tile`]: the tile together with the sample's
/// offset into its data.
pub struct Sample<'a> {
    /// The tile this grid square belongs to.
    pub tile: &'a Tile,
    /// Offset into the tile's elevation data.
    pub index: usize,
}

impl<'a> Sample<'a> {
    /// Well-formedness: a well-formed tile and an offset within it.
    pub open spec fn wf(&self) -> bool {
        &&& self.tile.wf()
        &&& (self.index as int) < self.tile.spec_len()
    }

    /// The sample's elevation in meters.
    pub fn elevation(&self) -> (r: Elev)
        requires
            self.wf(),
        ensures
            Some(r) == self.tile.spec_get(TileIndex::Linear(self.index)),
    {
        self.tile.samples.get_linear_unchecked(self.index)
    }

    /// The sample's offset in the tile's data.
    pub fn index(&self) -> (r: usize)
        ensures
            r == self.index,
    {
        self.index
    }

    /// The sample's `(column, row)` location; `(0, 0)` is the northwest
    /// corner.
    pub fn xy(&self) -> (r: (usize, usize))
        requires
            self.wf(),
        ensures
            (r.0 as int, r.1 as int) == self.tile.spec_linear_to_xy(self.index as int),
            r.0 < self.tile.dimensions.0,
            r.1 < self.tile.dimensions.1,
    {
        proof {
            lemma_linear_xy_round_trip(self.tile, self.index as int);
        }
        self.tile.linear_to_xy(self.index)
    }

    /// The geographic center of the sample.
    pub fn geo(&self) -> (r: Coord)
        requires
            self.wf(),
        ensures
            r == self.tile.spec_xy_to_geo(self.tile.spec_linear_to_xy(self.index as int)),
    {
        let xy = self.xy();
        self.tile.xy_to_geo(xy)
    }

    /// The closed square ring around the sample's geographic center.
    pub fn polygon(&self) -> (p: Polygon)
        requires
            self.wf(),
        ensures
            p.exterior@ == spec_square_around(
                self.tile.spec_xy_to_geo(self.tile.spec_linear_to_xy(self.index as int)),
                self.tile.resolution,
            ),
    {
        let xy = self.xy();
        self.tile.xy_to_polygon(xy)
    }
}

impl Tile {
    /// The sample at a linear offset; successive offsets walk the tile in
    /// row-major order, row 0 northernmost.
    pub fn sample_at(&self, index: usize) -> (s: Sample<'_>)
        requires
            self.wf(),
            index < self.spec_len(),
        ensures
            s.tile == self,
            s.index == index,
            s.wf(),
    {
        Sample { tile: self, index }
    }
}

} // verus!
