use crate::coord::spec_ring;
use crate::coord::spec_square_around;
use crate::store::decoded_samples;
use crate::store::lemma_seq_max_props;
use crate::store::lemma_seq_min_props;
use crate::store::mmap_bytes;
use crate::store::seq_max;
use crate::store::seq_min;
use crate::util::decode_sample;
use crate::util::extract_resolution;
use crate::util::parse_sw_corner;
use crate::util::sample_value;
use crate::util::round_div;
use crate::util::round_div_i128;
use crate::util::spec_lat_deg;
use crate::util::spec_lon_deg;
use crate::util::valid_tile_name;
use crate::util::RES_1_FILE_LEN;
use crate::util::RES_3_FILE_LEN;
use crate::Coord;
use crate::Elev;
use crate::NasademError;
use crate::Polygon;
use crate::SampleStore;
use crate::HALF_ARCSEC_MAS;
use crate::MAS_PER_ARCSEC;
use crate::MAS_PER_DEG;
use crate::MAX_CORNER_MAS;
use vstd::arithmetic::div_mod::lemma_div_multiples_vanish_fancy;
use vstd::arithmetic::div_mod::lemma_fundamental_div_mod;
use vstd::arithmetic::div_mod::lemma_mod_division_less_than_divisor;
use vstd::prelude::*;

verus! {

/// One square tile of elevation samples with its geographic placement.
///
/// Raster coordinate `(0, 0)` is the tile's northwest corner: latitude
/// decreases as the row index grows, longitude increases as the column index
/// grows. The corner fields name the centers of the extreme samples, not the
/// tile's edges.
#[derive(Debug)]
pub struct Tile {
    /// Center of the southwest-most sample.
    pub sw_corner_center: Coord,
    /// Center of the northeast-most sample; one degree from the southwest on
    /// both axes.
    pub ne_corner_center: Coord,
    /// Arcseconds between neighboring sample centers; 1 or 3.
    pub resolution: u8,
    /// Number of (columns, rows); tiles are square.
    pub dimensions: (usize, usize),
    /// The elevation samples, row-major, row 0 northernmost.
    pub samples: SampleStore,
}

impl Tile {
    /// Well-formedness: a legal resolution, the matching square dimensions,
    /// a store of exactly one sample per cell, corners a degree apart, and
    /// corners small enough that every derived coordinate fits an `i64`.
    pub open spec fn wf(&self) -> bool {
        &&& (self.resolution == 1 || self.resolution == 3)
        &&& self.dimensions.0 == 3600int / self.resolution as int + 1
        &&& self.dimensions.1 == self.dimensions.0
        &&& self.samples@.len() == self.dimensions.0 * self.dimensions.1
        &&& -MAX_CORNER_MAS <= self.sw_corner_center.x <= MAX_CORNER_MAS
        &&& -MAX_CORNER_MAS <= self.sw_corner_center.y <= MAX_CORNER_MAS
        &&& self.ne_corner_center.x == self.sw_corner_center.x + MAS_PER_DEG
        &&& self.ne_corner_center.y == self.sw_corner_center.y + MAS_PER_DEG
    }

    /// Columns.
    pub open spec fn spec_width(&self) -> int {
        self.dimensions.0 as int
    }

    /// Rows.
    pub open spec fn spec_height(&self) -> int {
        self.dimensions.1 as int
    }

    /// Total sample count.
    pub open spec fn spec_len(&self) -> int {
        self.spec_width() * self.spec_height()
    }

    /// Milliarcseconds between neighboring sample centers.
    pub open spec fn spec_spacing(&self) -> int {
        self.resolution as int * MAS_PER_ARCSEC
    }

    /// A linear offset split into `(column, row)`.
    pub open spec fn spec_linear_to_xy(&self, idx: int) -> (int, int) {
        (idx % self.spec_width(), idx / self.spec_width())
    }

    /// A `(column, row)` pair flattened to a linear offset.
    pub open spec fn spec_xy_to_linear(&self, xy: (int, int)) -> int {
        xy.1 * self.spec_width() + xy.0
    }

    /// The geographic center of the sample at `(column, row)`.
    pub open spec fn spec_xy_to_geo(&self, xy: (int, int)) -> Coord {
        Coord {
            x: (self.sw_corner_center.x + xy.0 * self.spec_spacing()) as i64,
            y: (self.sw_corner_center.y + MAS_PER_DEG - xy.1 * self.spec_spacing()) as i64,
        }
    }

    /// The raster coordinate nearest a geographic coordinate; may lie
    /// outside the raster.
    pub open spec fn spec_geo_to_xy(&self, coord: Coord) -> (int, int) {
        (
            round_div(coord.x - self.sw_corner_center.x, self.spec_spacing()),
            round_div(self.sw_corner_center.y + MAS_PER_DEG - coord.y, self.spec_spacing()),
        )
    }

    /// The sample at `(column, row)`, or nothing when the pair lies outside
    /// the raster.
    pub open spec fn spec_get_xy(&self, xy: (int, int)) -> Option<Elev> {
        if 0 <= xy.0 < self.spec_width() && 0 <= xy.1 < self.spec_height() {
            Some(self.samples@[self.spec_xy_to_linear(xy)])
        } else {
            None
        }
    }

    /// The sample a location denotes, under any of the three index spaces.
    pub open spec fn spec_get(&self, loc: TileIndex) -> Option<Elev> {
        match loc {
            TileIndex::Linear(idx) => if idx < self.spec_len() {
                Some(self.samples@[idx as int])
            } else {
                None
            },
            TileIndex::XY(xy) => self.spec_get_xy((xy.0 as int, xy.1 as int)),
            TileIndex::Geo(c) => self.spec_get_xy(self.spec_geo_to_xy(c)),
        }
    }

    /// The concrete shapes a well-formed tile can take: all dimension
    /// arithmetic reduces to one of two literal cases.
    proof fn lemma_wf_dims(&self)
        requires
            self.wf(),
        ensures
            self.spec_width() == 3601 || self.spec_width() == 1201,
            self.spec_height() == self.spec_width(),
            self.spec_width() >= 1201,
            self.spec_len() == if self.spec_width() == 3601 {
                12_967_201int
            } else {
                1_442_401int
            },
            self.spec_spacing() == if self.spec_width() == 3601 {
                1000int
            } else {
                3000int
            },
            (self.spec_width() - 1) * self.spec_spacing() == MAS_PER_DEG,
    {
        if self.resolution == 1 {
            assert(self.spec_width() == 3601);
            assert(3601int * 3601 == 12_967_201);
            assert(3600int * 1000 == MAS_PER_DEG);
        } else {
            assert(self.spec_width() == 1201);
            assert(1201int * 1201 == 1_442_401);
            assert(1200int * 3000 == MAS_PER_DEG);
        }
    }

    /// A virtual all-zero tile with the given southwest corner, standing in
    /// for a region with no coverage.
    pub fn tombstone(sw_corner: Coord, arcsec_per_sample: u8) -> (t: Tile)
        requires
            arcsec_per_sample == 1 || arcsec_per_sample == 3,
            -MAX_CORNER_MAS <= sw_corner.x <= MAX_CORNER_MAS,
            -MAX_CORNER_MAS <= sw_corner.y <= MAX_CORNER_MAS,
        ensures
            t.wf(),
            t.sw_corner_center == sw_corner,
            t.resolution == arcsec_per_sample,
            forall|i: int| 0 <= i < t.samples@.len() ==> t.samples@[i] == 0,
    {
        let dim: usize = if arcsec_per_sample == 1 {
            3601
        } else {
            1201
        };
        let sw_corner_center = sw_corner;
        let ne_corner_center = Coord {
            x: sw_corner.x + MAS_PER_DEG,
            y: sw_corner.y + MAS_PER_DEG,
        };
        Tile {
            sw_corner_center,
            ne_corner_center,
            resolution: arcsec_per_sample,
            dimensions: (dim, dim),
            samples: SampleStore::Tombstone(dim * dim),
        }
    }

    /// This tile's `(columns, rows)`.
    pub fn dimensions(&self) -> (d: (usize, usize))
        ensures
            d == self.dimensions,
    {
        self.dimensions
    }

    /// The number of samples in this tile.
    pub fn len(&self) -> (n: usize)
        requires
            self.wf(),
        ensures
            n == self.spec_len(),
    {
        proof {
            self.lemma_wf_dims();
        }
        self.dimensions.0 * self.dimensions.1
    }

    /// This tile's resolution in arcseconds per sample.
    pub fn resolution(&self) -> (r: u8)
        ensures
            r == self.resolution,
    {
        self.resolution
    }

    /// The lowest elevation sample in this tile, by a full scan. The store
    /// is immutable, so recomputation is pure and no cache is kept.
    pub fn min_elevation(&self) -> (r: Elev)
        requires
            self.wf(),
        ensures
            r == seq_min(self.samples@),
            exists|i: int| 0 <= i < self.samples@.len() && r == self.samples@[i],
            forall|i: int| 0 <= i < self.samples@.len() ==> r <= self.samples@[i],
    {
        proof {
            self.lemma_wf_dims();
            lemma_seq_min_props(self.samples@);
        }
        self.samples.min()
    }

    /// The highest elevation sample in this tile, by a full scan. The store
    /// is immutable, so recomputation is pure and no cache is kept.
    pub fn max_elevation(&self) -> (r: Elev)
        requires
            self.wf(),
        ensures
            r == seq_max(self.samples@),
            exists|i: int| 0 <= i < self.samples@.len() && r == self.samples@[i],
            forall|i: int| 0 <= i < self.samples@.len() ==> r >= self.samples@[i],
    {
        proof {
            self.lemma_wf_dims();
            lemma_seq_max_props(self.samples@);
        }
        self.samples.max()
    }

    /// Splits a linear offset into `(column, row)`.
    pub fn linear_to_xy(&self, idx: usize) -> (r: (usize, usize))
        requires
            self.wf(),
        ensures
            (r.0 as int, r.1 as int) == self.spec_linear_to_xy(idx as int),
    {
        proof {
            self.lemma_wf_dims();
        }
        let w = self.dimensions.0;
        (idx % w, idx / w)
    }

    /// Flattens `(column, row)` to a linear offset.
    pub fn xy_to_linear(&self, xy: (usize, usize)) -> (r: usize)
        requires
            self.wf(),
            xy.0 < self.dimensions.0,
            xy.1 < self.dimensions.1,
        ensures
            r == self.spec_xy_to_linear((xy.0 as int, xy.1 as int)),
            r < self.spec_len(),
    {
        proof {
            self.lemma_wf_dims();
            let x = xy.0 as int;
            let y = xy.1 as int;
            if self.spec_width() == 3601 {
                assert(3601 * y + x < 3601 * 3601);
            } else {
                assert(1201 * y + x < 1201 * 1201);
            }
        }
        self.dimensions.0 * xy.1 + xy.0
    }

    /// The geographic center of the sample at `(column, row)`.
    pub fn xy_to_geo(&self, xy: (usize, usize)) -> (r: Coord)
        requires
            self.wf(),
            xy.0 < self.dimensions.0,
            xy.1 < self.dimensions.1,
        ensures
            r == self.spec_xy_to_geo((xy.0 as int, xy.1 as int)),
    {
        proof {
            self.lemma_wf_dims();
            let x = xy.0 as int;
            let y = xy.1 as int;
            if self.spec_width() == 3601 {
                assert(0 <= x * 1000 <= MAS_PER_DEG && 0 <= y * 1000 <= MAS_PER_DEG);
            } else {
                assert(0 <= x * 3000 <= MAS_PER_DEG && 0 <= y * 3000 <= MAS_PER_DEG);
            }
        }
        let spacing = self.resolution as i64 * MAS_PER_ARCSEC;
        let x = self.sw_corner_center.x + xy.0 as i64 * spacing;
        let y = self.sw_corner_center.y + MAS_PER_DEG - xy.1 as i64 * spacing;
        Coord { x, y }
    }

    /// The raster coordinate nearest a geographic coordinate, each axis
    /// rounded to the nearest sample with halves away from zero. The result
    /// is signed and may lie outside the raster; bound checks are the
    /// caller's, or [`Tile::get`]'s.
    pub fn geo_to_xy(&self, coord: Coord) -> (r: (i64, i64))
        requires
            self.wf(),
        ensures
            (r.0 as int, r.1 as int) == self.spec_geo_to_xy(coord),
    {
        proof {
            self.lemma_wf_dims();
        }
        let spacing: i128 = self.resolution as i128 * MAS_PER_ARCSEC as i128;
        let dx: i128 = coord.x as i128 - self.sw_corner_center.x as i128;
        let dy: i128 = self.sw_corner_center.y as i128 + MAS_PER_DEG as i128 - coord.y as i128;
        let rx = round_div_i128(dx, spacing);
        let ry = round_div_i128(dy, spacing);
        proof {
            lemma_round_div_close(dx as int, spacing as int);
            lemma_round_div_close(dy as int, spacing as int);
        }
        (rx as i64, ry as i64)
    }

    /// The sample at `(column, row)`, with no bound check beyond the
    /// caller's obligation.
    pub fn get_xy_unchecked(&self, xy: (usize, usize)) -> (r: Elev)
        requires
            self.wf(),
            xy.0 < self.dimensions.0,
            xy.1 < self.dimensions.1,
        ensures
            Some(r) == self.spec_get_xy((xy.0 as int, xy.1 as int)),
    {
        let idx = self.xy_to_linear(xy);
        self.samples.get_linear_unchecked(idx)
    }

    /// The sample at `(column, row)`, or nothing when the pair lies outside
    /// the raster.
    pub fn get_xy(&self, xy: (usize, usize)) -> (r: Option<Elev>)
        requires
            self.wf(),
        ensures
            r == self.spec_get_xy((xy.0 as int, xy.1 as int)),
    {
        if xy.0 < self.dimensions.0 && xy.1 < self.dimensions.1 {
            Some(self.get_xy_unchecked(xy))
        } else {
            None
        }
    }

    /// The sample whose center is nearest the geographic coordinate, or
    /// nothing when that coordinate resolves outside the raster.
    pub fn get_geo(&self, coord: Coord) -> (r: Option<Elev>)
        requires
            self.wf(),
        ensures
            r == self.spec_get_xy(self.spec_geo_to_xy(coord)),
    {
        let (gx, gy) = self.geo_to_xy(coord);
        if 0 <= gx && gx < self.dimensions.0 as i64 && 0 <= gy && gy < self.dimensions.1 as i64 {
            Some(self.get_xy_unchecked((gx as usize, gy as usize)))
        } else {
            None
        }
    }

    /// The sample whose center is nearest the geographic coordinate, with
    /// no bound check beyond the caller's obligation.
    pub fn get_geo_unchecked(&self, coord: Coord) -> (r: Elev)
        requires
            self.wf(),
            0 <= self.spec_geo_to_xy(coord).0 < self.spec_width(),
            0 <= self.spec_geo_to_xy(coord).1 < self.spec_height(),
        ensures
            Some(r) == self.spec_get_xy(self.spec_geo_to_xy(coord)),
    {
        let (gx, gy) = self.geo_to_xy(coord);
        self.get_xy_unchecked((gx as usize, gy as usize))
    }

    /// The sample a location denotes, under any of the three index spaces,
    /// or nothing when it lies outside the tile.
    pub fn get(&self, loc: TileIndex) -> (r: Option<Elev>)
        requires
            self.wf(),
        ensures
            r == self.spec_get(loc),
    {
        match loc {
            TileIndex::Linear(idx) => if idx < self.len() {
                Some(self.samples.get_linear_unchecked(idx))
            } else {
                None
            },
            TileIndex::XY(xy) => self.get_xy(xy),
            TileIndex::Geo(c) => self.get_geo(c),
        }
    }

    /// The sample a location denotes, with no bound check beyond the
    /// caller's obligation that the location lies within the tile.
    pub fn get_unchecked(&self, loc: TileIndex) -> (r: Elev)
        requires
            self.wf(),
            self.spec_get(loc) is Some,
        ensures
            Some(r) == self.spec_get(loc),
    {
        match loc {
            TileIndex::Linear(idx) => self.samples.get_linear_unchecked(idx),
            TileIndex::XY(xy) => self.get_xy_unchecked(xy),
            TileIndex::Geo(c) => self.get_geo_unchecked(c),
        }
    }

    /// This tile's outline: the closed ring covering the full extent,
    /// expanded half a sample's width beyond the extreme sample centers on
    /// each side.
    pub fn polygon(&self) -> (p: Polygon)
        requires
            self.wf(),
        ensures
            p.exterior@ == spec_ring(
                self.sw_corner_center.x - self.resolution as int * HALF_ARCSEC_MAS,
                self.sw_corner_center.y - self.resolution as int * HALF_ARCSEC_MAS,
                self.ne_corner_center.x + self.resolution as int * HALF_ARCSEC_MAS,
                self.ne_corner_center.y + self.resolution as int * HALF_ARCSEC_MAS,
            ),
    {
        let delta = self.resolution as i64 * HALF_ARCSEC_MAS;
        let n = self.ne_corner_center.y + delta;
        let e = self.ne_corner_center.x + delta;
        let s = self.sw_corner_center.y - delta;
        let w = self.sw_corner_center.x - delta;
        Polygon::ring(w, s, e, n)
    }

    /// The closed square ring of side `resolution` arcseconds around the
    /// center of the sample at `(column, row)`.
    pub fn xy_to_polygon(&self, xy: (usize, usize)) -> (p: Polygon)
        requires
            self.wf(),
            xy.0 < self.dimensions.0,
            xy.1 < self.dimensions.1,
        ensures
            p.exterior@ == spec_square_around(
                self.spec_xy_to_geo((xy.0 as int, xy.1 as int)),
                self.resolution,
            ),
    {
        let center = self.xy_to_geo(xy);
        proof {
            self.lemma_wf_dims();
            let x = xy.0 as int;
            let y = xy.1 as int;
            if self.spec_width() == 3601 {
                assert(0 <= x * 1000 <= MAS_PER_DEG && 0 <= y * 1000 <= MAS_PER_DEG);
            } else {
                assert(0 <= x * 3000 <= MAS_PER_DEG && 0 <= y * 3000 <= MAS_PER_DEG);
            }
        }
        crate::util::polygon(&center, self.resolution)
    }

    /// Decodes a whole tile into memory from the contents of a file and the
    /// file's base name. The length of `data` must match one of the two
    /// supported resolutions and `name` must encode a southwest corner;
    /// exactly the failures of those two checks are errors.
    pub fn from_bytes(name: &str, data: Vec<u8>) -> (r: Result<Tile, NasademError>)
        ensures
            match r {
                Ok(t) => {
                    &&& t.wf()
                    &&& valid_tile_name(name@)
                    &&& t.sw_corner_center.x == spec_lon_deg(name@) * MAS_PER_DEG
                    &&& t.sw_corner_center.y == spec_lat_deg(name@) * MAS_PER_DEG
                    &&& (data@.len() == RES_1_FILE_LEN && t.resolution == 1 || data@.len()
                        == RES_3_FILE_LEN && t.resolution == 3)
                    &&& t.samples@ == decoded_samples(data@)
                },
                Err(e) => {
                    ||| e matches NasademError::HgtLen(l, p) && l == data@.len() && p@ == name@
                        && data@.len() != RES_1_FILE_LEN && data@.len() != RES_3_FILE_LEN
                    ||| e matches NasademError::HgtName(n) && n@ == name@ && !valid_tile_name(
                        name@,
                    ) && (data@.len() == RES_1_FILE_LEN || data@.len() == RES_3_FILE_LEN)
                },
            },
    {
        let (resolution, dimensions) = match extract_resolution(name, data.len() as u64) {
            Ok(v) => v,
            Err(e) => {
                return Err(e);
            },
        };
        let sw_corner_center = match parse_sw_corner(name) {
            Ok(c) => c,
            Err(e) => {
                return Err(e);
            },
        };
        proof {
            crate::util::lemma_name_bounds(name@);
        }
        let ne_corner_center = Coord {
            x: sw_corner_center.x + MAS_PER_DEG,
            y: sw_corner_center.y + MAS_PER_DEG,
        };
        let count: usize = if resolution == 1 {
            proof {
                assert(3601int * 3601 == 12_967_201);
            }
            12_967_201
        } else {
            proof {
                assert(1201int * 1201 == 1_442_401);
            }
            1_442_401
        };
        let mut samples: Vec<Elev> = Vec::with_capacity(count);
        let mut i: usize = 0;
        while i < count
            invariant
                i <= count,
                samples@.len() == i,
                data@.len() == 2 * count,
                count <= 12_967_201,
                forall|j: int| 0 <= j < i ==> samples@[j] == decoded_samples(data@)[j],
            decreases count - i,
        {
            let b0 = data[2 * i];
            let b1 = data[2 * i + 1];
            let s = decode_sample(b0, b1);
            proof {
                assert(-32768 <= sample_value(data@[2 * i as int], data@[2 * i as int + 1])
                    < 32768);
            }
            samples.push(s);
            i += 1;
        }
        proof {
            assert(samples@ =~= decoded_samples(data@));
        }
        Ok(
            Tile {
                sw_corner_center,
                ne_corner_center,
                resolution,
                dimensions,
                samples: SampleStore::InMem(samples),
            },
        )
    }

    /// Wraps a read-only mapping of a tile file, leaving the samples on
    /// disk; each access decodes two bytes on demand. The mapping's length
    /// must match one of the two supported resolutions and `name` must
    /// encode a southwest corner; exactly the failures of those two checks
    /// are errors.
    pub fn from_mmap(name: &str, mmap: memmap2::Mmap) -> (r: Result<Tile, NasademError>)
        ensures
            match r {
                Ok(t) => {
                    &&& t.wf()
                    &&& valid_tile_name(name@)
                    &&& t.sw_corner_center.x == spec_lon_deg(name@) * MAS_PER_DEG
                    &&& t.sw_corner_center.y == spec_lat_deg(name@) * MAS_PER_DEG
                    &&& (mmap_bytes(mmap).len() == RES_1_FILE_LEN && t.resolution == 1
                        || mmap_bytes(mmap).len() == RES_3_FILE_LEN && t.resolution == 3)
                    &&& t.samples@ == decoded_samples(mmap_bytes(mmap))
                },
                Err(e) => {
                    ||| e matches NasademError::HgtLen(l, p) && l == mmap_bytes(mmap).len() && p@
                        == name@ && mmap_bytes(mmap).len() != RES_1_FILE_LEN && mmap_bytes(
                        mmap,
                    ).len() != RES_3_FILE_LEN
                    ||| e matches NasademError::HgtName(n) && n@ == name@ && !valid_tile_name(
                        name@,
                    ) && (mmap_bytes(mmap).len() == RES_1_FILE_LEN || mmap_bytes(mmap).len()
                        == RES_3_FILE_LEN)
                },
            },
    {
        let len = crate::store::mmap_len(&mmap);
        let (resolution, dimensions) = match extract_resolution(name, len as u64) {
            Ok(v) => v,
            Err(e) => {
                return Err(e);
            },
        };
        let sw_corner_center = match parse_sw_corner(name) {
            Ok(c) => c,
            Err(e) => {
                return Err(e);
            },
        };
        proof {
            crate::util::lemma_name_bounds(name@);
            assert(3601int * 3601 == 12_967_201);
            assert(1201int * 1201 == 1_442_401);
        }
        let ne_corner_center = Coord {
            x: sw_corner_center.x + MAS_PER_DEG,
            y: sw_corner_center.y + MAS_PER_DEG,
        };
        Ok(
            Tile {
                sw_corner_center,
                ne_corner_center,
                resolution,
                dimensions,
                samples: SampleStore::MemMap(mmap),
            },
        )
    }
}

/// Splitting a valid linear offset into `(column, row)` lands within the
/// raster, and flattening the pair back is the identity.
pub proof fn lemma_linear_xy_round_trip(t: &Tile, idx: int)
    requires
        t.wf(),
        0 <= idx < t.spec_len(),
    ensures
        0 <= t.spec_linear_to_xy(idx).0 < t.spec_width(),
        0 <= t.spec_linear_to_xy(idx).1 < t.spec_height(),
        t.spec_xy_to_linear(t.spec_linear_to_xy(idx)) == idx,
{
    t.lemma_wf_dims();
    let w = t.spec_width();
    lemma_fundamental_div_mod(idx, w);
    lemma_mod_division_less_than_divisor(idx, w);
    if w == 3601 {
        assert(3601 * (idx / 3601) + idx % 3601 == idx);
    } else {
        assert(1201 * (idx / 1201) + idx % 1201 == idx);
    }
}

/// Flattening a raster pair to a linear offset and splitting it again is
/// the identity.
pub proof fn lemma_xy_linear_round_trip(t: &Tile, x: int, y: int)
    requires
        t.wf(),
        0 <= x < t.spec_width(),
        0 <= y < t.spec_height(),
    ensures
        t.spec_linear_to_xy(t.spec_xy_to_linear((x, y))) == (x, y),
{
    t.lemma_wf_dims();
    let w = t.spec_width();
    lemma_div_multiples_vanish_fancy(y, x, w);
    lemma_fundamental_div_mod(w * y + x, w);
    if w == 3601 {
        assert((3601 * y + x) / 3601 == y);
    } else {
        assert((1201 * y + x) / 1201 == y);
    }
}

/// Converting a raster pair to its geographic center and resolving that
/// coordinate back to the nearest raster pair is the identity, exactly.
pub proof fn lemma_geo_xy_round_trip(t: &Tile, x: int, y: int)
    requires
        t.wf(),
        0 <= x < t.spec_width(),
        0 <= y < t.spec_height(),
    ensures
        t.spec_geo_to_xy(t.spec_xy_to_geo((x, y))) == (x, y),
{
    t.lemma_wf_dims();
    let s = t.spec_spacing();
    lemma_div_multiples_vanish_fancy(x, s / 2, s);
    lemma_div_multiples_vanish_fancy(y, s / 2, s);
    if s == 1000 {
        assert(0 <= x * 1000 <= MAS_PER_DEG && 0 <= y * 1000 <= MAS_PER_DEG);
        assert((1000 * x + 500) / 1000 == x && (1000 * y + 500) / 1000 == y);
    } else {
        assert(0 <= x * 3000 <= MAS_PER_DEG && 0 <= y * 3000 <= MAS_PER_DEG);
        assert((3000 * x + 1500) / 3000 == x && (3000 * y + 1500) / 3000 == y);
    }
}

/// The extreme raster coordinates convert to the tile's corner centers:
/// `(0, 0)` to the northwest, `(width - 1, 0)` to the northeast, and
/// `(0, height - 1)` to the southwest.
pub proof fn lemma_corner_centers(t: &Tile)
    requires
        t.wf(),
    ensures
        t.spec_xy_to_geo((0, 0)) == (Coord {
            x: t.sw_corner_center.x,
            y: t.ne_corner_center.y,
        }),
        t.spec_xy_to_geo((t.spec_width() - 1, 0)) == t.ne_corner_center,
        t.spec_xy_to_geo((0, t.spec_height() - 1)) == t.sw_corner_center,
{
    t.lemma_wf_dims();
}

/// A geographic query strictly outside the tile's extent, by more than half
/// a sample's spacing beyond the extreme sample centers on either axis,
/// resolves outside the raster, so the checked accessor returns nothing.
pub proof fn lemma_outside_query_misses(t: &Tile, c: Coord)
    requires
        t.wf(),
        c.x < t.sw_corner_center.x - t.spec_spacing() / 2 || c.x > t.sw_corner_center.x
            + MAS_PER_DEG + t.spec_spacing() / 2 || c.y < t.sw_corner_center.y - t.spec_spacing()
            / 2 || c.y > t.sw_corner_center.y + MAS_PER_DEG + t.spec_spacing() / 2,
    ensures
        t.spec_get(TileIndex::Geo(c)) is None,
{
    t.lemma_wf_dims();
    let s = t.spec_spacing();
    let dx = c.x - t.sw_corner_center.x;
    let dy = t.sw_corner_center.y + MAS_PER_DEG - c.y;
    let gx = round_div(dx, s);
    let gy = round_div(dy, s);
    lemma_round_div_close(dx, s);
    lemma_round_div_close(dy, s);
    if s == 1000 {
        assert(1000 * (t.spec_width() - 1) == MAS_PER_DEG);
        assert(gx < 0 || gx >= t.spec_width() || gy < 0 || gy >= t.spec_height());
    } else {
        assert(3000 * (t.spec_width() - 1) == MAS_PER_DEG);
        assert(gx < 0 || gx >= t.spec_width() || gy < 0 || gy >= t.spec_height());
    }
}

/// In a tile whose every sample is zero, any location that resolves inside
/// the tile reads elevation zero.
pub proof fn lemma_all_zero_reads_zero(t: &Tile, loc: TileIndex)
    requires
        t.wf(),
        forall|i: int| 0 <= i < t.samples@.len() ==> t.samples@[i] == 0,
    ensures
        t.spec_get(loc) is Some ==> t.spec_get(loc) == Some(0i16),
{
    t.lemma_wf_dims();
    if t.spec_get(loc) is Some {
        let xy = match loc {
            TileIndex::Linear(idx) => t.spec_linear_to_xy(idx as int),
            TileIndex::XY(xy) => (xy.0 as int, xy.1 as int),
            TileIndex::Geo(c) => t.spec_geo_to_xy(c),
        };
        match loc {
            TileIndex::Linear(idx) => {},
            _ => {
                if t.spec_width() == 3601 {
                    assert(0 <= xy.1 * 3601 + xy.0 < 3601 * 3601);
                } else {
                    assert(0 <= xy.1 * 1201 + xy.0 < 1201 * 1201);
                }
            },
        }
    }
}

/// Two well-formed tiles with the same southwest corner, the same
/// resolution, and the same decoded samples agree on every query: decoding
/// a file into memory and memory-mapping the same bytes are
/// indistinguishable to every accessor.
pub proof fn lemma_same_samples_agree(t1: &Tile, t2: &Tile)
    requires
        t1.wf(),
        t2.wf(),
        t1.sw_corner_center == t2.sw_corner_center,
        t1.resolution == t2.resolution,
        t1.samples@ == t2.samples@,
    ensures
        forall|loc: TileIndex| t1.spec_get(loc) == t2.spec_get(loc),
{
    assert(t1.dimensions == t2.dimensions);
    assert forall|loc: TileIndex| t1.spec_get(loc) == t2.spec_get(loc) by {
        assert(t1.spec_geo_to_xy(match loc {
            TileIndex::Geo(c) => c,
            _ => Coord { x: 0, y: 0 },
        }) == t2.spec_geo_to_xy(match loc {
            TileIndex::Geo(c) => c,
            _ => Coord { x: 0, y: 0 },
        }));
    }
}

/// Rounding leaves the quotient within half a divisor of the dividend:
/// `b * round_div(a, b)` is within `b / 2` of `a`.
pub proof fn lemma_round_div_close(a: int, b: int)
    requires
        0 < b,
    ensures
        b * round_div(a, b) - b / 2 <= a <= b * round_div(a, b) + b / 2,
{
    lemma_fundamental_div_mod(b, 2);
    lemma_mod_division_less_than_divisor(b, 2);
    if a >= 0 {
        let x = a + b / 2;
        let q = x / b;
        lemma_fundamental_div_mod(x, b);
        lemma_mod_division_less_than_divisor(x, b);
        assert(round_div(a, b) == q);
        assert(x == b * q + x % b);
    } else {
        let x = -a + b / 2;
        let q = x / b;
        lemma_fundamental_div_mod(x, b);
        lemma_mod_division_less_than_divisor(x, b);
        assert(round_div(a, b) == -q);
        assert(x == b * q + x % b);
        assert(b * -q == -(b * q)) by (nonlinear_arith);
    }
}

/// Represents the three ways to index into a [`Tile`].
#[derive(Clone, Copy, Debug, PartialEq)]
pub enum TileIndex {
    /// Plain offset into the flat sample array.
    Linear(usize),
    /// Raster coordinates, where `(0, 0)` is the northwest corner.
    XY((usize, usize)),
    /// Absolute geographic coordinates.
    Geo(Coord),
}

impl From<usize> for TileIndex {
    /// Converts a `usize` into a `TileIndex::Linear`.
    fn from(other: usize) -> (r: TileIndex) {
        TileIndex::Linear(other)
    }
}

impl vstd::std_specs::convert::FromSpecImpl<usize> for TileIndex {
    open spec fn obeys_from_spec() -> bool {
        true
    }

    open spec fn from_spec(other: usize) -> TileIndex {
        TileIndex::Linear(other)
    }
}

impl From<(usize, usize)> for TileIndex {
    /// Converts a `(column, row)` pair into a `TileIndex::XY`.
    fn from(other: (usize, usize)) -> (r: TileIndex) {
        TileIndex::XY(other)
    }
}

impl vstd::std_specs::convert::FromSpecImpl<(usize, usize)> for TileIndex {
    open spec fn obeys_from_spec() -> bool {
        true
    }

    open spec fn from_spec(other: (usize, usize)) -> TileIndex {
        TileIndex::XY(other)
    }
}

impl From<Coord> for TileIndex {
    /// Converts a [`Coord`] into a `TileIndex::Geo`.
    fn from(other: Coord) -> (r: TileIndex) {
        TileIndex::Geo(other)
    }
}

impl vstd::std_specs::convert::FromSpecImpl<Coord> for TileIndex {
    open spec fn obeys_from_spec() -> bool {
        true
    }

    open spec fn from_spec(other: Coord) -> TileIndex {
        TileIndex::Geo(other)
    }
}

} // verus!
