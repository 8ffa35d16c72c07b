//! Decoder and coordinate engine for square digital-elevation tiles in the
//! NASADEM/SRTM `.hgt` layout: big-endian 16-bit samples, one file per
//! 1-degree-square tile, with the southwest corner encoded in the file name.
//!
//! Geographic coordinates are held exactly, as integer counts of
//! milliarcseconds ([`MAS_PER_DEG`] per degree), so every conversion between
//! the three index spaces (linear offset, raster x/y, geographic) is integer
//! arithmetic with a proved round trip.

use vstd::prelude::*;

mod coord;
mod error;
mod sample;
mod shade;
mod store;
mod tile;
mod to_pixels;
mod util;

pub use coord::Coord;
pub use coord::Polygon;
pub use error::NasademError;
pub use sample::Sample;
pub use shade::grid_gradients;
pub use store::SampleStore;
pub use tile::Tile;
pub use tile::TileIndex;
pub use to_pixels::elevation_to_pixel;
pub use util::extract_resolution;
pub use util::parse_sample;
pub use util::parse_sw_corner;
pub use util::read_sample;

verus! {

/// Bit representation of elevation samples, meters above or below reference.
pub type Elev = i16;

/// Milliarcseconds per degree: the denominator of the exact fixed-point
/// representation used for all geographic coordinates.
pub const MAS_PER_DEG: i64 = 3_600_000;

/// Milliarcseconds per arcsecond.
pub const MAS_PER_ARCSEC: i64 = 1000;

/// Half of one arcsecond, in milliarcseconds.
pub const HALF_ARCSEC_MAS: i64 = 500;

/// Bound on the magnitude of a tile corner coordinate, in milliarcseconds
/// (1000 degrees). Every corner the file-name grammar can denote lies well
/// within it, and it keeps all tile arithmetic inside `i64`.
pub const MAX_CORNER_MAS: i64 = 3_600_000_000;

} // verus!
