use crate::HALF_ARCSEC_MAS;
use crate::MAS_PER_DEG;
use vstd::prelude::*;

verus! {

/// A geographic coordinate: longitude (`x`) and latitude (`y`), each an exact
/// integer count of milliarcseconds ([`MAS_PER_DEG`] per degree).
#[derive(Clone, Copy, Debug, PartialEq, Eq, Structural)]
pub struct Coord {
    /// Longitude in milliarcseconds; positive is east.
    pub x: i64,
    /// Latitude in milliarcseconds; positive is north.
    pub y: i64,
}

impl Coord {
    /// The coordinate at a whole number of degrees.
    pub fn from_degrees(lon: i16, lat: i16) -> (c: Coord)
        ensures
            c.x == lon as int * MAS_PER_DEG,
            c.y == lat as int * MAS_PER_DEG,
    {
        Coord { x: lon as i64 * MAS_PER_DEG, y: lat as i64 * MAS_PER_DEG }
    }
}

/// A closed square ring of five coordinate pairs (the first repeated last),
/// in order west-south, east-south, east-north, west-north, close.
#[derive(Clone, Debug, PartialEq, Eq)]
pub struct Polygon {
    /// The ring's five vertices.
    pub exterior: Vec<Coord>,
}

/// The vertices of the closed square ring spanning `[w, e]` in longitude and
/// `[s, n]` in latitude.
pub open spec fn spec_ring(w: int, s: int, e: int, n: int) -> Seq<Coord> {
    seq![
        Coord { x: w as i64, y: s as i64 },
        Coord { x: e as i64, y: s as i64 },
        Coord { x: e as i64, y: n as i64 },
        Coord { x: w as i64, y: n as i64 },
        Coord { x: w as i64, y: s as i64 },
    ]
}

/// The square ring of side `res` arcseconds centered on `center`.
pub open spec fn spec_square_around(center: Coord, res: u8) -> Seq<Coord> {
    spec_ring(
        center.x - res * HALF_ARCSEC_MAS,
        center.y - res * HALF_ARCSEC_MAS,
        center.x + res * HALF_ARCSEC_MAS,
        center.y + res * HALF_ARCSEC_MAS,
    )
}

impl Polygon {
    /// Builds the closed ring spanning `[w, e]` by `[s, n]`.
    pub fn ring(w: i64, s: i64, e: i64, n: i64) -> (p: Polygon)
        ensures
            p.exterior@ == spec_ring(w as int, s as int, e as int, n as int),
    {
        let mut exterior: Vec<Coord> = Vec::new();
        exterior.push(Coord { x: w, y: s });
        exterior.push(Coord { x: e, y: s });
        exterior.push(Coord { x: e, y: n });
        exterior.push(Coord { x: w, y: n });
        exterior.push(Coord { x: w, y: s });
        proof {
            assert(exterior@ =~= spec_ring(w as int, s as int, e as int, n as int));
        }
        Polygon { exterior }
    }
}

} // verus!
