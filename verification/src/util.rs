use crate::coord::spec_square_around;
use crate::Coord;
use crate::Elev;
use crate::NasademError;
use crate::Polygon;
use crate::HALF_ARCSEC_MAS;
use crate::MAS_PER_DEG;
use crate::MAX_CORNER_MAS;
use vstd::prelude::*;

verus! {

/// Length in bytes of a 1-arcsecond file: 3601 x 3601 two-byte samples.
pub const RES_1_FILE_LEN: u64 = 3601 * 3601 * 2;

/// Length in bytes of a 3-arcsecond file: 1201 x 1201 two-byte samples.
pub const RES_3_FILE_LEN: u64 = 1201 * 1201 * 2;

/// The elevation encoded by two big-endian bytes: a signed 16-bit value.
pub open spec fn sample_value(b0: u8, b1: u8) -> int {
    let v = b0 * 256 + b1;
    if v < 32768 {
        v as int
    } else {
        v - 65536
    }
}

/// Decodes one big-endian elevation sample from its two bytes.
pub fn decode_sample(b0: u8, b1: u8) -> (r: Elev)
    ensures
        r as int == sample_value(b0, b1),
{
    let v: u16 = (b0 as u16) * 256 + (b1 as u16);
    if v < 32768 {
        v as i16
    } else {
        -((65535 - v) as i16) - 1
    }
}

/// Parses a big-endian elevation sample from a slice of exactly two bytes.
pub fn parse_sample(src: &[u8]) -> (r: Elev)
    requires
        src@.len() == 2,
    ensures
        r as int == sample_value(src@[0], src@[1]),
{
    decode_sample(src[0], src[1])
}

/// Relies on `std::io::Read::read_exact`: on success the buffer holds the
/// next two bytes of the reader. Which bytes come depends on the reader's
/// state, so nothing is promised of the result.
#[verifier::external_body]
fn read_exact_two<R: std::io::Read>(src: &mut R) -> (r: Result<[u8; 2], std::io::Error>) {
    let mut buf = [0u8; 2];
    match src.read_exact(&mut buf) {
        Ok(()) => Ok(buf),
        Err(e) => Err(e),
    }
}

/// Reads one big-endian elevation sample from a reader. The value depends on
/// the reader's state; an I/O failure is returned verbatim.
pub fn read_sample<R: std::io::Read>(src: &mut R) -> (r: Result<Elev, NasademError>) {
    match read_exact_two(src) {
        Ok(buf) => Ok(decode_sample(buf[0], buf[1])),
        Err(e) => Err(NasademError::Io(e)),
    }
}

/// True of an ASCII decimal digit.
pub open spec fn is_digit(c: char) -> bool {
    48 <= c as u32 <= 57
}

/// The value of an ASCII decimal digit.
pub open spec fn digit(c: char) -> int {
    c as u32 - 48
}

/// True when `s` is a well-formed tile base name: `[NS]dd[EW]ddd`, letters in
/// either case, exactly seven characters.
pub open spec fn valid_tile_name(s: Seq<char>) -> bool {
    &&& s.len() == 7
    &&& (s[0] == 'N' || s[0] == 'n' || s[0] == 'S' || s[0] == 's')
    &&& is_digit(s[1])
    &&& is_digit(s[2])
    &&& (s[3] == 'E' || s[3] == 'e' || s[3] == 'W' || s[3] == 'w')
    &&& is_digit(s[4])
    &&& is_digit(s[5])
    &&& is_digit(s[6])
}

/// The latitude, in whole degrees, that a well-formed tile name encodes.
pub open spec fn spec_lat_deg(s: Seq<char>) -> int {
    let mag = 10 * digit(s[1]) + digit(s[2]);
    if s[0] == 'N' || s[0] == 'n' {
        mag
    } else {
        -mag
    }
}

/// The longitude, in whole degrees, that a well-formed tile name encodes.
pub open spec fn spec_lon_deg(s: Seq<char>) -> int {
    let mag = 100 * digit(s[4]) + 10 * digit(s[5]) + digit(s[6]);
    if s[3] == 'E' || s[3] == 'e' {
        mag
    } else {
        -mag
    }
}

/// A well-formed name encodes at most two latitude digits and three
/// longitude digits, so the corner it denotes is bounded.
pub proof fn lemma_name_bounds(s: Seq<char>)
    requires
        valid_tile_name(s),
    ensures
        -99 <= spec_lat_deg(s) <= 99,
        -999 <= spec_lon_deg(s) <= 999,
{
}

/// True of a digit character, as [`is_digit`] says.
fn check_digit(c: char) -> (b: bool)
    ensures
        b == is_digit(c),
{
    let v = c as u32;
    48 <= v && v <= 57
}

/// The value of a digit character.
fn digit_val(c: char) -> (d: u32)
    requires
        is_digit(c),
    ensures
        d == digit(c),
{
    c as u32 - 48
}

/// Parses a tile base name such as `N44W072` into the geographic coordinate
/// of the southwest-most sample's center. Succeeds exactly on well-formed
/// names; any other name is a naming error carrying the name itself.
pub fn parse_sw_corner(name: &str) -> (r: Result<Coord, NasademError>)
    ensures
        match r {
            Ok(c) => {
                &&& valid_tile_name(name@)
                &&& c.x == spec_lon_deg(name@) * MAS_PER_DEG
                &&& c.y == spec_lat_deg(name@) * MAS_PER_DEG
            },
            Err(e) => {
                &&& !valid_tile_name(name@)
                &&& e matches NasademError::HgtName(n) && n@ == name@
            },
        },
{
    if name.unicode_len() != 7 {
        return Err(NasademError::HgtName(name.to_string()));
    }
    let c0 = name.get_char(0);
    let lat_south = c0 == 'S' || c0 == 's';
    if !(c0 == 'N' || c0 == 'n' || lat_south) {
        return Err(NasademError::HgtName(name.to_string()));
    }
    let c1 = name.get_char(1);
    let c2 = name.get_char(2);
    if !(check_digit(c1) && check_digit(c2)) {
        return Err(NasademError::HgtName(name.to_string()));
    }
    let c3 = name.get_char(3);
    let lon_west = c3 == 'W' || c3 == 'w';
    if !(c3 == 'E' || c3 == 'e' || lon_west) {
        return Err(NasademError::HgtName(name.to_string()));
    }
    let c4 = name.get_char(4);
    let c5 = name.get_char(5);
    let c6 = name.get_char(6);
    if !(check_digit(c4) && check_digit(c5) && check_digit(c6)) {
        return Err(NasademError::HgtName(name.to_string()));
    }
    let lat_mag: i64 = (10 * digit_val(c1) + digit_val(c2)) as i64;
    let lon_mag: i64 = (100 * digit_val(c4) + 10 * digit_val(c5) + digit_val(c6)) as i64;
    let lat_deg: i64 = if lat_south {
        -lat_mag
    } else {
        lat_mag
    };
    let lon_deg: i64 = if lon_west {
        -lon_mag
    } else {
        lon_mag
    };
    Ok(Coord { x: lon_deg * MAS_PER_DEG, y: lat_deg * MAS_PER_DEG })
}

/// Determines resolution and dimensions from a file's length in bytes:
/// the 1-arcsecond length gives `(1, (3601, 3601))`, the 3-arcsecond length
/// gives `(3, (1201, 1201))`, and any other length is a format error
/// carrying the observed length and the file's name.
pub fn extract_resolution(path: &str, len: u64) -> (r: Result<
    (u8, (usize, usize)),
    NasademError,
>)
    ensures
        match r {
            Ok(rd) => {
                ||| len == RES_1_FILE_LEN && rd == (1u8, (3601usize, 3601usize))
                ||| len == RES_3_FILE_LEN && rd == (3u8, (1201usize, 1201usize))
            },
            Err(e) => {
                &&& len != RES_1_FILE_LEN
                &&& len != RES_3_FILE_LEN
                &&& e matches NasademError::HgtLen(l, p) && l == len && p@ == path@
            },
        },
{
    if len == RES_1_FILE_LEN {
        Ok((1, (3601, 3601)))
    } else if len == RES_3_FILE_LEN {
        Ok((3, (1201, 1201)))
    } else {
        Err(NasademError::HgtLen(len, path.to_string()))
    }
}

/// Rounds the quotient `a / b` to the nearest integer, halves away from
/// zero.
pub open spec fn round_div(a: int, b: int) -> int
    recommends
        b > 0,
{
    if a >= 0 {
        (a + b / 2) / b
    } else {
        -((-a + b / 2) / b)
    }
}

/// Computes [`round_div`] on machine integers.
pub(crate) fn round_div_i128(a: i128, b: i128) -> (r: i128)
    requires
        0 < b <= 1_000_000,
        -0x100000000000000000000 <= a <= 0x100000000000000000000,
    ensures
        r == round_div(a as int, b as int),
{
    if a >= 0 {
        let q = ((a as u128) + (b as u128) / 2) / (b as u128);
        q as i128
    } else {
        let q = (((-a) as u128) + (b as u128) / 2) / (b as u128);
        -(q as i128)
    }
}

/// The square ring of side `res` arcseconds around `center`.
pub(crate) fn polygon(center: &Coord, res: u8) -> (p: Polygon)
    requires
        res == 1 || res == 3,
        -(MAX_CORNER_MAS + 2 * MAS_PER_DEG) <= center.x <= MAX_CORNER_MAS + 2 * MAS_PER_DEG,
        -(MAX_CORNER_MAS + 2 * MAS_PER_DEG) <= center.y <= MAX_CORNER_MAS + 2 * MAS_PER_DEG,
    ensures
        p.exterior@ == spec_square_around(*center, res),
{
    let delta = res as i64 * HALF_ARCSEC_MAS;
    Polygon::ring(center.x - delta, center.y - delta, center.x + delta, center.y + delta)
}

} // verus!
