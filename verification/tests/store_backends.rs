use nasadem::{parse_sample, Coord, NasademError, Tile, TileIndex, MAS_PER_DEG};

const RES_1_LEN: usize = 3601 * 3601 * 2;
const RES_3_LEN: usize = 1201 * 1201 * 2;

/// A deterministic, non-uniform byte pattern.
fn pattern_bytes(len: usize) -> Vec<u8> {
    let mut out = Vec::with_capacity(len);
    let mut state: u32 = 0x1234_5678;
    for _ in 0..len {
        state = state.wrapping_mul(1_664_525).wrapping_add(1_013_904_223);
        out.push((state >> 24) as u8);
    }
    out
}

/// Decoding a 1-arcsecond-length file yields resolution 1 and dimensions
/// (3601, 3601); a 3-arcsecond-length file yields resolution 3 and
/// (1201, 1201).
#[test]
fn decode_derives_resolution_from_length() {
    let tile = Tile::from_bytes("N44W072", pattern_bytes(RES_1_LEN)).unwrap();
    assert_eq!(tile.resolution(), 1);
    assert_eq!(tile.dimensions(), (3601, 3601));
    assert_eq!(tile.len(), 3601 * 3601);

    let tile = Tile::from_bytes("N44W072", pattern_bytes(RES_3_LEN)).unwrap();
    assert_eq!(tile.resolution(), 3);
    assert_eq!(tile.dimensions(), (1201, 1201));
    assert_eq!(tile.len(), 1201 * 1201);
}

/// Every decoded sample is the big-endian pair at its offset.
#[test]
fn decode_matches_big_endian_pairs() {
    let bytes = pattern_bytes(RES_3_LEN);
    let tile = Tile::from_bytes("N44W072", bytes.clone()).unwrap();
    for idx in 0..1201 * 1201 {
        let expected = parse_sample(&bytes[2 * idx..2 * idx + 2]);
        assert_eq!(tile.get_unchecked(TileIndex::Linear(idx)), expected);
    }
    // Scans find the true extremes.
    let expected_min = (0..1201 * 1201)
        .map(|i| parse_sample(&bytes[2 * i..2 * i + 2]))
        .min()
        .unwrap();
    let expected_max = (0..1201 * 1201)
        .map(|i| parse_sample(&bytes[2 * i..2 * i + 2]))
        .max()
        .unwrap();
    assert_eq!(tile.min_elevation(), expected_min);
    assert_eq!(tile.max_elevation(), expected_max);
}

fn mmap_of(bytes: &[u8]) -> memmap2::Mmap {
    let mut m = memmap2::MmapMut::map_anon(bytes.len()).unwrap();
    m.copy_from_slice(bytes);
    m.make_read_only().unwrap()
}

/// Decoding into memory and memory-mapping the same bytes yield identical
/// elevation values for every raster coordinate.
#[test]
fn decoded_and_mapped_tiles_agree() {
    let bytes = pattern_bytes(RES_3_LEN);
    let parsed = Tile::from_bytes("N44W072", bytes.clone()).unwrap();
    let mapped = Tile::from_mmap("N44W072", mmap_of(&bytes)).unwrap();
    assert_eq!(parsed.dimensions(), mapped.dimensions());
    assert_eq!(parsed.resolution(), mapped.resolution());
    for row in 0..1201 {
        for col in 0..1201 {
            assert_eq!(parsed.get_xy_unchecked((col, row)), mapped.get_xy_unchecked((col, row)));
        }
    }
    assert_eq!(parsed.min_elevation(), mapped.min_elevation());
    assert_eq!(parsed.max_elevation(), mapped.max_elevation());
}

/// The memory-mapped backend decodes the mapping's actual bytes.
#[test]
fn mapped_tile_reads_its_bytes() {
    let mut bytes = vec![0u8; RES_3_LEN];
    // Sample 5 is 0x0ebc = 3772; sample 1201*3 + 2 is -2.
    bytes[10] = 0x0e;
    bytes[11] = 0xbc;
    let neg = 2 * (1201 * 3 + 2);
    bytes[neg] = 0xff;
    bytes[neg + 1] = 0xfe;
    let tile = Tile::from_mmap("N44W072", mmap_of(&bytes)).unwrap();
    assert_eq!(tile.get(TileIndex::Linear(5)), Some(3772));
    assert_eq!(tile.get(TileIndex::XY((2, 3))), Some(-2));
    assert_eq!(tile.get(TileIndex::Linear(6)), Some(0));
    assert_eq!(tile.min_elevation(), -2);
    assert_eq!(tile.max_elevation(), 3772);
}

/// The placement of a parsed tile comes from its name.
#[test]
fn parsed_tile_placement() {
    let bytes = pattern_bytes(RES_3_LEN);
    let tile = Tile::from_bytes("S03E117", bytes).unwrap();
    assert_eq!(tile.xy_to_geo((0, 1200)), Coord::from_degrees(117, -3));
    assert_eq!(tile.xy_to_geo((0, 0)), Coord { x: 117 * MAS_PER_DEG, y: -2 * MAS_PER_DEG });
}

/// A bad length is rejected before the name; a bad name with a good length
/// is a naming error.
#[test]
fn construction_errors() {
    match Tile::from_bytes("not-a-tile", vec![0u8; 100]) {
        Err(NasademError::HgtLen(len, path)) => {
            assert_eq!(len, 100);
            assert_eq!(path, "not-a-tile");
        }
        other => panic!("expected a length error, got {other:?}"),
    }
    match Tile::from_bytes("not-a-tile", vec![0u8; RES_3_LEN]) {
        Err(NasademError::HgtName(name)) => assert_eq!(name, "not-a-tile"),
        other => panic!("expected a naming error, got {other:?}"),
    }
    match Tile::from_mmap("N44W072", mmap_of(&[0u8; 64])) {
        Err(NasademError::HgtLen(len, path)) => {
            assert_eq!(len, 64);
            assert_eq!(path, "N44W072");
        }
        other => panic!("expected a length error, got {other:?}"),
    }
}
