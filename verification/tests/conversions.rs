use nasadem::{Coord, Tile, MAS_PER_DEG};

/// A tile equivalent in placement to one decoded from `N44W072.hgt`.
fn n44w072(resolution: u8) -> Tile {
    Tile::tombstone(Coord::from_degrees(-72, 44), resolution)
}

fn degrees(lon: i64, lat: i64) -> Coord {
    Coord { x: lon * MAS_PER_DEG, y: lat * MAS_PER_DEG }
}

#[test]
fn one_arcsecond_test_tile_index_conversions() {
    let tile = n44w072(1);

    assert_eq!((0, 0), tile.linear_to_xy(0));
    assert_eq!((0, 0), tile.geo_to_xy(degrees(-72, 45)));
    assert_eq!((3600, 0), tile.geo_to_xy(degrees(-71, 45)));
    assert_eq!((3600, 0), tile.linear_to_xy(3600));
    assert_eq!((0, 1), tile.linear_to_xy(3601));
    assert_eq!((0, 3600), tile.geo_to_xy(degrees(-72, 44)));
    assert_eq!((3600, 3600), tile.geo_to_xy(degrees(-71, 44)));

    assert_eq!(degrees(-71, 45), tile.xy_to_geo((3600, 0)));
    assert_eq!(degrees(-72, 45), tile.xy_to_geo((0, 0)));
    assert_eq!(degrees(-72, 44), tile.xy_to_geo((0, 3600)));
    assert_eq!(degrees(-72, 45), tile.xy_to_geo(tile.linear_to_xy(0)));

    for row in 0..3601 {
        for col in 0..3601 {
            let linear = tile.xy_to_linear((col, row));
            let roundtrip_xy = tile.linear_to_xy(linear);
            assert_eq!((col, row), roundtrip_xy);
            let geo = tile.xy_to_geo((col, row));
            let roundtrip_xy = tile.geo_to_xy(geo);
            let xy = (col as i64, row as i64);
            assert_eq!(xy, roundtrip_xy);
        }
    }
}

#[test]
fn three_arcsecond_test_tile_index_conversions() {
    let tile = n44w072(3);

    assert_eq!((0, 0), tile.linear_to_xy(0));
    assert_eq!((0, 0), tile.geo_to_xy(degrees(-72, 45)));
    assert_eq!((1200, 0), tile.geo_to_xy(degrees(-71, 45)));
    assert_eq!((1200, 0), tile.linear_to_xy(1200));
    assert_eq!((0, 1), tile.linear_to_xy(1201));
    assert_eq!((0, 1200), tile.geo_to_xy(degrees(-72, 44)));
    assert_eq!((1200, 1200), tile.geo_to_xy(degrees(-71, 44)));

    assert_eq!(degrees(-71, 45), tile.xy_to_geo((1200, 0)));
    assert_eq!(degrees(-72, 45), tile.xy_to_geo((0, 0)));
    assert_eq!(degrees(-72, 44), tile.xy_to_geo((0, 1200)));
    assert_eq!(degrees(-72, 45), tile.xy_to_geo(tile.linear_to_xy(0)));

    for row in 0..1201 {
        for col in 0..1201 {
            let linear = tile.xy_to_linear((col, row));
            let roundtrip_xy = tile.linear_to_xy(linear);
            assert_eq!((col, row), roundtrip_xy);
            let geo = tile.xy_to_geo((col, row));
            let roundtrip_xy = tile.geo_to_xy(geo);
            let xy = (col as i64, row as i64);
            assert_eq!(xy, roundtrip_xy);
        }
    }
}

/// The worked example: a 1-arcsecond tile named `N44W072.hgt` has its
/// southwest sample center at (-72, 44); raster (0, 0) is (-72.0, 45.0) and
/// raster (3600, 3600) is (-71.0, 44.0).
#[test]
fn one_arcsecond_named_tile_example() {
    let name = "N44W072.hgt";
    let sw = nasadem::parse_sw_corner(&name[..7]).unwrap();
    assert_eq!(sw, degrees(-72, 44));
    let tile = Tile::tombstone(sw, 1);
    assert_eq!(tile.xy_to_geo((0, 0)), degrees(-72, 45));
    assert_eq!(tile.xy_to_geo((3600, 3600)), degrees(-71, 44));
}

/// A geographic query lands on the sample whose center is nearest. The
/// tile's highest sample sits in the cell nearest the summit of Mount
/// Washington, so the geographic lookup of the summit finds the maximum.
#[test]
fn test_tile_geo_index() {
    let mut bytes = vec![0u8; 3601 * 3601 * 2];
    // (-71.30325, 44.2705) resolves to column 2508, row 2626.
    let idx = (2626 * 3601 + 2508) * 2;
    bytes[idx] = 0x0e;
    bytes[idx + 1] = 0xbc; // 3772 m
    let tile = Tile::from_bytes("N44W072", bytes).unwrap();
    let mt_washington = Coord { x: -256_691_700, y: 159_373_800 };
    assert_eq!(tile.get_geo_unchecked(mt_washington), tile.max_elevation());
    assert_eq!(tile.max_elevation(), 3772);
}

/// Sub-sample geographic offsets round to the nearest sample center.
#[test]
fn geo_to_xy_rounds_to_nearest() {
    let tile = n44w072(1);
    // One sample is 1000 milliarcseconds here. 499 east of the corner
    // center rounds back to column 0; 500 rounds away to column 1.
    let sw = Coord::from_degrees(-72, 44);
    let nw_lat = 45 * MAS_PER_DEG;
    assert_eq!((0, 0), tile.geo_to_xy(Coord { x: sw.x + 499, y: nw_lat }));
    assert_eq!((1, 0), tile.geo_to_xy(Coord { x: sw.x + 500, y: nw_lat }));
    assert_eq!((0, 0), tile.geo_to_xy(Coord { x: sw.x - 499, y: nw_lat }));
    assert_eq!((-1, 0), tile.geo_to_xy(Coord { x: sw.x - 500, y: nw_lat }));
    assert_eq!((0, 1), tile.geo_to_xy(Coord { x: sw.x, y: nw_lat - 500 }));
}

/// A sample's accessors agree with the tile's conversions.
#[test]
fn sample_accessors_agree() {
    let tile = n44w072(3);
    let sample = tile.sample_at(1201 * 7 + 13);
    assert_eq!(sample.index(), 1201 * 7 + 13);
    assert_eq!(sample.xy(), (13, 7));
    assert_eq!(sample.geo(), tile.xy_to_geo((13, 7)));
    assert_eq!(sample.elevation(), 0);
}
