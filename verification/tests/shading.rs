use nasadem::{elevation_to_pixel, grid_gradients, Coord, Tile};

/// On a perfectly flat grid both local differences vanish at every cell, so
/// the derived slope is zero everywhere and shading is constant.
#[test]
fn flat_grid_has_zero_gradients() {
    let elevs = vec![7i16; 5 * 4];
    let grads = grid_gradients(&elevs, 5, 4);
    assert_eq!(grads.len(), 20);
    assert!(grads.iter().all(|&g| g == (0, 0)));
}

/// Gradients on a small known grid, including edge replication.
#[test]
fn gradients_on_a_ramp() {
    // A 3x3 west-to-east ramp: every row is [0, 10, 20].
    let elevs = vec![0i16, 10, 20, 0, 10, 20, 0, 10, 20];
    let grads = grid_gradients(&elevs, 3, 3);
    // Interior column: east minus west neighbor = 20 - 0.
    assert_eq!(grads[3 * 1 + 1], (20, 0));
    // West edge: the west neighbor is replicated, so 10 - 0.
    assert_eq!(grads[3 * 1 + 0], (10, 0));
    // East edge: the east neighbor is replicated, so 20 - 10.
    assert_eq!(grads[3 * 1 + 2], (10, 0));
    // No north-south variation anywhere.
    assert!(grads.iter().all(|&(_, dzdy)| dzdy == 0));

    // A north-to-south ramp: rows 0, 100, 250.
    let elevs = vec![0i16, 0, 0, 100, 100, 100, 250, 250, 250];
    let grads = grid_gradients(&elevs, 3, 3);
    // Interior row: south minus north neighbor = 250 - 0.
    assert_eq!(grads[3 * 1 + 1], (0, 250));
    // North edge: 100 - 0; south edge: 250 - 100.
    assert_eq!(grads[3 * 0 + 1], (0, 100));
    assert_eq!(grads[3 * 2 + 1], (0, 150));
}

/// A single cell is its own four neighbors: no differences at all.
#[test]
fn gradients_of_single_cell() {
    let grads = grid_gradients(&vec![-42i16], 1, 1);
    assert_eq!(grads, vec![(0, 0)]);
}

/// The linear elevation stretch: endpoints, rounding, and the degenerate
/// range.
#[test]
fn elevation_stretch_formula() {
    // (5 - 0) / (10 - 0) * 255 = 127.5, which rounds half away to 128.
    assert_eq!(elevation_to_pixel(5, 0, 10, 255), 128);
    assert_eq!(elevation_to_pixel(0, 0, 10, 255), 0);
    assert_eq!(elevation_to_pixel(10, 0, 10, 255), 255);
    // (2 - 0) / (10 - 0) * 255 = 51 exactly.
    assert_eq!(elevation_to_pixel(2, 0, 10, 255), 51);
    // 16-bit depth: (1 - 0) / (3 - 0) * 65535 = 21845.
    assert_eq!(elevation_to_pixel(1, 0, 3, 65535), 21845);
    // Negative elevations stretch the same way.
    assert_eq!(elevation_to_pixel(-5, -10, 10, 255), 64);
    // A degenerate range maps to zero.
    assert_eq!(elevation_to_pixel(3, 3, 3, 255), 0);
}

/// Rendering raw elevation: a tombstone has a degenerate range, so every
/// pixel is zero; a synthetic tile stretches across its own extremes.
#[test]
fn to_pixels_stretches_observed_range() {
    let tile = Tile::tombstone(Coord::from_degrees(-72, 44), 3);
    let pixels = tile.to_pixels(65535);
    assert_eq!(pixels.len(), 1201 * 1201);
    assert!(pixels.iter().all(|&p| p == 0));

    // A tile whose first sample is 100 and second is 300, the rest 200.
    let mut bytes = vec![0u8; 1201 * 1201 * 2];
    for i in 0..1201 * 1201 {
        let v: i16 = if i == 0 { 100 } else if i == 1 { 300 } else { 200 };
        let be = v.to_be_bytes();
        bytes[2 * i] = be[0];
        bytes[2 * i + 1] = be[1];
    }
    let tile = Tile::from_bytes("N44W072", bytes).unwrap();
    assert_eq!(tile.min_elevation(), 100);
    assert_eq!(tile.max_elevation(), 300);
    let pixels = tile.to_pixels(255);
    assert_eq!(pixels[0], 0);
    assert_eq!(pixels[1], 255);
    // (200 - 100) / (300 - 100) * 255 = 127.5, rounded half away to 128.
    assert_eq!(pixels[2], 128);
    assert_eq!(pixels[1201 * 1201 - 1], 128);
}
