use crate::Elev;
use vstd::prelude::*;

verus! {

/// Clamps a position onto `[0, hi]`.
pub open spec fn spec_clamp(v: int, hi: int) -> int {
    if v < 0 {
        0
    } else if v > hi {
        hi
    } else {
        v
    }
}

/// The elevation of the cell at `(x, y)` in a row-major grid of width `w`.
pub open spec fn grid_at(g: Seq<Elev>, w: int, x: int, y: int) -> int {
    g[y * w + x] as int
}

/// The west-to-east elevation difference at a cell, edges replicated: the
/// east neighbor's elevation minus the west neighbor's.
pub open spec fn spec_dzdx(g: Seq<Elev>, w: int, h: int, x: int, y: int) -> int {
    grid_at(g, w, spec_clamp(x + 1, w - 1), y) - grid_at(g, w, spec_clamp(x - 1, w - 1), y)
}

/// The north-to-south elevation difference at a cell, edges replicated: the
/// south neighbor's elevation minus the north neighbor's.
pub open spec fn spec_dzdy(g: Seq<Elev>, w: int, h: int, x: int, y: int) -> int {
    grid_at(g, w, x, spec_clamp(y + 1, h - 1)) - grid_at(g, w, x, spec_clamp(y - 1, h - 1))
}

/// The per-cell elevation differences that hillshading derives slope and
/// aspect from: for every cell of a row-major grid, the pair
/// `(dzdx, dzdy)` of east-minus-west and south-minus-north differences,
/// with edge replication at the borders. What remains of the lighting
/// model — `slope = atan(dzdx^2 + dzdy^2)`, `aspect = atan2(-dzdy, -dzdx)`
/// and the Lambertian reflectance — is transcendental arithmetic on these
/// two integers and the sun position.
pub fn grid_gradients(elevs: &Vec<Elev>, width: usize, height: usize) -> (r: Vec<(i32, i32)>)
    requires
        1 <= width,
        1 <= height,
        elevs@.len() == width * height,
    ensures
        r@.len() == elevs@.len(),
        forall|x: int, y: int|
            0 <= x < width && 0 <= y < height ==> r@[y * width + x] == ((
            spec_dzdx(elevs@, width as int, height as int, x, y) as i32,
            spec_dzdy(elevs@, width as int, height as int, x, y) as i32,
            )),
{
    let ghost g = elevs@;
    let ghost w = width as int;
    let ghost h = height as int;
    let n = elevs.len();
    let mut out: Vec<(i32, i32)> = Vec::with_capacity(n);
    let mut y: usize = 0;
    let mut base: usize = 0;
    while y < height
        invariant
            y <= height,
            1 <= width,
            1 <= height,
            g == elevs@,
            w == width as int,
            h == height as int,
            n == g.len(),
            g.len() == width * height,
            base == y * width,
            out@.len() == base,
            forall|xx: int, yy: int|
                0 <= xx < width && 0 <= yy < y ==> out@[yy * width + xx] == ((
                spec_dzdx(g, w, h, xx, yy) as i32,
                spec_dzdy(g, w, h, xx, yy) as i32,
                )),
        decreases height - y,
    {
        proof {
            assert((y + 1) * width == y * width + width) by (nonlinear_arith);
            assert((y + 1) * width <= height * width) by (nonlinear_arith)
                requires
                    y as int + 1 <= height as int,
                    0 <= width as int,
            ;
            assert(height * width == width * height) by (nonlinear_arith);
            if y >= 1 {
                assert(width <= y * width) by (nonlinear_arith)
                    requires
                        1 <= y as int,
                        0 <= width as int,
                ;
            }
            if y as int + 2 <= h {
                assert((y + 2) * width <= height * width) by (nonlinear_arith)
                    requires
                        y as int + 2 <= height as int,
                        0 <= width as int,
                ;
                assert((y + 2) * width == y * width + width + width) by (nonlinear_arith);
            }
        }
        let north_base = if y == 0 {
            base
        } else {
            base - width
        };
        let south_base = if y + 1 == height {
            base
        } else {
            base + width
        };
        proof {
            assert(north_base == spec_clamp(y as int - 1, h - 1) * width) by (nonlinear_arith)
                requires
                    north_base == (if y as int == 0 {
                        y as int * width as int
                    } else {
                        y as int * width as int - width as int
                    }),
                    0 <= y as int,
                    (y as int) < h,
                    1 <= h,
                    w == width as int,
                    spec_clamp(y as int - 1, h - 1) == (if y as int == 0 {
                        0
                    } else {
                        y as int - 1
                    }),
            ;
            assert(south_base == spec_clamp(y as int + 1, h - 1) * width) by (nonlinear_arith)
                requires
                    south_base == (if y as int + 1 == h {
                        y as int * width as int
                    } else {
                        y as int * width as int + width as int
                    }),
                    0 <= y as int,
                    (y as int) < h,
                    w == width as int,
                    spec_clamp(y as int + 1, h - 1) == (if y as int + 1 == h {
                        y as int
                    } else {
                        y as int + 1
                    }),
            ;
        }
        let mut x: usize = 0;
        while x < width
            invariant
                x <= width,
                y < height,
                1 <= width,
                1 <= height,
                g == elevs@,
                w == width as int,
                h == height as int,
                n == g.len(),
                g.len() == width * height,
                base == y * width,
                base + width <= g.len(),
                north_base == spec_clamp(y as int - 1, h - 1) * width,
                south_base == spec_clamp(y as int + 1, h - 1) * width,
                north_base + width <= g.len(),
                south_base + width <= g.len(),
                out@.len() == base + x,
                forall|xx: int, yy: int|
                    0 <= xx < width && 0 <= yy < y ==> out@[yy * width + xx] == ((
                    spec_dzdx(g, w, h, xx, yy) as i32,
                    spec_dzdy(g, w, h, xx, yy) as i32,
                    )),
                forall|xx: int|
                    0 <= xx < x ==> out@[y * width + xx] == ((
                    spec_dzdx(g, w, h, xx, y as int) as i32,
                    spec_dzdy(g, w, h, xx, y as int) as i32,
                    )),
            decreases width - x,
        {
            let west = if x == 0 {
                0
            } else {
                x - 1
            };
            let east = if x + 1 == width {
                x
            } else {
                x + 1
            };
            let dzdx = elevs[base + east] as i32 - elevs[base + west] as i32;
            let dzdy = elevs[south_base + x] as i32 - elevs[north_base + x] as i32;
            proof {
                assert(east == spec_clamp(x as int + 1, w - 1));
                assert(west == spec_clamp(x as int - 1, w - 1));
                assert(dzdx == spec_dzdx(g, w, h, x as int, y as int));
                assert(dzdy == spec_dzdy(g, w, h, x as int, y as int));
            }
            out.push((dzdx, dzdy));
            proof {
                assert forall|xx: int, yy: int|
                    0 <= xx < width && 0 <= yy < y implies out@[yy * width + xx] == ((
                    spec_dzdx(g, w, h, xx, yy) as i32,
                    spec_dzdy(g, w, h, xx, yy) as i32,
                    )) by {
                    assert(yy * width + xx < y * width) by (nonlinear_arith)
                        requires
                            0 <= xx,
                            xx < width as int,
                            0 <= yy,
                            yy + 1 <= y as int,
                    ;
                }
            }
            x += 1;
        }
        y += 1;
        base += width;
        proof {
            assert(y * width == (y - 1) * width + width) by (nonlinear_arith);
        }
    }
    proof {
        assert(height * width == width * height) by (nonlinear_arith);
    }
    out
}

/// On a perfectly flat grid (every elevation equal) both local differences
/// vanish at every cell, so the derived slope is zero everywhere and the
/// reflectance reduces to a constant across the grid.
pub proof fn lemma_flat_grid_zero_gradients(g: Seq<Elev>, w: int, h: int, x: int, y: int)
    requires
        1 <= w,
        1 <= h,
        g.len() == w * h,
        forall|i: int| 0 <= i < g.len() ==> #[trigger] g[i] == g[0],
        0 <= x < w,
        0 <= y < h,
    ensures
        spec_dzdx(g, w, h, x, y) == 0,
        spec_dzdy(g, w, h, x, y) == 0,
{
    let xe = spec_clamp(x + 1, w - 1);
    let xw = spec_clamp(x - 1, w - 1);
    let ys = spec_clamp(y + 1, h - 1);
    let yn = spec_clamp(y - 1, h - 1);
    assert(0 <= y * w + xe < w * h && 0 <= y * w + xw < w * h) by (nonlinear_arith)
        requires
            0 <= xe,
            xe < w,
            0 <= xw,
            xw < w,
            0 <= y,
            y < h,
    ;
    assert(0 <= ys * w + x < w * h && 0 <= yn * w + x < w * h) by (nonlinear_arith)
        requires
            0 <= ys,
            ys < h,
            0 <= yn,
            yn < h,
            0 <= x,
            x < w,
    ;
}

} // verus!
