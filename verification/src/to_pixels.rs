use crate::store::seq_max;
use crate::store::seq_min;
use crate::tile::lemma_round_div_close;
use crate::util::round_div;
use crate::util::round_div_i128;
use crate::Elev;
use crate::Tile;
use vstd::arithmetic::div_mod::lemma_fundamental_div_mod;
use vstd::arithmetic::div_mod::lemma_mod_division_less_than_divisor;
use vstd::prelude::*;

verus! {

/// The linear stretch of an elevation across the observed range
/// `[min, max]` onto `[0, depth_max]`, rounded to the nearest integer with
/// halves away from zero. A degenerate range (`max <= min`) maps everything
/// to zero.
pub open spec fn spec_stretch(e: int, min: int, max: int, depth_max: int) -> int {
    if max <= min {
        0
    } else {
        round_div((e - min) * depth_max, max - min)
    }
}

/// Stretches one elevation across `[min, max]` onto `[0, depth_max]`.
pub fn elevation_to_pixel(e: Elev, min: Elev, max: Elev, depth_max: u16) -> (r: u16)
    requires
        min <= e,
        e <= max,
    ensures
        r == spec_stretch(e as int, min as int, max as int, depth_max as int),
        r <= depth_max,
{
    if max <= min {
        return 0;
    }
    let span: i128 = max as i128 - min as i128;
    proof {
        assert(0 <= (e as int - min as int) * (depth_max as int)
            && (e as int - min as int) * (depth_max as int) <= 65536 * 65536) by (nonlinear_arith)
            requires
                0 <= e as int - min as int,
                e as int - min as int <= 65536,
                0 <= depth_max as int,
                depth_max as int <= 65536,
        ;
    }
    let num: i128 = (e as i128 - min as i128) * (depth_max as i128);
    let q = round_div_i128(num, span);
    proof {
        lemma_round_div_close(num as int, span as int);
        lemma_fundamental_div_mod(span as int, 2);
        lemma_mod_division_less_than_divisor(span as int, 2);
        let qq = round_div(num as int, span as int);
        let k = (span as int) / 2;
        assert(num as int <= (span as int) * (depth_max as int)) by (nonlinear_arith)
            requires
                0 <= (e as int - min as int),
                (e as int - min as int) <= span as int,
                0 <= depth_max as int,
                num as int == (e as int - min as int) * (depth_max as int),
        ;
        assert(0 <= qq) by (nonlinear_arith)
            requires
                1 <= span as int,
                0 <= num as int,
                (span as int) * qq >= num as int - k,
                0 <= k,
                2 * k <= span as int,
        ;
        assert(qq <= depth_max as int) by (nonlinear_arith)
            requires
                1 <= span as int,
                num as int <= (span as int) * (depth_max as int),
                (span as int) * qq <= num as int + k,
                0 <= k,
                2 * k <= span as int,
        ;
    }
    q as u16
}

impl Tile {
    /// Renders raw elevation as a row-major pixel grid: each sample
    /// linearly stretched across the tile's own observed range onto
    /// `[0, depth_max]` (255 or 65535 for bit depth 8 or 16). This is the
    /// direct elevation rendering mode, distinct from hillshading.
    pub fn to_pixels(&self, depth_max: u16) -> (r: Vec<u16>)
        requires
            self.wf(),
        ensures
            r@.len() == self.spec_len(),
            forall|i: int|
                0 <= i < r@.len() ==> r@[i] == spec_stretch(
                    self.samples@[i] as int,
                    seq_min(self.samples@) as int,
                    seq_max(self.samples@) as int,
                    depth_max as int,
                ),
    {
        let min = self.min_elevation();
        let max = self.max_elevation();
        let n = self.len();
        let mut out: Vec<u16> = Vec::with_capacity(n);
        let mut i: usize = 0;
        while i < n
            invariant
                i <= n,
                self.wf(),
                n == self.spec_len(),
                min == seq_min(self.samples@),
                max == seq_max(self.samples@),
                forall|k: int|
                    0 <= k < self.samples@.len() ==> min <= #[trigger] self.samples@[k]
                        && self.samples@[k] <= max,
                out@.len() == i,
                forall|j: int|
                    0 <= j < i ==> out@[j] == spec_stretch(
                        self.samples@[j] as int,
                        min as int,
                        max as int,
                        depth_max as int,
                    ),
            decreases n - i,
        {
            let e = self.samples.get_linear_unchecked(i);
            out.push(elevation_to_pixel(e, min, max, depth_max));
            i += 1;
        }
        out
    }
}

} // verus!
