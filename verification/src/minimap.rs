//! The minimap raster: an RGBA image of up to 160 by 160 pixels, laid out
//! row-major with four bytes per pixel so the page can hand it straight to
//! `putImageData`.
use vstd::prelude::*;

verus! {

/// Widest minimap the raster has room for.
pub const MINIMAP_MAX_SIDE: usize = 160;
/// Bytes in the raster: four per pixel at the widest side.
pub const MINIMAP_BYTES: usize = 102400;

/// Side actually drawn for a requested `side`: at least one pixel, at most
/// the raster's width.
pub open spec fn side_spec(side: int) -> int {
    if side < 1 {
        1
    } else if side > MINIMAP_MAX_SIDE {
        MINIMAP_MAX_SIDE as int
    } else {
        side
    }
}

/// Clamps a requested side into `1..=160`.
pub fn minimap_side(side: usize) -> (n: usize)
    ensures
        n == side_spec(side as int),
        1 <= n <= MINIMAP_MAX_SIDE,
{
    if side < 1 {
        1
    } else if side > MINIMAP_MAX_SIDE {
        MINIMAP_MAX_SIDE
    } else {
        side
    }
}

/// Byte `m` of a raster whose first `pixels` pixels were shaded from
/// `shades`: the three colour bytes of the pixel's shade, then full alpha.
pub open spec fn shaded_byte(shades: Seq<[u8; 3]>, m: int) -> u8 {
    if m % 4 == 3 {
        255
    } else {
        shades[m / 4][m % 4]
    }
}

/// The raster.
pub struct Minimap {
    pub pixels: Vec<u8>,
}

impl Minimap {
    /// The raster is exactly as large as the widest image.
    pub open spec fn wf(&self) -> bool {
        self.pixels@.len() == MINIMAP_BYTES
    }

    /// A blank raster: every byte zero.
    pub fn new() -> (m: Minimap)
        ensures
            m.wf(),
            m.pixels@ == Seq::new(MINIMAP_BYTES as nat, |k: int| 0u8),
    {
        let mut pixels: Vec<u8> = Vec::new();
        let mut k: usize = 0;
        while k < MINIMAP_BYTES
            invariant
                k <= MINIMAP_BYTES,
                pixels@.len() == k,
                forall|m: int| 0 <= m < k ==> pixels@[m] == 0u8,
            decreases MINIMAP_BYTES - k,
        {
            pixels.push(0);
            k = k + 1;
        }
        assert(pixels@ =~= Seq::new(MINIMAP_BYTES as nat, |m: int| 0u8));
        Minimap { pixels }
    }

    /// Paints an `n` by `n` image, row-major, one shade per pixel, every
    /// pixel fully opaque. Bytes past the image are left as they were.
    pub fn paint(&mut self, n: usize, shades: &Vec<[u8; 3]>)
        requires
            old(self).wf(),
            1 <= n <= MINIMAP_MAX_SIDE,
            shades@.len() == n * n,
        ensures
            final(self).wf(),
            forall|m: int|
                0 <= m < MINIMAP_BYTES ==> final(self).pixels@[m] == (if m < 4 * n * n {
                    shaded_byte(shades@, m)
                } else {
                    old(self).pixels@[m]
                }),
    {
        proof {
            assert(n * n <= 25600) by (nonlinear_arith)
                requires
                    1 <= n <= 160,
            ;
        }
        let total = n * n;
        let mut p: usize = 0;
        while p < total
            invariant
                self.wf(),
                total == n * n,
                total <= 25600,
                shades@.len() == total,
                p <= total,
                forall|m: int|
                    0 <= m < MINIMAP_BYTES ==> self.pixels@[m] == (if m < 4 * p {
                        shaded_byte(shades@, m)
                    } else {
                        old(self).pixels@[m]
                    }),
            decreases total - p,
        {
            let base = p * 4;
            let shade = shades[p];
            self.pixels.set(base, shade[0]);
            self.pixels.set(base + 1, shade[1]);
            self.pixels.set(base + 2, shade[2]);
            self.pixels.set(base + 3, 255);
            p = p + 1;
        }
        assert(4 * n * n == 4 * p) by (nonlinear_arith)
            requires
                p == n * n,
        ;
    }
}

/// Every pixel of a painted image is opaque, whatever the shades were.
pub proof fn lemma_painted_opaque(shades: Seq<[u8; 3]>, row: int, col: int, n: int)
    requires
        0 <= row < n,
        0 <= col < n,
    ensures
        shaded_byte(shades, 4 * (row * n + col) + 3) == 255,
        0 <= 4 * (row * n + col) + 3 < 4 * n * n,
{
    assert(0 <= row * n + col < n * n && 4 * (row * n + col) + 3 < 4 * n * n) by (nonlinear_arith)
        requires
            0 <= row < n,
            0 <= col < n,
    ;
    assert((4 * (row * n + col) + 3) % 4 == 3);
}

} // verus!
