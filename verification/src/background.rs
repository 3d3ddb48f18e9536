//! The starry background: a black RGBA image with randomly placed grey
//! stars, built pixel by pixel through the `image` crate, and the grid of
//! offsets the finished texture is tiled at around the origin.

use vstd::prelude::*;
use crate::rng::rand_in;
use crate::world::{WINDOW_WIDTH_MILLI, WINDOW_HEIGHT_MILLI};

verus! {

/// An RGBA image buffer of the `image` crate, opaque to verification;
/// what it holds is spoken of only through `buf_pixels`, `buf_width` and
/// `buf_height`.
#[verifier::external_body]
pub struct StarImage {
    inner: image::ImageBuffer<image::Rgba<u8>, Vec<u8>>,
}

/// The subpixels an RGBA image buffer holds, row-major, four bytes per
/// pixel in the order red, green, blue, alpha.
pub uninterp spec fn buf_pixels(img: StarImage) -> Seq<u8>;

/// The width an RGBA image buffer was created with.
pub uninterp spec fn buf_width(img: StarImage) -> u32;

/// The height an RGBA image buffer was created with.
pub uninterp spec fn buf_height(img: StarImage) -> u32;

/// Relies on `ImageBuffer::new`: a buffer of `4 * w * h` subpixels, all
/// zero.  It panics when that size overflows `usize`, which the
/// precondition rules out.
#[verifier::external_body]
fn buf_new(w: u32, h: u32) -> (r: StarImage)
    requires
        1 <= h,
        4 * w * h <= usize::MAX,
    ensures
        buf_width(r) == w,
        buf_height(r) == h,
        buf_pixels(r) == Seq::new((4 * w * h) as nat, |i: int| 0u8),
{
    StarImage { inner: image::ImageBuffer::new(w, h) }
}

/// Relies on `ImageBuffer::put_pixel`: writes the four subpixels of the
/// pixel at `(x, y)`, at row-major index `(y * width + x) * 4`, leaving
/// every other subpixel and the dimensions alone.  It panics out of
/// bounds, which the precondition rules out.
#[verifier::external_body]
fn buf_put_pixel(
    img: &mut StarImage,
    x: u32,
    y: u32,
    red: u8,
    green: u8,
    blue: u8,
    alpha: u8,
)
    requires
        x < buf_width(*old(img)),
        y < buf_height(*old(img)),
    ensures
        buf_width(*final(img)) == buf_width(*old(img)),
        buf_height(*final(img)) == buf_height(*old(img)),
        buf_pixels(*final(img)) == buf_pixels(*old(img)).update(
            4 * (y * buf_width(*old(img)) + x),
            red,
        ).update(4 * (y * buf_width(*old(img)) + x) + 1, green).update(
            4 * (y * buf_width(*old(img)) + x) + 2,
            blue,
        ).update(4 * (y * buf_width(*old(img)) + x) + 3, alpha),
{
    img.inner.put_pixel(x, y, image::Rgba([red, green, blue, alpha]))
}

/// Relies on `ImageBuffer::into_raw`: hands back the underlying
/// subpixel vector unchanged.
#[verifier::external_body]
fn buf_into_raw(img: StarImage) -> (r: Vec<u8>)
    ensures
        r@ == buf_pixels(img),
{
    img.inner.into_raw()
}

/// How many of the first `n` pixels of a star-field byte buffer are lit
/// (carry full alpha).
pub open spec fn count_lit(s: Seq<u8>, n: int) -> nat
    decreases n,
{
    if n <= 0 {
        0
    } else {
        count_lit(s, n - 1) + if s[4 * (n - 1) + 3] == 255 {
            1nat
        } else {
            0nat
        }
    }
}

/// A buffer with no full-alpha pixel among its first `n` has none lit.
proof fn lemma_count_lit_zero(s: Seq<u8>, n: int)
    requires
        forall|p: int| 0 <= p < n ==> #[trigger] s[4 * p + 3] != 255,
    ensures
        count_lit(s, n) == 0,
    decreases n,
{
    if n > 0 {
        lemma_count_lit_zero(s, n - 1);
    }
}

/// Changing one pixel lights at most one more pixel.
proof fn lemma_count_lit_step(s1: Seq<u8>, s2: Seq<u8>, q: int, n: int)
    requires
        forall|p: int| 0 <= p < n && p != q ==> #[trigger] s1[4 * p + 3] == s2[4 * p + 3],
    ensures
        count_lit(s1, n) <= count_lit(s2, n) + 1,
        !(0 <= q < n) ==> count_lit(s1, n) == count_lit(s2, n),
    decreases n,
{
    if n > 0 {
        lemma_count_lit_step(s1, s2, q, n - 1);
        if q == n - 1 {
            assert(!(0 <= q < n - 1));
        } else {
            assert(s1[4 * (n - 1) + 3] == s2[4 * (n - 1) + 3]);
        }
    }
}

/// Pixel `p` of a star-field byte buffer is either untouched black
/// (all four bytes zero) or a star: one grey level in all three color
/// channels, between 100 and 254, with full alpha.
pub open spec fn star_pixel_ok(s: Seq<u8>, p: int) -> bool {
    ||| (s[4 * p] == 0 && s[4 * p + 1] == 0 && s[4 * p + 2] == 0 && s[4 * p + 3] == 0)
    ||| (100 <= s[4 * p] < 255 && s[4 * p + 1] == s[4 * p] && s[4 * p + 2] == s[4 * p] && s[4 * p
        + 3] == 255)
}

/// Builds the starry background texture: a `width` by `height` RGBA
/// image, initially black and transparent, with `stars` random pixels
/// set to a random grey at full alpha.  Whatever the draws, every pixel
/// of the result is either untouched black or such a star.
pub fn star_field(width: u32, height: u32, stars: u32, rng: &mut rand::rngs::ThreadRng) -> (r: Vec<
    u8,
>)
    requires
        1 <= width <= 4096,
        1 <= height <= 4096,
        stars <= 1000000,
    ensures
        r@.len() == 4 * width * height,
        forall|p: int| 0 <= p < width * height ==> star_pixel_ok(r@, p),
        count_lit(r@, width * height as int) <= stars,
        stars >= 1 ==> exists|p: int|
            0 <= p < width * height && #[trigger] r@[4 * p + 3] == 255,
{
    proof {
        assert(4 * width * height <= 0x4000000) by (nonlinear_arith)
            requires
                1 <= width <= 4096,
                1 <= height <= 4096,
        {
        }
    }
    let mut img = buf_new(width, height);
    proof {
        assert forall|p: int| 0 <= p < width * height implies star_pixel_ok(
            buf_pixels(img),
            p,
        ) by {
            assert(0 <= 4 * p && 4 * p + 3 < 4 * width * height) by (nonlinear_arith)
                requires
                    0 <= p < width * height,
            {
            }
        }
        assert forall|p: int| 0 <= p < width * height implies #[trigger] buf_pixels(img)[4 * p + 3]
            != 255 by {
            assert(0 <= 4 * p && 4 * p + 3 < 4 * width * height) by (nonlinear_arith)
                requires
                    0 <= p < width * height,
            {
            }
        }
        lemma_count_lit_zero(buf_pixels(img), width * height as int);
    }
    let mut i: u32 = 0;
    while i < stars
        invariant
            1 <= width <= 4096,
            1 <= height <= 4096,
            buf_width(img) == width,
            buf_height(img) == height,
            buf_pixels(img).len() == 4 * width * height,
            forall|p: int| 0 <= p < width * height ==> star_pixel_ok(buf_pixels(img), p),
            i <= stars,
            count_lit(buf_pixels(img), width * height as int) <= i,
            i >= 1 ==> exists|p: int|
                0 <= p < width * height && #[trigger] buf_pixels(img)[4 * p + 3] == 255,
        decreases stars - i,
    {
        let c: u8 = rand_in(rng, 100, 255) as u8;
        let x: u32 = rand_in(rng, 0, width as i64) as u32;
        let y: u32 = rand_in(rng, 0, height as i64) as u32;
        let ghost before = buf_pixels(img);
        let ghost q = (y * width + x) as int;
        proof {
            assert(0 <= q && 4 * q + 3 < 4 * width * height) by (nonlinear_arith)
                requires
                    q == y * width + x,
                    0 <= x < width,
                    0 <= y < height,
            {
            }
        }
        buf_put_pixel(&mut img, x, y, c, c, c, 255);
        proof {
            let after = buf_pixels(img);
            assert forall|p: int| 0 <= p < width * height && p != q implies #[trigger] after[4 * p
                + 3] == before[4 * p + 3] by {
                assert(0 <= 4 * p && 4 * p + 3 < 4 * width * height && (4 * p + 3 < 4 * q || 4 * q
                    + 3 < 4 * p)) by (nonlinear_arith)
                    requires
                        p != q,
                        0 <= p < width * height,
                        0 <= q,
                {
                }
            }
            lemma_count_lit_step(after, before, q, width * height as int);
            assert(0 <= q < width * height) by (nonlinear_arith)
                requires
                    q == y * width + x,
                    0 <= x < width,
                    0 <= y < height,
            {
            }
            assert(after[4 * q + 3] == 255);
            assert forall|p: int| 0 <= p < width * height implies star_pixel_ok(after, p) by {
                if p == q {
                    assert(after[4 * p] == c);
                    assert(after[4 * p + 1] == c);
                    assert(after[4 * p + 2] == c);
                    assert(after[4 * p + 3] == 255);
                } else {
                    assert(star_pixel_ok(before, p));
                    assert(0 <= 4 * p && 4 * p + 3 < 4 * width * height && (4 * p + 3 < 4 * q
                        || 4 * q + 3 < 4 * p)) by (nonlinear_arith)
                        requires
                            p != q,
                            0 <= p < width * height,
                            0 <= q,
                    {
                    }
                    assert(after[4 * p] == before[4 * p]);
                    assert(after[4 * p + 1] == before[4 * p + 1]);
                    assert(after[4 * p + 2] == before[4 * p + 2]);
                    assert(after[4 * p + 3] == before[4 * p + 3]);
                }
            }
        }
        i += 1;
    }
    let ghost bp = buf_pixels(img);
    let r = buf_into_raw(img);
    proof {
        assert(r@ == bp);
        if stars >= 1 {
            let p0 = choose|p: int| 0 <= p < width * height && #[trigger] bp[4 * p + 3] == 255;
            assert(0 <= p0 < width * height && r@[4 * p0 + 3] == 255);
        }
    }
    r
}

/// The offset of background tile `k` of the sixteen-tile grid: the
/// window dimensions scaled by the odd factors -3, -1, 1 and 3, the
/// horizontal factor advancing every four tiles and the vertical one
/// cycling within them.
pub open spec fn tile_at(k: int) -> (i64, i64) {
    (((-3 + 2 * (k / 4)) * WINDOW_WIDTH_MILLI) as i64, ((-3 + 2 * (k % 4))
        * WINDOW_HEIGHT_MILLI) as i64)
}

/// The seventeen offsets the background texture is tiled at: a four by
/// four grid of double-window steps around the origin, and the origin
/// itself.
pub fn background_tiles() -> (r: Vec<(i64, i64)>)
    ensures
        r@.len() == 17,
        forall|k: int| 0 <= k < 16 ==> #[trigger] r@[k] == tile_at(k),
        r@[16] == (0i64, 0i64),
{
    let mut tiles: Vec<(i64, i64)> = Vec::new();
    let mut ix: u32 = 0;
    while ix < 4
        invariant
            ix <= 4,
            tiles@.len() == 4 * ix,
            forall|k: int| 0 <= k < 4 * ix ==> #[trigger] tiles@[k] == tile_at(k),
        decreases 4 - ix,
    {
        let fx: i64 = -3 + 2 * (ix as i64);
        let mut iy: u32 = 0;
        while iy < 4
            invariant
                ix < 4,
                iy <= 4,
                fx == -3 + 2 * ix,
                tiles@.len() == 4 * ix + iy,
                forall|k: int| 0 <= k < 4 * ix + iy ==> #[trigger] tiles@[k] == tile_at(k),
            decreases 4 - iy,
        {
            let fy: i64 = -3 + 2 * (iy as i64);
            tiles.push((fx * WINDOW_WIDTH_MILLI, fy * WINDOW_HEIGHT_MILLI));
            proof {
                let k = tiles@.len() - 1;
                assert(k == 4 * ix + iy);
                assert(k / 4 == ix && k % 4 == iy) by (nonlinear_arith)
                    requires
                        k == 4 * ix + iy,
                        0 <= iy < 4,
                        0 <= ix,
                {
                }
            }
            iy += 1;
        }
        ix += 1;
    }
    tiles.push((0, 0));
    tiles
}

} // verus!
