//! Colours as Windows packs them (`COLORREF`: red in the low byte, then
//! green, then blue), and the sampling of a cover image for its palette.
use vstd::prelude::*;

verus! {

/// `COLORREF` of a colour: `r | g << 8 | b << 16`.
pub open spec fn colorref_value(r: u8, g: u8, b: u8) -> u32 {
    (r as u32) | ((g as u32) << 8u32) | ((b as u32) << 16u32)
}

/// Red, green and blue of a `COLORREF`; its high byte is ignored.
pub open spec fn channels_of(c: u32) -> (u8, u8, u8) {
    ((c & 0xff) as u8, ((c >> 8u32) & 0xff) as u8, ((c >> 16u32) & 0xff) as u8)
}

/// Packs a colour for the Windows colour dialog.
pub fn colorref(r: u8, g: u8, b: u8) -> (c: u32)
    ensures
        c == colorref_value(r, g, b),
        c == r + 256 * g + 65536 * b,
{
    let c = (r as u32) | ((g as u32) << 8u32) | ((b as u32) << 16u32);
    let r32 = r as u32;
    let g32 = g as u32;
    let b32 = b as u32;
    assert(r32 < 256 && g32 < 256 && b32 < 256 ==> r32 | (g32 << 8u32) | (b32 << 16u32) == r32
        + 256 * g32 + 65536 * b32) by (bit_vector);
    c
}

/// Reads red, green and blue out of a `COLORREF`.
pub fn colorref_channels(c: u32) -> (r: (u8, u8, u8))
    ensures
        r == channels_of(c),
        r.0 == c % 256,
        r.1 == (c / 256) % 256,
        r.2 == (c / 65536) % 256,
{
    assert(c & 0xff == c % 256) by (bit_vector);
    assert((c >> 8u32) & 0xff == (c / 256) % 256) by (bit_vector);
    assert((c >> 16u32) & 0xff == (c / 65536) % 256) by (bit_vector);
    ((c & 0xff) as u8, ((c >> 8u32) & 0xff) as u8, ((c >> 16u32) & 0xff) as u8)
}

/// Law: reading back a packed colour gives the colour.
pub proof fn lemma_colorref_roundtrip(r: u8, g: u8, b: u8)
    ensures
        channels_of(colorref_value(r, g, b)) == (r, g, b),
{
    let r32 = r as u32;
    let g32 = g as u32;
    let b32 = b as u32;
    assert(r32 < 256 && g32 < 256 && b32 < 256 ==> ((r32 | (g32 << 8u32) | (b32 << 16u32))
        & 0xff) == r32 && (((r32 | (g32 << 8u32) | (b32 << 16u32)) >> 8u32) & 0xff) == g32 && (((
    r32 | (g32 << 8u32) | (b32 << 16u32)) >> 16u32) & 0xff) == b32) by (bit_vector);
}

/// Byte offset of the pixel at grid point (`x`, `y`) of a `w` by `h`
/// image with four bytes per pixel; the grid divides each side in quarters.
pub open spec fn sample_index(w: int, h: int, x: int, y: int) -> int {
    (y * (h / 4) * w + x * (w / 4)) * 4
}

/// Sums of red, green and blue over the first `k` of the nine inner grid
/// points (row by row), with the number of points that lie inside the
/// pixel buffer.
pub open spec fn grid_totals(px: Seq<u8>, w: int, h: int, k: nat) -> (int, int, int, int)
    decreases k,
{
    if k == 0 {
        (0, 0, 0, 0)
    } else {
        let prev = grid_totals(px, w, h, (k - 1) as nat);
        let x = (k - 1) % 3 + 1;
        let y = (k - 1) / 3 + 1;
        let idx = sample_index(w, h, x, y);
        if idx + 2 < px.len() {
            (
                prev.0 + px[idx] as int,
                prev.1 + px[idx + 1] as int,
                prev.2 + px[idx + 2] as int,
                prev.3 + 1,
            )
        } else {
            prev
        }
    }
}

proof fn lemma_sample_index_bounds(w: int, h: int, x: int, y: int)
    requires
        0 <= w,
        0 <= h,
        1 <= x <= 3,
        1 <= y <= 3,
    ensures
        0 <= y * (h / 4) <= 3 * (h / 4),
        0 <= y * (h / 4) * w <= 3 * (h / 4) * w,
        0 <= x * (w / 4) <= 3 * (w / 4),
        0 <= sample_index(w, h, x, y) <= sample_index(w, h, 3, 3),
{
    assert(0 <= h / 4);
    assert(0 <= w / 4);
    assert(0 <= y * (h / 4) <= 3 * (h / 4)) by (nonlinear_arith)
        requires
            1 <= y <= 3,
            0 <= h / 4,
    ;
    assert(0 <= y * (h / 4) * w <= 3 * (h / 4) * w) by (nonlinear_arith)
        requires
            0 <= y * (h / 4) <= 3 * (h / 4),
            0 <= w,
    ;
    assert(0 <= x * (w / 4) <= 3 * (w / 4)) by (nonlinear_arith)
        requires
            1 <= x <= 3,
            0 <= w / 4,
    ;
}

/// Colour totals of the nine inner points of a quarter grid over an RGBA
/// image, for the palette of a cover.
pub fn sample_grid_totals(pixels: &Vec<u8>, width: i32, height: i32) -> (r: (u32, u32, u32, u32))
    requires
        0 <= width,
        0 <= height,
        sample_index(width as int, height as int, 3, 3) <= i32::MAX,
    ensures
        (r.0 as int, r.1 as int, r.2 as int, r.3 as int) == grid_totals(
            pixels@,
            width as int,
            height as int,
            9,
        ),
{
    let step_x = width / 4;
    let step_y = height / 4;
    let mut r_total: u32 = 0;
    let mut g_total: u32 = 0;
    let mut b_total: u32 = 0;
    let mut count: u32 = 0;
    let mut k: i32 = 0;
    while k < 9
        invariant
            0 <= k <= 9,
            step_x == width / 4,
            step_y == height / 4,
            0 <= width,
            0 <= height,
            sample_index(width as int, height as int, 3, 3) <= i32::MAX,
            (r_total as int, g_total as int, b_total as int, count as int) == grid_totals(
                pixels@,
                width as int,
                height as int,
                k as nat,
            ),
            r_total <= 255 * k,
            g_total <= 255 * k,
            b_total <= 255 * k,
            count <= k,
        decreases 9 - k,
    {
        let x = k % 3 + 1;
        let y = k / 3 + 1;
        proof {
            lemma_sample_index_bounds(width as int, height as int, x as int, y as int);
        }
        let idx = (y * step_y * width + x * step_x) * 4;
        let i = idx as usize;
        if i < pixels.len() && pixels.len() - i > 2 {
            r_total = r_total + pixels[i] as u32;
            g_total = g_total + pixels[i + 1] as u32;
            b_total = b_total + pixels[i + 2] as u32;
            count = count + 1;
        }
        k += 1;
    }
    (r_total, g_total, b_total, count)
}

} // verus!
