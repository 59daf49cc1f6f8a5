//! Frames: pixels as the engine writes them, and as they are drawn.

use vstd::prelude::*;

verus! {

/// The byte of a frame in RGBA order, without gaps between its rows, that stands at index `k`, taken
/// from a frame in BGRA order whose rows start `stride` bytes apart.
pub open spec fn rgba_byte(src: Seq<u8>, width: int, stride: int, k: int) -> u8 {
    let pixel = k / 4;
    let start = (pixel / width) * stride + (pixel % width) * 4;
    let channel = k % 4;
    if channel == 0 {
        src[start + 2]
    } else if channel == 2 {
        src[start]
    } else {
        src[start + channel]
    }
}

/// Whether every row of a frame lies within its bytes.
pub open spec fn rows_fit(len: int, width: int, height: int, stride: int) -> bool {
    forall|y: int| 0 <= y < height ==> 0 <= #[trigger] (y * stride) && y * stride + width * 4 <= len
}

proof fn lemma_pixel(x: int, y: int, width: int, channel: int)
    requires
        0 <= x < width,
        0 <= y,
        0 <= channel < 4,
    ensures
        ((y * width + x) * 4 + channel) / 4 == y * width + x,
        ((y * width + x) * 4 + channel) % 4 == channel,
        (y * width + x) / width == y,
        (y * width + x) % width == x,
{
    vstd::arithmetic::div_mod::lemma_fundamental_div_mod_converse(
        y * width + x,
        width,
        y,
        x,
    );
}

/// Copies a frame out in RGBA order. A frame without rows or columns is none.
pub fn rgba_from_bgra(src: &Vec<u8>, width: u32, height: u32, stride: usize) -> (r: Option<Vec<u8>>)
    requires
        width * height * 4 <= u32::MAX,
        rows_fit(src@.len() as int, width as int, height as int, stride as int),
    ensures
        width == 0 || height == 0 ==> r is None,
        width > 0 && height > 0 ==> {
            &&& r is Some
            &&& r->0@.len() == width * height * 4
            &&& forall|k: int|
                0 <= k < width * height * 4 ==> #[trigger] r->0@[k] == rgba_byte(
                    src@,
                    width as int,
                    stride as int,
                    k,
                )
        },
{
    if width == 0 || height == 0 {
        return None;
    }
    let w = width as usize;
    let h = height as usize;
    let n = src.len();
    let mut out: Vec<u8> = Vec::new();
    let mut y: usize = 0;
    while y < h
        invariant
            y <= h,
            w == width,
            h == height,
            w > 0,
            n == src@.len(),
            rows_fit(src@.len() as int, width as int, height as int, stride as int),
            out@.len() == y * w * 4,
            forall|k: int|
                0 <= k < y * w * 4 ==> #[trigger] out@[k] == rgba_byte(
                    src@,
                    width as int,
                    stride as int,
                    k,
                ),
        decreases h - y,
    {
        assert(0 <= y * stride && y * stride + w * 4 <= src@.len());
        let row: usize = y * stride;
        let mut x: usize = 0;
        while x < w
            invariant
                x <= w,
                y < h,
                w == width,
                n == src@.len(),
                row == y * stride,
                row + w * 4 <= src@.len(),
                out@.len() == (y * w + x) * 4,
                forall|k: int|
                    0 <= k < (y * w + x) * 4 ==> #[trigger] out@[k] == rgba_byte(
                        src@,
                        width as int,
                        stride as int,
                        k,
                    ),
            decreases w - x,
        {
            let s: usize = row + x * 4;
            proof {
                lemma_pixel(x as int, y as int, w as int, 0);
                lemma_pixel(x as int, y as int, w as int, 1);
                lemma_pixel(x as int, y as int, w as int, 2);
                lemma_pixel(x as int, y as int, w as int, 3);
            }
            out.push(src[s + 2]);
            out.push(src[s + 1]);
            out.push(src[s]);
            out.push(src[s + 3]);
            assert(((y * w + (x + 1)) * 4) == (y * w + x) * 4 + 4) by (nonlinear_arith);
            x += 1;
        }
        assert((y * w + w) * 4 == (y + 1) * w * 4) by (nonlinear_arith);
        y += 1;
    }
    assert(h * w * 4 == width * height * 4) by (nonlinear_arith)
        requires
            h == height,
            w == width,
    ;
    Some(out)
}

} // verus!
