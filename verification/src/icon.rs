//! The integer side of drawing the app icon: how much larger a small icon is
//! drawn before it is brought down to size, and the box filter that brings
//! it down. Pixels are RGBA, four bytes each, row by row.
use vstd::prelude::*;

verus! {

/// How many times larger an icon of `size` pixels is drawn before it is
/// scaled down: 4 times up to 16 px, twice up to 48 px, and not at all
/// above.
pub open spec fn supersampling_v(size: u32) -> u32 {
    if size <= 16 {
        4
    } else if size <= 48 {
        2
    } else {
        1
    }
}

pub fn supersampling(size: u32) -> (r: u32)
    ensures
        r == supersampling_v(size),
{
    if size <= 16 {
        4
    } else if size <= 48 {
        2
    } else {
        1
    }
}

/// Channel `c` of the pixel at column `x`, row `y` of a square image
/// `width` pixels wide.
pub open spec fn channel(rgba: Seq<u8>, width: nat, x: nat, y: nat, c: nat) -> nat {
    rgba[((y * width + x) * 4 + c) as int] as nat
}

/// The sum of channel `c` over `w` pixels of row `y`, from column `x0`.
pub open spec fn row_sum(rgba: Seq<u8>, width: nat, x0: nat, y: nat, w: nat, c: nat) -> nat
    decreases w,
{
    if w == 0 {
        0
    } else {
        row_sum(rgba, width, x0, y, (w - 1) as nat, c) + channel(rgba, width, (x0 + w - 1) as nat, y, c)
    }
}

/// The sum of channel `c` over the block of `w` by `h` pixels whose top left
/// pixel is at column `x0`, row `y0`.
pub open spec fn block_sum(rgba: Seq<u8>, width: nat, x0: nat, y0: nat, w: nat, h: nat, c: nat) -> nat
    decreases h,
{
    if h == 0 {
        0
    } else {
        block_sum(rgba, width, x0, y0, w, (h - 1) as nat, c) + row_sum(rgba, width, x0, (y0 + h - 1) as nat, w, c)
    }
}

/// Channel `c` of pixel (`x`, `y`) of an image of `from` pixels brought down
/// to `to` pixels: the mean, rounded down, of the `r` by `r` block it
/// covers, where `r` is `from / to`.
pub open spec fn box_channel_v(rgba: Seq<u8>, from: nat, to: nat, x: nat, y: nat, c: nat) -> nat {
    let r = from / to;
    block_sum(rgba, from, x * r, y * r, r, r, c) / (r * r)
}

proof fn lemma_row_sum_bound(rgba: Seq<u8>, width: nat, x0: nat, y: nat, w: nat, c: nat)
    ensures
        row_sum(rgba, width, x0, y, w, c) <= 255 * w,
    decreases w,
{
    if w > 0 {
        lemma_row_sum_bound(rgba, width, x0, y, (w - 1) as nat, c);
    }
}

proof fn lemma_block_sum_bound(rgba: Seq<u8>, width: nat, x0: nat, y0: nat, w: nat, h: nat, c: nat)
    ensures
        block_sum(rgba, width, x0, y0, w, h, c) <= 255 * w * h,
    decreases h,
{
    if h > 0 {
        lemma_block_sum_bound(rgba, width, x0, y0, w, (h - 1) as nat, c);
        lemma_row_sum_bound(rgba, width, x0, (y0 + h - 1) as nat, w, c);
        assert(255 * w * (h - 1) + 255 * w == 255 * w * h) by (nonlinear_arith);
    }
}

/// The block sums of the four channels of one output pixel.
fn block_sums(rgba: &Vec<u8>, from: u32, x0: u32, y0: u32, r: u32) -> (s: [u32; 4])
    requires
        0 < r,
        x0 + r <= from,
        y0 + r <= from,
        from * from * 4 <= u32::MAX,
        255 * r * r <= u32::MAX,
        rgba@.len() >= from * from * 4,
    ensures
        forall|c: int|
            0 <= c < 4 ==> s[c] as nat == block_sum(rgba@, from as nat, x0 as nat, y0 as nat, r as nat, r as nat, c as nat),
{
    let ghost img = rgba@;
    let ghost f = from as nat;
    let mut sums: [u32; 4] = [0, 0, 0, 0];
    let mut dy: u32 = 0;
    while dy < r
        invariant
            0 < r,
            x0 + r <= from,
            y0 + r <= from,
            from * from * 4 <= u32::MAX,
            255 * r * r <= u32::MAX,
            img == rgba@,
            f == from as nat,
            img.len() >= from * from * 4,
            dy <= r,
            forall|c: int|
                0 <= c < 4 ==> sums[c] as nat == block_sum(img, f, x0 as nat, y0 as nat, r as nat, dy as nat, c as nat),
        decreases r - dy,
    {
        let sy = y0 + dy;
        let row_start: [u32; 4] = sums;
        let mut dx: u32 = 0;
        while dx < r
            invariant
                0 < r,
                x0 + r <= from,
                y0 + r <= from,
                from * from * 4 <= u32::MAX,
                255 * r * r <= u32::MAX,
                img == rgba@,
                f == from as nat,
                img.len() >= from * from * 4,
                dy < r,
                sy == y0 + dy,
                dx <= r,
                forall|c: int|
                    0 <= c < 4 ==> row_start[c] as nat == block_sum(img, f, x0 as nat, y0 as nat, r as nat, dy as nat, c as nat),
                forall|c: int|
                    0 <= c < 4 ==> sums[c] as nat == row_start[c] as nat + row_sum(img, f, x0 as nat, sy as nat, dx as nat, c as nat),
            decreases r - dx,
        {
            let sx = x0 + dx;
            assert(sy * from + sx < from * from) by (nonlinear_arith)
                requires
                    sy < from,
                    sx < from,
            ;
            let i: u32 = (sy * from + sx) * 4;
            proof {
                assert forall|c: int| 0 <= c < 4 implies row_start[c] as nat + row_sum(img, f, x0 as nat, sy as nat, (dx + 1) as nat, c as nat)
                    <= 255 * r * r by {
                    lemma_block_sum_bound(img, f, x0 as nat, y0 as nat, r as nat, dy as nat, c as nat);
                    lemma_row_sum_bound(img, f, x0 as nat, sy as nat, (dx + 1) as nat, c as nat);
                    assert(255 * r * dy + 255 * (dx + 1) <= 255 * r * r) by (nonlinear_arith)
                        requires
                            dy < r,
                            dx < r,
                    ;
                }
                assert forall|c: int| 0 <= c < 4 implies img[i + c] as nat == #[trigger] channel(img, f, sx as nat, sy as nat, c as nat) by {
                    assert((sy as nat * f + sx as nat) * 4 + c as nat == i + c);
                }
            }
            sums[0] = sums[0] + rgba[i as usize] as u32;
            sums[1] = sums[1] + rgba[(i + 1) as usize] as u32;
            sums[2] = sums[2] + rgba[(i + 2) as usize] as u32;
            sums[3] = sums[3] + rgba[(i + 3) as usize] as u32;
            dx = dx + 1;
        }
        dy = dy + 1;
    }
    sums
}

/// Brings a square RGBA image `from` pixels wide down to `to` pixels wide:
/// each output pixel takes, channel by channel, the mean (rounded down) of
/// the block of `from / to` by `from / to` pixels it covers.
pub fn downscale_box(rgba: &Vec<u8>, from: u32, to: u32) -> (out: Vec<u8>)
    requires
        0 < to <= from,
        from * from * 4 <= u32::MAX,
        255 * (from / to) * (from / to) <= u32::MAX,
        rgba@.len() >= from * from * 4,
    ensures
        out@.len() == to * to * 4,
        forall|x: int, y: int, c: int|
            0 <= x < to && 0 <= y < to && 0 <= c < 4 ==> out@[(y * to + x) * 4 + c] as nat == #[trigger] box_channel_v(
                rgba@,
                from as nat,
                to as nat,
                x as nat,
                y as nat,
                c as nat,
            ),
{
    let ratio = from / to;
    assert(ratio >= 1 && ratio * to <= from) by (nonlinear_arith)
        requires
            0 < to <= from,
            ratio == from / to,
    ;
    let ghost img = rgba@;
    let mut out: Vec<u8> = Vec::new();
    let mut y: u32 = 0;
    while y < to
        invariant
            0 < to <= from,
            from * from * 4 <= u32::MAX,
            img == rgba@,
            img.len() >= from * from * 4,
            ratio == from / to,
            ratio >= 1,
            ratio * to <= from,
            255 * ratio * ratio <= u32::MAX,
            y <= to,
            out@.len() == y * to * 4,
            forall|xx: int, yy: int, c: int|
                0 <= xx < to && 0 <= yy < y && 0 <= c < 4 ==> out@[(yy * to + xx) * 4 + c] as nat == #[trigger] box_channel_v(
                    img,
                    from as nat,
                    to as nat,
                    xx as nat,
                    yy as nat,
                    c as nat,
                ),
        decreases to - y,
    {
        let mut x: u32 = 0;
        proof {
            assert forall|xx: int, yy: int, c: int|
                0 <= xx < to && 0 <= yy < to && 0 <= c < 4 && yy * to + xx < y * to + 0 implies out@[(yy * to + xx) * 4 + c] as nat
                    == #[trigger] box_channel_v(img, from as nat, to as nat, xx as nat, yy as nat, c as nat) by {
                assert(yy < y) by (nonlinear_arith)
                    requires
                        yy * to + xx < y * to,
                        0 <= xx,
                        0 < to,
                ;
            }
        }
        while x < to
            invariant
                0 < to <= from,
                from * from * 4 <= u32::MAX,
                img == rgba@,
                img.len() >= from * from * 4,
                ratio == from / to,
                ratio >= 1,
                ratio * to <= from,
                255 * ratio * ratio <= u32::MAX,
                y < to,
                x <= to,
                out@.len() == (y * to + x) * 4,
                forall|xx: int, yy: int, c: int|
                    0 <= xx < to && 0 <= yy < to && 0 <= c < 4 && yy * to + xx < y * to + x ==> out@[(yy * to + xx) * 4 + c] as nat
                        == #[trigger] box_channel_v(img, from as nat, to as nat, xx as nat, yy as nat, c as nat),
            decreases to - x,
        {
            assert(x * ratio + ratio <= from && y * ratio + ratio <= from) by (nonlinear_arith)
                requires
                    x < to,
                    y < to,
                    ratio * to <= from,
            ;
            assert(ratio * ratio <= from * from) by (nonlinear_arith)
                requires
                    ratio * to <= from,
                    1 <= to,
            ;
            let sums = block_sums(rgba, from, x * ratio, y * ratio, ratio);
            assert(ratio * ratio >= 1) by (nonlinear_arith)
                requires
                    ratio >= 1,
            ;
            let n: u32 = ratio * ratio;
            let ghost before = out@;
            proof {
                assert forall|c: int| 0 <= c < 4 implies sums[c] / n <= 255 by {
                    lemma_block_sum_bound(img, from as nat, (x * ratio) as nat, (y * ratio) as nat, ratio as nat, ratio as nat, c as nat);
                    assert(sums[c] / n <= 255) by (nonlinear_arith)
                        requires
                            sums[c] <= 255 * ratio * ratio,
                            n == ratio * ratio,
                            n > 0,
                    ;
                }
            }
            out.push((sums[0] / n) as u8);
            out.push((sums[1] / n) as u8);
            out.push((sums[2] / n) as u8);
            out.push((sums[3] / n) as u8);
            proof {
                let k = y * to + x;
                assert(out@.len() == (k + 1) * 4);
                assert forall|xx: int, yy: int, c: int|
                    0 <= xx < to && 0 <= yy < to && 0 <= c < 4 && yy * to + xx < k + 1 implies out@[(yy * to + xx) * 4 + c] as nat
                        == #[trigger] box_channel_v(img, from as nat, to as nat, xx as nat, yy as nat, c as nat) by {
                    let j = yy * to + xx;
                    if j < k {
                        assert(j * 4 + c < k * 4) by (nonlinear_arith)
                            requires
                                j < k,
                                0 <= c < 4,
                        ;
                        assert(out@[j * 4 + c] == before[j * 4 + c]);
                    } else {
                        assert(j == k);
                        assert(yy == y && xx == x) by (nonlinear_arith)
                            requires
                                yy * to + xx == y * to + x,
                                0 <= xx < to,
                                0 <= x < to,
                                0 <= yy,
                                0 <= y,
                        ;
                        assert(out@[k * 4 + c] == (sums[c] / n) as u8);
                    }
                }
            }
            x = x + 1;
        }
        proof {
            assert forall|xx: int, yy: int, c: int|
                0 <= xx < to && 0 <= yy < y + 1 && 0 <= c < 4 implies out@[(yy * to + xx) * 4 + c] as nat
                    == #[trigger] box_channel_v(img, from as nat, to as nat, xx as nat, yy as nat, c as nat) by {
                assert(yy * to + xx < y * to + to) by (nonlinear_arith)
                    requires
                        0 <= xx < to,
                        0 <= yy < y + 1,
                ;
            }
            assert(out@.len() == (y + 1) * to * 4) by (nonlinear_arith)
                requires
                    out@.len() == (y * to + to) * 4,
            ;
        }
        y = y + 1;
    }
    out
}

} // verus!
