//! Target dimensions: how large an image may become under independent
//! width and height caps, and how a measured size scales with area.

use vstd::arithmetic::div_mod::{lemma_fundamental_div_mod, lemma_mod_bound};
use vstd::prelude::*;

verus! {

/// Width above which a size estimate is measured on a small proxy image.
pub const PROXY_SIZE: u32 = 256;

/// The bound that a cap stands for: its value, or no bound at all.
pub open spec fn cap_value(cap: Option<u32>) -> int {
    match cap {
        Some(c) => c as int,
        None => u32::MAX as int,
    }
}

/// The integer nearest to `num / den`, halves rounded up.
pub open spec fn round_div(num: int, den: int) -> int {
    (2 * num + den) / (2 * den)
}

/// No axis of an image shrinks below one pixel.
pub open spec fn at_least_one(x: int) -> int {
    if x < 1 {
        1
    } else {
        x
    }
}

/// The size of a `w` x `h` image scaled uniformly so that it fills a
/// `box_w` x `box_h` box along its tighter axis. The other axis is rounded
/// to the nearest pixel.
pub open spec fn fit_within(w: int, h: int, box_w: int, box_h: int) -> (int, int) {
    if box_w * h <= box_h * w {
        (at_least_one(box_w), at_least_one(round_div(h * box_w, w)))
    } else {
        (at_least_one(round_div(w * box_h, h)), at_least_one(box_h))
    }
}

/// An image has to shrink when it is not empty and exceeds a cap.
pub open spec fn needs_resize(w: int, h: int, cap_w: int, cap_h: int) -> bool {
    w >= 1 && h >= 1 && (w > cap_w || h > cap_h)
}

/// The dimensions an image is written with: its own where it fits both
/// caps, else the largest of the same aspect ratio that fits. The scale
/// factor is min(cap_w / w, cap_h / h, 1): an image is never enlarged.
pub open spec fn target_size(w: int, h: int, max_w: Option<u32>, max_h: Option<u32>) -> (
    int,
    int,
) {
    if needs_resize(w, h, cap_value(max_w), cap_value(max_h)) {
        fit_within(w, h, cap_value(max_w), cap_value(max_h))
    } else {
        (w, h)
    }
}

/// `actual` differs by at most one from the exact quotient `num / den`.
pub open spec fn within_one_pixel(actual: int, num: int, den: int) -> bool {
    -den <= actual * den - num <= den
}

/// The size that an estimate is measured at: the target size itself while
/// its width stays within [`PROXY_SIZE`], else the image scaled into a
/// square box of that size. An image without rows is measured as it is.
pub open spec fn proxy_size(w: int, h: int, max_w: Option<u32>, max_h: Option<u32>) -> (
    int,
    int,
) {
    if h >= 1 && target_size(w, h, max_w, max_h).0 > PROXY_SIZE {
        fit_within(w, h, PROXY_SIZE as int, PROXY_SIZE as int)
    } else {
        target_size(w, h, max_w, max_h)
    }
}

/// A byte count measured on the proxy, scaled by the ratio of the target
/// area to the proxy area, rounded down and held within `u64`. Where the
/// proxy is the target, the estimate is the measured count itself.
pub open spec fn scaled_estimate(
    measured: int,
    target: (int, int),
    proxy: (int, int),
) -> int {
    if target == proxy || proxy.0 * proxy.1 == 0 {
        measured
    } else {
        let exact = (measured * (target.0 * target.1)) / (proxy.0 * proxy.1);
        if exact > u64::MAX {
            u64::MAX as int
        } else {
            exact
        }
    }
}

proof fn lemma_round_div(num: int, den: int)
    requires
        num >= 0,
        den >= 1,
    ensures
        2 * den * round_div(num, den) <= 2 * num + den,
        2 * num + den < 2 * den * round_div(num, den) + 2 * den,
        round_div(num, den) >= 0,
{
    let x = 2 * num + den;
    let d = 2 * den;
    lemma_fundamental_div_mod(x, d);
    lemma_mod_bound(x, d);
    assert(x == d * (x / d) + x % d);
    assert(x / d >= 0) by (nonlinear_arith)
        requires
            x == d * (x / d) + x % d,
            0 <= x % d < d,
            x >= 0,
            d >= 2,
    ;
}

proof fn lemma_round_div_upper(num: int, den: int, bound: int)
    requires
        num >= 0,
        den >= 1,
        bound >= 0,
        num <= bound * den,
    ensures
        round_div(num, den) <= bound,
{
    lemma_round_div(num, den);
    let q = round_div(num, den);
    assert(q <= bound) by (nonlinear_arith)
        requires
            2 * den * q <= 2 * num + den,
            num <= bound * den,
            den >= 1,
    ;
}

/// An image that fits both caps keeps its dimensions exactly.
pub proof fn lemma_no_resize_within_caps(w: int, h: int, max_w: Option<u32>, max_h: Option<u32>)
    requires
        w <= cap_value(max_w),
        h <= cap_value(max_h),
    ensures
        target_size(w, h, max_w, max_h) == (w, h),
{
}

/// An image that exceeds a cap comes out within both caps, no larger than
/// it was, filling its tighter cap exactly, with the other axis within one
/// pixel of the exact proportional size.
pub proof fn lemma_resize_respects_caps(w: int, h: int, max_w: Option<u32>, max_h: Option<u32>)
    requires
        1 <= w <= u32::MAX,
        1 <= h <= u32::MAX,
        cap_value(max_w) >= 1,
        cap_value(max_h) >= 1,
        w > cap_value(max_w) || h > cap_value(max_h),
    ensures
        ({
            let (tw, th) = target_size(w, h, max_w, max_h);
            let cw = cap_value(max_w);
            let ch = cap_value(max_h);
            &&& 1 <= tw <= cw
            &&& 1 <= th <= ch
            &&& tw <= w
            &&& th <= h
            &&& (tw == cw && within_one_pixel(th, h * cw, w)) || (th == ch && within_one_pixel(
                tw,
                w * ch,
                h,
            ))
        }),
{
    let cw = cap_value(max_w);
    let ch = cap_value(max_h);
    lemma_fit_within(w, h, cw, ch);
    if cw * h <= ch * w {
        assert(cw < w) by (nonlinear_arith)
            requires
                cw * h <= ch * w,
                w > cw || h > ch,
                w >= 1,
                h >= 1,
                cw >= 1,
                ch >= 1,
        ;
    } else {
        assert(ch < h) by (nonlinear_arith)
            requires
                cw * h > ch * w,
                w > cw || h > ch,
                w >= 1,
                h >= 1,
                cw >= 1,
                ch >= 1,
        ;
    }
}

/// Whatever the caps, an image that is not empty is written neither empty
/// nor larger than it is.
pub proof fn lemma_target_bounds(w: int, h: int, max_w: Option<u32>, max_h: Option<u32>)
    requires
        1 <= w <= u32::MAX,
        1 <= h <= u32::MAX,
    ensures
        1 <= target_size(w, h, max_w, max_h).0 <= w,
        1 <= target_size(w, h, max_w, max_h).1 <= h,
{
    let cw = cap_value(max_w);
    let ch = cap_value(max_h);
    if needs_resize(w, h, cw, ch) {
        if cw >= 1 && ch >= 1 {
            lemma_resize_respects_caps(w, h, max_w, max_h);
        } else if cw == 0 {
            assert(cw * h <= ch * w) by (nonlinear_arith)
                requires
                    cw == 0,
                    ch >= 0,
                    w >= 1,
            ;
            assert(h * cw == 0) by (nonlinear_arith)
                requires
                    cw == 0,
            ;
            assert(round_div(0, w) == 0) by (nonlinear_arith)
                requires
                    w >= 1,
            ;
        } else {
            assert(cw * h > ch * w) by (nonlinear_arith)
                requires
                    ch == 0,
                    cw >= 1,
                    h >= 1,
            ;
            assert(w * ch == 0) by (nonlinear_arith)
                requires
                    ch == 0,
            ;
            assert(round_div(0, h) == 0) by (nonlinear_arith)
                requires
                    h >= 1,
            ;
        }
    }
}

/// An estimate is measured on an image neither empty nor larger than the
/// image it is made from.
pub proof fn lemma_proxy_bounds(w: int, h: int, max_w: Option<u32>, max_h: Option<u32>)
    requires
        1 <= w <= u32::MAX,
        1 <= h <= u32::MAX,
    ensures
        1 <= proxy_size(w, h, max_w, max_h).0 <= w,
        1 <= proxy_size(w, h, max_w, max_h).1 <= h,
{
    lemma_target_bounds(w, h, max_w, max_h);
    if target_size(w, h, max_w, max_h).0 > PROXY_SIZE {
        lemma_fit_within(w, h, PROXY_SIZE as int, PROXY_SIZE as int);
    }
}

/// What [`fit_within`] gives stays inside the box and within one pixel of
/// the exact proportional size; where the box is smaller than the image
/// along its tighter axis, the result is no larger than the image.
pub proof fn lemma_fit_within(w: int, h: int, box_w: int, box_h: int)
    requires
        w >= 1,
        h >= 1,
        box_w >= 1,
        box_h >= 1,
    ensures
        ({
            let (fw, fh) = fit_within(w, h, box_w, box_h);
            &&& 1 <= fw <= box_w
            &&& 1 <= fh <= box_h
            &&& box_w * h <= box_h * w ==> fw == box_w && within_one_pixel(fh, h * box_w, w)
            &&& box_w * h > box_h * w ==> fh == box_h && within_one_pixel(fw, w * box_h, h)
            &&& box_w * h <= box_h * w && box_w <= w ==> fh <= h
            &&& box_w * h > box_h * w && box_h <= h ==> fw <= w
        }),
{
    if box_w * h <= box_h * w {
        lemma_scaled_axis(h, box_w, w, box_h);
    } else {
        lemma_scaled_axis(w, box_h, h, box_w);
    }
}

/// The rounded length `len * tight / along` of the free axis, where the
/// tight axis shrinks from `along` to `tight` and the free axis may be at
/// most `room` long.
proof fn lemma_scaled_axis(len: int, tight: int, along: int, room: int)
    requires
        len >= 1,
        tight >= 1,
        along >= 1,
        room >= 1,
        tight * len <= room * along,
    ensures
        ({
            let r = at_least_one(round_div(len * tight, along));
            &&& 1 <= r <= room
            &&& within_one_pixel(r, len * tight, along)
            &&& tight <= along ==> r <= len
        }),
{
    let num = len * tight;
    assert(num >= 0) by (nonlinear_arith)
        requires
            num == len * tight,
            len >= 1,
            tight >= 1,
    ;
    assert(num == tight * len) by (nonlinear_arith)
        requires
            num == len * tight,
    ;
    lemma_round_div(num, along);
    lemma_round_div_upper(num, along, room);
    let q = round_div(num, along);
    let r = at_least_one(q);
    assert(within_one_pixel(r, num, along)) by (nonlinear_arith)
        requires
            2 * along * q <= 2 * num + along,
            2 * num + along < 2 * along * q + 2 * along,
            r == if q < 1 {
                1
            } else {
                q
            },
            q >= 0,
            num >= 0,
            along >= 1,
    ;
    if tight <= along {
        assert(num <= len * along) by (nonlinear_arith)
            requires
                num == len * tight,
                tight <= along,
                len >= 1,
        ;
        lemma_round_div_upper(num, along, len);
    }
}

/// Rounds `a * b / den` to the nearest integer, never below one.
fn scale_axis(a: u32, b: u32, den: u32, room: u32) -> (r: u32)
    requires
        a >= 1,
        b >= 1,
        den >= 1,
        room >= 1,
        b * a <= room * den,
    ensures
        r == at_least_one(round_div(a * b, den as int)),
{
    proof {
        lemma_scaled_axis(a as int, b as int, den as int, room as int);
        lemma_round_div(a as int * b as int, den as int);
    }
    assert(a as int * b as int <= 0xFFFF_FFFF * 0xFFFF_FFFF) by (nonlinear_arith)
        requires
            0 <= a <= 0xFFFF_FFFF,
            0 <= b <= 0xFFFF_FFFF,
    ;
    let num: u128 = (a as u128) * (b as u128);
    let q: u128 = (2 * num + den as u128) / (2 * (den as u128));
    if q < 1 {
        1
    } else {
        q as u32
    }
}

/// Scales a `w` x `h` image into a `box_w` x `box_h` box; see
/// [`fit_within`].
fn fit_dimensions(w: u32, h: u32, box_w: u32, box_h: u32) -> (r: (u32, u32))
    requires
        w >= 1,
        h >= 1,
        box_w >= 1,
        box_h >= 1,
    ensures
        (r.0 as int, r.1 as int) == fit_within(w as int, h as int, box_w as int, box_h as int),
{
    assert(box_w as int * h as int <= 0xFFFF_FFFF * 0xFFFF_FFFF) by (nonlinear_arith)
        requires
            0 <= box_w <= 0xFFFF_FFFF,
            0 <= h <= 0xFFFF_FFFF,
    ;
    assert(box_h as int * w as int <= 0xFFFF_FFFF * 0xFFFF_FFFF) by (nonlinear_arith)
        requires
            0 <= box_h <= 0xFFFF_FFFF,
            0 <= w <= 0xFFFF_FFFF,
    ;
    if (box_w as u64) * (h as u64) <= (box_h as u64) * (w as u64) {
        (box_w, scale_axis(h, box_w, w, box_h))
    } else {
        assert(box_h as int * w as int <= box_w as int * h as int);
        (scale_axis(w, box_h, h, box_w), box_h)
    }
}

/// The dimensions an image of `width` x `height` is written with under the
/// given caps; see [`target_size`]. A cap of zero is read as one: no axis
/// shrinks below one pixel.
pub fn target_dimensions(
    width: u32,
    height: u32,
    max_width: Option<u32>,
    max_height: Option<u32>,
) -> (r: (u32, u32))
    ensures
        (r.0 as int, r.1 as int) == target_size(width as int, height as int, max_width, max_height),
{
    let cap_w = match max_width {
        Some(c) => c,
        None => u32::MAX,
    };
    let cap_h = match max_height {
        Some(c) => c,
        None => u32::MAX,
    };
    if width >= 1 && height >= 1 && (width > cap_w || height > cap_h) {
        fit_any_box(width, height, cap_w, cap_h)
    } else {
        (width, height)
    }
}

/// [`fit_dimensions`] for a box of which a side may be zero.
fn fit_any_box(w: u32, h: u32, box_w: u32, box_h: u32) -> (r: (u32, u32))
    requires
        w >= 1,
        h >= 1,
    ensures
        (r.0 as int, r.1 as int) == fit_within(w as int, h as int, box_w as int, box_h as int),
{
    if box_w >= 1 && box_h >= 1 {
        fit_dimensions(w, h, box_w, box_h)
    } else if box_w == 0 {
        // The width cap is the tighter one: 0 * h <= box_h * w.
        assert(0 * (h as int) <= box_h as int * w as int) by (nonlinear_arith)
            requires
                box_h >= 0,
                w >= 1,
        ;
        assert(round_div(h as int * 0, w as int) == 0) by {
            assert(h as int * 0 == 0);
            assert((0 + w as int) / (2 * w as int) == 0) by (nonlinear_arith)
                requires
                    w >= 1,
            ;
        }
        (1, 1)
    } else {
        assert(box_w as int * h as int > 0 * (w as int)) by (nonlinear_arith)
            requires
                box_w >= 1,
                h >= 1,
        ;
        assert(round_div(w as int * 0, h as int) == 0) by {
            assert(w as int * 0 == 0);
            assert((0 + h as int) / (2 * h as int) == 0) by (nonlinear_arith)
                requires
                    h >= 1,
            ;
        }
        (1, 1)
    }
}

/// The size an estimate is measured at; see [`proxy_size`].
pub fn proxy_dimensions(
    width: u32,
    height: u32,
    max_width: Option<u32>,
    max_height: Option<u32>,
) -> (r: (u32, u32))
    ensures
        (r.0 as int, r.1 as int) == proxy_size(width as int, height as int, max_width, max_height),
{
    let target = target_dimensions(width, height, max_width, max_height);
    if height >= 1 && target.0 > PROXY_SIZE {
        // A target wider than the box belongs to an image at least as wide.
        fit_dimensions(width, height, PROXY_SIZE, PROXY_SIZE)
    } else {
        target
    }
}

/// Scales a byte count measured at `proxy` to the `target` size; see
/// [`scaled_estimate`].
pub fn scale_estimate(measured: u64, target: (u32, u32), proxy: (u32, u32)) -> (estimate: u64)
    ensures
        estimate == scaled_estimate(
            measured as int,
            (target.0 as int, target.1 as int),
            (proxy.0 as int, proxy.1 as int),
        ),
{
    if target.0 == proxy.0 && target.1 == proxy.1 {
        return measured;
    }
    assert(proxy.0 as int * proxy.1 as int <= 0xFFFF_FFFF * 0xFFFF_FFFF) by (nonlinear_arith)
        requires
            0 <= proxy.0 <= 0xFFFF_FFFF,
            0 <= proxy.1 <= 0xFFFF_FFFF,
    ;
    assert(target.0 as int * target.1 as int <= 0xFFFF_FFFF * 0xFFFF_FFFF) by (nonlinear_arith)
        requires
            0 <= target.0 <= 0xFFFF_FFFF,
            0 <= target.1 <= 0xFFFF_FFFF,
    ;
    let proxy_area: u64 = (proxy.0 as u64) * (proxy.1 as u64);
    if proxy_area == 0 {
        return measured;
    }
    let target_area: u64 = (target.0 as u64) * (target.1 as u64);
    assert(measured as int * target_area as int <= 0xFFFF_FFFF_FFFF_FFFF * 0xFFFF_FFFF_FFFF_FFFF)
        by (nonlinear_arith)
        requires
            0 <= measured <= 0xFFFF_FFFF_FFFF_FFFF,
            0 <= target_area <= 0xFFFF_FFFF_FFFF_FFFF,
    ;
    let exact: u128 = ((measured as u128) * (target_area as u128)) / (proxy_area as u128);
    if exact > u64::MAX as u128 {
        u64::MAX
    } else {
        exact as u64
    }
}

} // verus!
