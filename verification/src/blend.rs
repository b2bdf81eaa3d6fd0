//! Placing one raster onto another with source-over compositing and
//! silent clipping at the destination's edges.

use vstd::prelude::*;
use crate::pixel::{Pixel, src_over};
use crate::raster::Raster;

verus! {

/// Width (or height) of the clipped blend region: how many columns (rows) of
/// a `tdim`-wide overlay placed at `off` fall inside a `bdim`-wide
/// destination. Out-of-bounds parts are discarded, never wrapped.
pub open spec fn clip_len(bdim: int, tdim: int, off: int) -> int {
    if off >= bdim {
        0
    } else if tdim <= bdim - off {
        tdim
    } else {
        bdim - off
    }
}

/// `(i, j)`, a coordinate of `b`, lies inside the clipped region covered when
/// `t` is placed onto `b` at offset `(x, y)`.
pub open spec fn in_blend_region(b: Raster, t: Raster, x: int, y: int, i: int, j: int) -> bool {
    x <= i < x + clip_len(b.width as int, t.width as int, x)
        && y <= j < y + clip_len(b.height as int, t.height as int, y)
}

/// The pixel of `b` at `(i, j)` after the ordinary overlay of `t` onto `b`
/// at offset `(x, y)`: inside the clipped region the placed pixel of `t` is
/// composited *over* the pixel of `b`; elsewhere `b` is untouched.
pub open spec fn overlay_pix(b: Raster, t: Raster, x: int, y: int, i: int, j: int) -> Pixel {
    if in_blend_region(b, t, x, y, i, j) {
        src_over(t.pix(i - x, j - y), b.pix(i, j))
    } else {
        b.pix(i, j)
    }
}

/// The pixel of `b` at `(i, j)` after the inverse overlay of `t` onto `b` at
/// offset `(x, y)`: inside the clipped region the pixel of `b` is composited
/// *over* the placed pixel of `t` — the buffer that receives the result
/// supplies the upper layer — and elsewhere `b` is untouched.
pub open spec fn inverse_overlay_pix(b: Raster, t: Raster, x: int, y: int, i: int, j: int) -> Pixel {
    if in_blend_region(b, t, x, y, i, j) {
        src_over(b.pix(i, j), t.pix(i - x, j - y))
    } else {
        b.pix(i, j)
    }
}

/// Law: a fully opaque foreground is copied into the background verbatim.
/// After `overlay`, the clipped region of the bottom raster equals the
/// foreground exactly, and everything outside the region is untouched.
pub proof fn lemma_overlay_opaque_foreground(b: Raster, t: Raster, x: int, y: int)
    requires
        b.wf(),
        t.wf(),
        forall|u: int, v: int| t.in_bounds(u, v) ==> t.pix(u, v).a == 255,
    ensures
        forall|i: int, j: int|
            b.in_bounds(i, j) && in_blend_region(b, t, x, y, i, j)
                ==> overlay_pix(b, t, x, y, i, j) == t.pix(i - x, j - y),
        forall|i: int, j: int|
            b.in_bounds(i, j) && !in_blend_region(b, t, x, y, i, j)
                ==> overlay_pix(b, t, x, y, i, j) == b.pix(i, j),
{
    assert forall|i: int, j: int|
        b.in_bounds(i, j) && in_blend_region(b, t, x, y, i, j)
            implies overlay_pix(b, t, x, y, i, j) == t.pix(i - x, j - y) by {
        assert(t.in_bounds(i - x, j - y));
        crate::pixel::lemma_src_over_opaque(t.pix(i - x, j - y), b.pix(i, j));
    }
}

/// Law: a fully transparent foreground changes nothing. After `overlay`
/// with such a foreground, every pixel of the bottom raster is exactly what
/// it was.
pub proof fn lemma_overlay_transparent_foreground(b: Raster, t: Raster, x: int, y: int)
    requires
        b.wf(),
        t.wf(),
        forall|u: int, v: int| t.in_bounds(u, v) ==> t.pix(u, v).a == 0,
    ensures
        forall|i: int, j: int|
            b.in_bounds(i, j) ==> overlay_pix(b, t, x, y, i, j) == b.pix(i, j),
{
    assert forall|i: int, j: int| b.in_bounds(i, j)
        implies overlay_pix(b, t, x, y, i, j) == b.pix(i, j) by {
        if in_blend_region(b, t, x, y, i, j) {
            assert(t.in_bounds(i - x, j - y));
            crate::pixel::lemma_src_over_transparent(t.pix(i - x, j - y), b.pix(i, j));
        }
    }
}

/// Law: blending commutes with clipping. Blending `t` at offset `(x, y)`
/// gives the same result, pixel for pixel, as first clipping `t` to the part
/// that falls inside `b` and blending the clipped raster — for the ordinary
/// and for the inverse orientation alike.
pub proof fn lemma_overlay_clip_commutes(b: Raster, t: Raster, tc: Raster, x: int, y: int)
    requires
        b.wf(),
        t.wf(),
        tc.wf(),
        tc.width == clip_len(b.width as int, t.width as int, x),
        tc.height == clip_len(b.height as int, t.height as int, y),
        forall|u: int, v: int| tc.in_bounds(u, v) ==> tc.pix(u, v) == t.pix(u, v),
    ensures
        forall|i: int, j: int|
            b.in_bounds(i, j)
                ==> overlay_pix(b, t, x, y, i, j) == overlay_pix(b, tc, x, y, i, j),
        forall|i: int, j: int|
            b.in_bounds(i, j)
                ==> inverse_overlay_pix(b, t, x, y, i, j) == inverse_overlay_pix(b, tc, x, y, i, j),
{
    assert(clip_len(b.width as int, tc.width as int, x) == tc.width as int);
    assert(clip_len(b.height as int, tc.height as int, y) == tc.height as int);
    assert forall|i: int, j: int| b.in_bounds(i, j)
        implies overlay_pix(b, t, x, y, i, j) == overlay_pix(b, tc, x, y, i, j)
            && inverse_overlay_pix(b, t, x, y, i, j) == inverse_overlay_pix(b, tc, x, y, i, j) by {
        assert(in_blend_region(b, t, x, y, i, j) == in_blend_region(b, tc, x, y, i, j));
        if in_blend_region(b, t, x, y, i, j) {
            assert(tc.in_bounds(i - x, j - y));
        }
    }
}

/// Law of the inverse orientation: where the receiving buffer is fully
/// transparent inside the blend region, the inverse overlay writes the
/// placed raster's pixels verbatim — the subject shows through the
/// template's hole.
pub proof fn lemma_inverse_overlay_hole(b: Raster, t: Raster, x: int, y: int, i: int, j: int)
    requires
        b.wf(),
        t.wf(),
        b.in_bounds(i, j),
        in_blend_region(b, t, x, y, i, j),
        b.pix(i, j).a == 0,
    ensures
        inverse_overlay_pix(b, t, x, y, i, j) == t.pix(i - x, j - y),
{
    crate::pixel::lemma_src_over_transparent(b.pix(i, j), t.pix(i - x, j - y));
}

/// Law of the inverse orientation: where the receiving buffer is fully
/// opaque, the inverse overlay leaves its pixel exactly as it was — the
/// template's artwork is preserved.
pub proof fn lemma_inverse_overlay_opaque_background(b: Raster, t: Raster, x: int, y: int, i: int, j: int)
    requires
        b.wf(),
        t.wf(),
        b.in_bounds(i, j),
        b.pix(i, j).a == 255,
    ensures
        inverse_overlay_pix(b, t, x, y, i, j) == b.pix(i, j),
{
    if in_blend_region(b, t, x, y, i, j) {
        crate::pixel::lemma_src_over_opaque(b.pix(i, j), t.pix(i - x, j - y));
    }
}

/// Clipped extent along one axis.
fn clip_extent(bdim: u32, tdim: u32, off: u32) -> (r: u32)
    ensures
        r == clip_len(bdim as int, tdim as int, off as int),
        off + r <= bdim || r == 0,
        r <= tdim,
{
    if off >= bdim {
        0
    } else if tdim <= bdim - off {
        tdim
    } else {
        bdim - off
    }
}

/// Composite `top` *over* the rectangle of `bottom` that starts at
/// `(x, y)`, writing the result into `bottom`. Parts of `top` that fall
/// outside `bottom` are silently discarded.
pub fn overlay(bottom: &mut Raster, top: &Raster, x: u32, y: u32)
    requires
        old(bottom).wf(),
        top.wf(),
    ensures
        final(bottom).wf(),
        final(bottom).same_dims(*old(bottom)),
        forall|i: int, j: int|
            old(bottom).in_bounds(i, j)
                ==> final(bottom).pix(i, j)
                    == overlay_pix(*old(bottom), *top, x as int, y as int, i, j),
{
    let rw: u32 = clip_extent(bottom.width, top.width, x);
    let rh: u32 = clip_extent(bottom.height, top.height, y);
    let mut j: u32 = 0;
    while j < rh
        invariant
            j <= rh,
            bottom.wf(),
            bottom.same_dims(*old(bottom)),
            top.wf(),
            rw == clip_len(old(bottom).width as int, top.width as int, x as int),
            rh == clip_len(old(bottom).height as int, top.height as int, y as int),
            rw == 0 || x + rw <= old(bottom).width,
            rh == 0 || y + rh <= old(bottom).height,
            rw <= top.width,
            rh <= top.height,
            forall|p: int, q: int|
                old(bottom).in_bounds(p, q)
                    ==> bottom.pix(p, q)
                        == (if q < y + j
                                && in_blend_region(*old(bottom), *top, x as int, y as int, p, q) {
                            overlay_pix(*old(bottom), *top, x as int, y as int, p, q)
                        } else {
                            old(bottom).pix(p, q)
                        }),
        decreases rh - j,
    {
        let mut i: u32 = 0;
        while i < rw
            invariant
                i <= rw,
                j < rh,
                bottom.wf(),
                bottom.same_dims(*old(bottom)),
                top.wf(),
                rw == clip_len(old(bottom).width as int, top.width as int, x as int),
                rh == clip_len(old(bottom).height as int, top.height as int, y as int),
                rw == 0 || x + rw <= old(bottom).width,
                rh == 0 || y + rh <= old(bottom).height,
                rw <= top.width,
                rh <= top.height,
                forall|p: int, q: int|
                    old(bottom).in_bounds(p, q)
                        ==> bottom.pix(p, q)
                            == (if (q < y + j || (q == y + j && p < x + i))
                                    && in_blend_region(*old(bottom), *top, x as int, y as int, p, q) {
                                overlay_pix(*old(bottom), *top, x as int, y as int, p, q)
                            } else {
                                old(bottom).pix(p, q)
                            }),
            decreases rw - i,
        {
            let tp = top.get_pixel(i, j);
            let bp = bottom.get_pixel(x + i, y + j);
            let blended = crate::pixel::blend_px(tp, bp);
            bottom.put_pixel(x + i, y + j, blended);
            i = i + 1;
        }
        j = j + 1;
    }
}

/// Composite the rectangle of `bottom` that starts at `(x, y)` *over*
/// `top`, writing the result into `bottom`: the mutable buffer supplies the
/// upper layer, so `top` shows only where `bottom` is not opaque. Parts of
/// `top` that fall outside `bottom` are silently discarded.
pub fn inverse_overlay(bottom: &mut Raster, top: &Raster, x: u32, y: u32)
    requires
        old(bottom).wf(),
        top.wf(),
    ensures
        final(bottom).wf(),
        final(bottom).same_dims(*old(bottom)),
        forall|i: int, j: int|
            old(bottom).in_bounds(i, j)
                ==> final(bottom).pix(i, j)
                    == inverse_overlay_pix(*old(bottom), *top, x as int, y as int, i, j),
{
    let rw: u32 = clip_extent(bottom.width, top.width, x);
    let rh: u32 = clip_extent(bottom.height, top.height, y);
    let mut j: u32 = 0;
    while j < rh
        invariant
            j <= rh,
            bottom.wf(),
            bottom.same_dims(*old(bottom)),
            top.wf(),
            rw == clip_len(old(bottom).width as int, top.width as int, x as int),
            rh == clip_len(old(bottom).height as int, top.height as int, y as int),
            rw == 0 || x + rw <= old(bottom).width,
            rh == 0 || y + rh <= old(bottom).height,
            rw <= top.width,
            rh <= top.height,
            forall|p: int, q: int|
                old(bottom).in_bounds(p, q)
                    ==> bottom.pix(p, q)
                        == (if q < y + j
                                && in_blend_region(*old(bottom), *top, x as int, y as int, p, q) {
                            inverse_overlay_pix(*old(bottom), *top, x as int, y as int, p, q)
                        } else {
                            old(bottom).pix(p, q)
                        }),
        decreases rh - j,
    {
        let mut i: u32 = 0;
        while i < rw
            invariant
                i <= rw,
                j < rh,
                bottom.wf(),
                bottom.same_dims(*old(bottom)),
                top.wf(),
                rw == clip_len(old(bottom).width as int, top.width as int, x as int),
                rh == clip_len(old(bottom).height as int, top.height as int, y as int),
                rw == 0 || x + rw <= old(bottom).width,
                rh == 0 || y + rh <= old(bottom).height,
                rw <= top.width,
                rh <= top.height,
                forall|p: int, q: int|
                    old(bottom).in_bounds(p, q)
                        ==> bottom.pix(p, q)
                            == (if (q < y + j || (q == y + j && p < x + i))
                                    && in_blend_region(*old(bottom), *top, x as int, y as int, p, q) {
                                inverse_overlay_pix(*old(bottom), *top, x as int, y as int, p, q)
                            } else {
                                old(bottom).pix(p, q)
                            }),
            decreases rw - i,
        {
            let tp = top.get_pixel(i, j);
            let bp = bottom.get_pixel(x + i, y + j);
            let blended = crate::pixel::blend_px(bp, tp);
            bottom.put_pixel(x + i, y + j, blended);
            i = i + 1;
        }
        j = j + 1;
    }
}

} // verus!
