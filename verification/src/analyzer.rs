//! Detecting a template's transparent region: the axis-aligned bounding box
//! of every pixel whose alpha is not fully opaque.

use vstd::prelude::*;
use crate::raster::Raster;

verus! {

/// An axis-aligned bounding box with inclusive corners.
#[derive(Clone, Copy, PartialEq, Eq, Structural, Debug)]
pub struct BBox {
    pub min_x: u32,
    pub min_y: u32,
    pub max_x: u32,
    pub max_y: u32,
}

impl BBox {
    /// The corners are ordered on both axes.
    pub open spec fn wf(self) -> bool {
        self.min_x <= self.max_x && self.min_y <= self.max_y
    }
}

/// The pixel of `img` at `(x, y)` is not fully opaque. Any alpha other than
/// 255 qualifies — anti-aliased edges, where alpha lies strictly between 0
/// and 255, belong to the transparent region.
pub open spec fn non_opaque(img: Raster, x: int, y: int) -> bool {
    img.pix(x, y).a != 255
}

/// Every pixel of `img` is fully opaque.
pub open spec fn all_opaque(img: Raster) -> bool {
    forall|x: int, y: int| img.in_bounds(x, y) ==> img.pix(x, y).a == 255
}

/// `bb` is the bounding box of the non-opaque pixels of `img`: it lies
/// inside `img`, it contains every non-opaque pixel, and each of its four
/// edges carries at least one non-opaque pixel (tightness).
pub open spec fn is_transp_box(img: Raster, bb: BBox) -> bool {
    &&& bb.wf()
    &&& img.in_bounds(bb.max_x as int, bb.max_y as int)
    &&& forall|x: int, y: int|
        img.in_bounds(x, y) && non_opaque(img, x, y)
            ==> bb.min_x <= x <= bb.max_x && bb.min_y <= y <= bb.max_y
    &&& exists|y: int| img.in_bounds(bb.min_x as int, y) && non_opaque(img, bb.min_x as int, y)
    &&& exists|y: int| img.in_bounds(bb.max_x as int, y) && non_opaque(img, bb.max_x as int, y)
    &&& exists|x: int| img.in_bounds(x, bb.min_y as int) && non_opaque(img, x, bb.min_y as int)
    &&& exists|x: int| img.in_bounds(x, bb.max_y as int) && non_opaque(img, x, bb.max_y as int)
}

/// `(p, q)` lies before the scan frontier `(fx, fy)` of a row-major,
/// top-to-bottom scan of `img`.
pub open spec fn scanned(img: Raster, fx: int, fy: int, p: int, q: int) -> bool {
    img.in_bounds(p, q) && (q < fy || (q == fy && p < fx))
}

/// Every pixel before the frontier is fully opaque.
spec fn opaque_upto(img: Raster, fx: int, fy: int) -> bool {
    forall|p: int, q: int| scanned(img, fx, fy, p, q) ==> img.pix(p, q).a == 255
}

/// `bb` is the bounding box of the non-opaque pixels before the frontier.
spec fn box_upto(img: Raster, bb: BBox, fx: int, fy: int) -> bool {
    &&& bb.wf()
    &&& img.in_bounds(bb.max_x as int, bb.max_y as int)
    &&& forall|p: int, q: int|
        scanned(img, fx, fy, p, q) && non_opaque(img, p, q)
            ==> bb.min_x <= p <= bb.max_x && bb.min_y <= q <= bb.max_y
    &&& exists|q: int| scanned(img, fx, fy, bb.min_x as int, q) && non_opaque(img, bb.min_x as int, q)
    &&& exists|q: int| scanned(img, fx, fy, bb.max_x as int, q) && non_opaque(img, bb.max_x as int, q)
    &&& exists|p: int| scanned(img, fx, fy, p, bb.min_y as int) && non_opaque(img, p, bb.min_y as int)
    &&& exists|p: int| scanned(img, fx, fy, p, bb.max_y as int) && non_opaque(img, p, bb.max_y as int)
}

/// Scan every pixel of `img` once and return the bounding box of those whose
/// alpha is not 255, or `None` when every pixel is fully opaque.
pub fn calculate_transp(img: &Raster) -> (r: Option<BBox>)
    requires
        img.wf(),
    ensures
        match r {
            None => all_opaque(*img),
            Some(bb) => is_transp_box(*img, bb),
        },
{
    let mut cur: Option<BBox> = None;
    let mut y: u32 = 0;
    while y < img.height
        invariant
            img.wf(),
            y <= img.height,
            match cur {
                None => opaque_upto(*img, 0, y as int),
                Some(bb) => box_upto(*img, bb, 0, y as int),
            },
        decreases img.height - y,
    {
        let mut x: u32 = 0;
        while x < img.width
            invariant
                img.wf(),
                y < img.height,
                x <= img.width,
                match cur {
                    None => opaque_upto(*img, x as int, y as int),
                    Some(bb) => box_upto(*img, bb, x as int, y as int),
                },
            decreases img.width - x,
        {
            let alpha = img.get_pixel(x, y).a;
            let ghost prev = cur;
            if alpha != 255 {
                cur = match cur {
                    None => Some(BBox { min_x: x, min_y: y, max_x: x, max_y: y }),
                    Some(bb) => Some(BBox {
                        min_x: if x < bb.min_x { x } else { bb.min_x },
                        min_y: if y < bb.min_y { y } else { bb.min_y },
                        max_x: if x > bb.max_x { x } else { bb.max_x },
                        max_y: if y > bb.max_y { y } else { bb.max_y },
                    }),
                };
            }
            proof {
                let fx = x as int + 1;
                let fy = y as int;
                let xi = x as int;
                let yi = y as int;
                match (prev, cur) {
                    (None, None) => {
                        assert forall|p: int, q: int| scanned(*img, fx, fy, p, q)
                            implies img.pix(p, q).a == 255 by {
                            if scanned(*img, xi, yi, p, q) {
                            } else {
                                assert(p == xi && q == yi);
                            }
                        }
                    },
                    (None, Some(bb)) => {
                        assert forall|p: int, q: int|
                            scanned(*img, fx, fy, p, q) && non_opaque(*img, p, q)
                                implies bb.min_x <= p <= bb.max_x && bb.min_y <= q <= bb.max_y by {
                            if scanned(*img, xi, yi, p, q) {
                                assert(img.pix(p, q).a == 255);
                            } else {
                                assert(p == xi && q == yi);
                            }
                        }
                        assert(scanned(*img, fx, fy, xi, yi) && non_opaque(*img, xi, yi));
                        assert(box_upto(*img, bb, fx, fy));
                    },
                    (Some(ob), Some(bb)) => {
                        assert forall|p: int, q: int|
                            scanned(*img, fx, fy, p, q) && non_opaque(*img, p, q)
                                implies bb.min_x <= p <= bb.max_x && bb.min_y <= q <= bb.max_y by {
                            if scanned(*img, xi, yi, p, q) {
                            } else {
                                assert(p == xi && q == yi);
                            }
                        }
                        if alpha != 255 {
                            assert(scanned(*img, fx, fy, xi, yi) && non_opaque(*img, xi, yi));
                        }
                        if alpha != 255 && x < ob.min_x {
                        } else {
                            let wq = choose|q: int|
                                scanned(*img, xi, yi, ob.min_x as int, q)
                                    && non_opaque(*img, ob.min_x as int, q);
                            assert(scanned(*img, fx, fy, ob.min_x as int, wq));
                        }
                        if alpha != 255 && x > ob.max_x {
                        } else {
                            let wq = choose|q: int|
                                scanned(*img, xi, yi, ob.max_x as int, q)
                                    && non_opaque(*img, ob.max_x as int, q);
                            assert(scanned(*img, fx, fy, ob.max_x as int, wq));
                        }
                        if alpha != 255 && y < ob.min_y {
                        } else {
                            let wp = choose|p: int|
                                scanned(*img, xi, yi, p, ob.min_y as int)
                                    && non_opaque(*img, p, ob.min_y as int);
                            assert(scanned(*img, fx, fy, wp, ob.min_y as int));
                        }
                        if alpha != 255 && y > ob.max_y {
                        } else {
                            let wp = choose|p: int|
                                scanned(*img, xi, yi, p, ob.max_y as int)
                                    && non_opaque(*img, p, ob.max_y as int);
                            assert(scanned(*img, fx, fy, wp, ob.max_y as int));
                        }
                        assert(box_upto(*img, bb, fx, fy));
                    },
                    (Some(_), None) => {
                        assert(false);
                    },
                }
            }
            x = x + 1;
        }
        proof {
            let w = img.width as int;
            let fy = y as int;
            let fy1 = y as int + 1;
            match cur {
                None => {
                    assert forall|p: int, q: int| scanned(*img, 0, fy1, p, q)
                        implies img.pix(p, q).a == 255 by {
                        assert(scanned(*img, w, fy, p, q));
                    }
                },
                Some(bb) => {
                    assert forall|p: int, q: int|
                        scanned(*img, 0, fy1, p, q) && non_opaque(*img, p, q)
                            implies bb.min_x <= p <= bb.max_x && bb.min_y <= q <= bb.max_y by {
                        assert(scanned(*img, w, fy, p, q));
                    }
                    let q1 = choose|q: int|
                        scanned(*img, w, fy, bb.min_x as int, q) && non_opaque(*img, bb.min_x as int, q);
                    assert(scanned(*img, 0, fy1, bb.min_x as int, q1));
                    let q2 = choose|q: int|
                        scanned(*img, w, fy, bb.max_x as int, q) && non_opaque(*img, bb.max_x as int, q);
                    assert(scanned(*img, 0, fy1, bb.max_x as int, q2));
                    let p1 = choose|p: int|
                        scanned(*img, w, fy, p, bb.min_y as int) && non_opaque(*img, p, bb.min_y as int);
                    assert(scanned(*img, 0, fy1, p1, bb.min_y as int));
                    let p2 = choose|p: int|
                        scanned(*img, w, fy, p, bb.max_y as int) && non_opaque(*img, p, bb.max_y as int);
                    assert(scanned(*img, 0, fy1, p2, bb.max_y as int));
                    assert(box_upto(*img, bb, 0, fy1));
                },
            }
        }
        y = y + 1;
    }
    proof {
        let h = img.height as int;
        match cur {
            None => {
                assert forall|p: int, q: int| img.in_bounds(p, q)
                    implies img.pix(p, q).a == 255 by {
                    assert(scanned(*img, 0, h, p, q));
                }
            },
            Some(bb) => {
                assert forall|p: int, q: int|
                    img.in_bounds(p, q) && non_opaque(*img, p, q)
                        implies bb.min_x <= p <= bb.max_x && bb.min_y <= q <= bb.max_y by {
                    assert(scanned(*img, 0, h, p, q));
                }
                let q1 = choose|q: int|
                    scanned(*img, 0, h, bb.min_x as int, q) && non_opaque(*img, bb.min_x as int, q);
                assert(img.in_bounds(bb.min_x as int, q1) && non_opaque(*img, bb.min_x as int, q1));
                let q2 = choose|q: int|
                    scanned(*img, 0, h, bb.max_x as int, q) && non_opaque(*img, bb.max_x as int, q);
                assert(img.in_bounds(bb.max_x as int, q2) && non_opaque(*img, bb.max_x as int, q2));
                let p1 = choose|p: int|
                    scanned(*img, 0, h, p, bb.min_y as int) && non_opaque(*img, p, bb.min_y as int);
                assert(img.in_bounds(p1, bb.min_y as int) && non_opaque(*img, p1, bb.min_y as int));
                let p2 = choose|p: int|
                    scanned(*img, 0, h, p, bb.max_y as int) && non_opaque(*img, p, bb.max_y as int);
                assert(img.in_bounds(p2, bb.max_y as int) && non_opaque(*img, p2, bb.max_y as int));
                assert(is_transp_box(*img, bb));
            },
        }
    }
    cur
}

} // verus!
