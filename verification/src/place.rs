//! Subject placement: resize a subject to a template's transparent region
//! and composite it beneath the template's artwork.

use vstd::prelude::*;
use crate::analyzer::{all_opaque, calculate_transp, is_transp_box, BBox};
use crate::blend::{inverse_overlay, inverse_overlay_pix};
use crate::raster::Raster;
use crate::resize::{fill_target_ok, gaussian_fill_of, resize_to_fill};

verus! {

/// Why a (template, subject) work unit was skipped.
#[derive(Clone, Copy, PartialEq, Eq, Structural, Debug)]
pub enum CompositeError {
    /// The template has no non-opaque pixel: there is no region to fill.
    NoTransparentRegion,
    /// The transparent region's bounding box has zero width or height.
    DegenerateBox,
    /// The subject cannot be resized to the target: it is empty, or its
    /// aspect ratio is so extreme that the resampler's intermediate
    /// dimensions would overflow its `u32` coordinate space.
    UnresizableSubject,
}

/// A template raster together with the cached bounding box of its
/// transparent region (`None` when the template is fully opaque).
pub struct Template {
    pub image: Raster,
    pub transparency: Option<BBox>,
}

impl Template {
    /// The raster is well-formed and the cached box, if any, lies inside it.
    pub open spec fn wf(self) -> bool {
        &&& self.image.wf()
        &&& match self.transparency {
            None => true,
            Some(bb) => bb.wf() && self.image.in_bounds(bb.max_x as int, bb.max_y as int),
        }
    }

    /// Width of the region the subject must fill: the cached box's
    /// horizontal extent, `max_x - min_x`.
    pub open spec fn target_width(self) -> int {
        match self.transparency {
            None => 0,
            Some(bb) => bb.max_x - bb.min_x,
        }
    }

    /// Height of the region the subject must fill: the cached box's
    /// vertical extent, `max_y - min_y`.
    pub open spec fn target_height(self) -> int {
        match self.transparency {
            None => 0,
            Some(bb) => bb.max_y - bb.min_y,
        }
    }

    /// Analyze `image` once and cache the bounding box of its transparent
    /// region.
    pub fn new(image: Raster) -> (t: Template)
        requires
            image.wf(),
        ensures
            t.wf(),
            t.image == image,
            match t.transparency {
                None => all_opaque(image),
                Some(bb) => is_transp_box(image, bb),
            },
    {
        let transparency = calculate_transp(&image);
        Template { image, transparency }
    }
}

/// A completed placement: the subject was resized to the box's extent and
/// composited beneath the template's artwork at the box's corner.
pub open spec fn placed(kid0: Raster, t0: Template, kid1: Raster, t1: Template) -> bool {
    &&& t0.transparency is Some
    &&& {
        let bb = t0.transparency->Some_0;
        &&& kid1.wf()
        &&& kid1.width == t0.target_width()
        &&& kid1.height == t0.target_height()
        &&& kid1.data@ == gaussian_fill_of(
            kid0.data@,
            kid0.width as int,
            kid0.height as int,
            t0.target_width(),
            t0.target_height(),
        )
        &&& t1.transparency == t0.transparency
        &&& t1.image.same_dims(t0.image)
        &&& forall|i: int, j: int|
            t0.image.in_bounds(i, j)
                ==> t1.image.pix(i, j)
                    == inverse_overlay_pix(t0.image, kid1, bb.min_x as int, bb.min_y as int, i, j)
    }
}

/// Resize the subject `kid` to the extent of the template's transparent
/// region and composite it beneath the template's artwork, mutating both
/// rasters. A degenerate template or an unresizable subject is reported and
/// leaves both inputs unchanged.
pub fn process_kid(kid: &mut Raster, template: &mut Template) -> (res: Result<(), CompositeError>)
    requires
        old(kid).wf(),
        old(template).wf(),
    ensures
        final(kid).wf(),
        final(template).wf(),
        match res {
            Ok(()) => placed(*old(kid), *old(template), *final(kid), *final(template)),
            Err(e) => {
                &&& *final(kid) == *old(kid)
                &&& *final(template) == *old(template)
                &&& match e {
                    CompositeError::NoTransparentRegion => old(template).transparency is None,
                    CompositeError::DegenerateBox => {
                        &&& old(template).transparency is Some
                        &&& (old(template).target_width() == 0 || old(template).target_height() == 0)
                    },
                    CompositeError::UnresizableSubject => {
                        &&& old(template).transparency is Some
                        &&& old(template).target_width() > 0
                        &&& old(template).target_height() > 0
                        &&& !fill_target_ok(
                            *old(kid),
                            old(template).target_width(),
                            old(template).target_height(),
                        )
                    },
                }
            },
        },
{
    let bb = match template.transparency {
        None => {
            return Err(CompositeError::NoTransparentRegion);
        },
        Some(bb) => bb,
    };
    let tw: u32 = bb.max_x - bb.min_x;
    let th: u32 = bb.max_y - bb.min_y;
    if tw == 0 || th == 0 {
        return Err(CompositeError::DegenerateBox);
    }
    match resize_to_fill(kid, tw, th) {
        None => Err(CompositeError::UnresizableSubject),
        Some(resized) => {
            *kid = resized;
            inverse_overlay(&mut template.image, kid, bb.min_x, bb.min_y);
            Ok(())
        },
    }
}

} // verus!
