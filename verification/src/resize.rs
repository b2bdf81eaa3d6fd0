//! Resize-to-fill of a subject raster: aspect-preserving scaling with a
//! Gaussian filter, center-cropped so the output covers the target exactly.

use vstd::prelude::*;
use crate::pixel::Pixel;
use crate::raster::Raster;

verus! {

/// The pixels of the resize-to-fill of a `sw`-by-`sh` source to exactly
/// `tw`-by-`th`, row-major: the source scaled by the larger of the two
/// ratios with a Gaussian filter, then center-cropped on the oversize axis.
/// The result depends only on the source pixels and the four dimensions.
pub uninterp spec fn gaussian_fill_of(src: Seq<Pixel>, sw: int, sh: int, tw: int, th: int) -> Seq<Pixel>;

/// The resampler can produce a `tw`-by-`th` fill from `src`: the source is
/// not empty, and neither intermediate dimension (source scaled by the larger
/// ratio) overflows the resampler's `u32` coordinate space.
pub open spec fn fill_target_ok(src: Raster, tw: int, th: int) -> bool {
    &&& src.width >= 1
    &&& src.height >= 1
    &&& tw * src.height <= (u32::MAX - 1) * src.width
    &&& th * src.width <= (u32::MAX - 1) * src.height
}

/// Relies on image::DynamicImage::resize_to_fill with the Gaussian filter:
/// it preserves the aspect ratio, scales to cover both bounds, center-crops
/// the oversize axis, and returns a raster of exactly the requested
/// dimensions; the pixels depend only on the source pixels and the
/// dimensions. The preconditions keep its internal `u32` dimension
/// arithmetic away from its clamping fallback, so the requested size is met
/// exactly.
#[verifier::external_body]
fn resize_to_fill_gaussian(img: &Raster, tw: u32, th: u32) -> (r: Raster)
    requires
        img.wf(),
        tw >= 1,
        th >= 1,
        fill_target_ok(*img, tw as int, th as int),
    ensures
        r.wf(),
        r.width == tw,
        r.height == th,
        r.data@ == gaussian_fill_of(img.data@, img.width as int, img.height as int, tw as int, th as int),
{
    let mut bytes: Vec<u8> = Vec::with_capacity(img.data.len() * 4);
    for p in img.data.iter() {
        bytes.extend_from_slice(&[p.r, p.g, p.b, p.a]);
    }
    let buf = image::RgbaImage::from_raw(img.width, img.height, bytes).unwrap();
    let out = image::DynamicImage::ImageRgba8(buf)
        .resize_to_fill(tw, th, image::imageops::FilterType::Gaussian)
        .into_rgba8();
    let (width, height) = out.dimensions();
    let data = out
        .into_raw()
        .chunks_exact(4)
        .map(|c| Pixel { r: c[0], g: c[1], b: c[2], a: c[3] })
        .collect();
    Raster { width, height, data }
}

/// Resize `src` to exactly `tw` by `th` with resize-to-fill semantics, or
/// `None` when the target has a zero side or `src` is beyond what the
/// resampler supports (empty, or of so extreme an aspect ratio that the
/// intermediate dimensions would overflow `u32`).
pub fn resize_to_fill(src: &Raster, tw: u32, th: u32) -> (r: Option<Raster>)
    requires
        src.wf(),
    ensures
        match r {
            Some(out) => {
                &&& tw >= 1 && th >= 1
                &&& fill_target_ok(*src, tw as int, th as int)
                &&& out.wf()
                &&& out.width == tw
                &&& out.height == th
                &&& out.data@ == gaussian_fill_of(src.data@, src.width as int, src.height as int, tw as int, th as int)
            },
            None => !(tw >= 1 && th >= 1 && fill_target_ok(*src, tw as int, th as int)),
        },
{
    if tw < 1 || th < 1 || src.width < 1 || src.height < 1 {
        return None;
    }
    proof {
        assert(tw * src.height <= 0xffff_ffff * 0xffff_ffff
            && th * src.width <= 0xffff_ffff * 0xffff_ffff
            && 0xffff_fffe * src.width <= 0xffff_fffe * 0xffff_ffff
            && 0xffff_fffe * src.height <= 0xffff_fffe * 0xffff_ffff) by (nonlinear_arith)
            requires
                tw <= 0xffff_ffff,
                th <= 0xffff_ffff,
                src.width <= 0xffff_ffff,
                src.height <= 0xffff_ffff,
        ;
    }
    let lim: u64 = (u32::MAX as u64) - 1;
    if (tw as u64) * (src.height as u64) > lim * (src.width as u64) {
        return None;
    }
    if (th as u64) * (src.width as u64) > lim * (src.height as u64) {
        return None;
    }
    Some(resize_to_fill_gaussian(src, tw, th))
}

} // verus!
