use framefill::analyzer::{calculate_transp, BBox};
use framefill::blend::{inverse_overlay, overlay};
use framefill::pixel::{blend_px, Pixel};
use framefill::place::{process_kid, CompositeError, Template};
use framefill::raster::Raster;
use framefill::resize::resize_to_fill;

fn px(r: u8, g: u8, b: u8, a: u8) -> Pixel {
    Pixel { r, g, b, a }
}

fn make_raster(width: u32, height: u32, f: impl Fn(u32, u32) -> Pixel) -> Raster {
    let mut data = Vec::new();
    for y in 0..height {
        for x in 0..width {
            data.push(f(x, y));
        }
    }
    Raster { width, height, data }
}

fn at(r: &Raster, x: u32, y: u32) -> Pixel {
    r.data[(y * r.width + x) as usize]
}

const WHITE: Pixel = Pixel { r: 255, g: 255, b: 255, a: 255 };
const RED: Pixel = Pixel { r: 255, g: 0, b: 0, a: 255 };
const CLEAR: Pixel = Pixel { r: 0, g: 0, b: 0, a: 0 };

/// Template of scenario use: opaque white with a fully transparent
/// rectangle x in [20, 80), y in [30, 70).
fn rect_hole_template() -> Raster {
    make_raster(100, 100, |x, y| {
        if (20..80).contains(&x) && (30..70).contains(&y) {
            CLEAR
        } else {
            WHITE
        }
    })
}

#[test]
fn blend_px_half_alpha_exact() {
    let f = px(255, 0, 0, 128);
    let b = px(0, 0, 255, 255);
    assert_eq!(blend_px(f, b), px(128, 0, 127, 255));
}

#[test]
fn blend_px_opaque_foreground_wins() {
    let f = px(10, 20, 30, 255);
    let b = px(200, 100, 50, 77);
    assert_eq!(blend_px(f, b), f);
}

#[test]
fn blend_px_transparent_foreground_keeps_background() {
    let f = px(10, 20, 30, 0);
    let b = px(200, 100, 50, 77);
    assert_eq!(blend_px(f, b), b);
}

#[test]
fn overlay_opaque_foreground_replaces_region() {
    let mut bottom = make_raster(4, 4, |_, _| WHITE);
    let top = make_raster(2, 2, |x, y| px((10 * x) as u8, (10 * y) as u8, 0, 255));
    overlay(&mut bottom, &top, 1, 1);
    for y in 0..4u32 {
        for x in 0..4u32 {
            if (1..3).contains(&x) && (1..3).contains(&y) {
                assert_eq!(at(&bottom, x, y), at(&top, x - 1, y - 1));
            } else {
                assert_eq!(at(&bottom, x, y), WHITE);
            }
        }
    }
}

#[test]
fn overlay_transparent_foreground_is_identity() {
    let mut bottom = make_raster(3, 3, |x, y| px(x as u8, y as u8, 7, 99));
    let before = bottom.data.clone();
    let top = make_raster(3, 3, |_, _| px(50, 60, 70, 0));
    overlay(&mut bottom, &top, 0, 0);
    assert_eq!(bottom.data, before);
}

#[test]
fn overlay_clips_against_bounds() {
    let mut bottom = make_raster(3, 3, |_, _| WHITE);
    let top = make_raster(5, 5, |x, y| px((x + 1) as u8, (y + 1) as u8, 9, 255));
    overlay(&mut bottom, &top, 2, 1);
    // Only x = 2, y in [1, 3) is covered; everything else is untouched.
    for y in 0..3u32 {
        for x in 0..3u32 {
            if x == 2 && (1..3).contains(&y) {
                assert_eq!(at(&bottom, x, y), at(&top, 0, y - 1));
            } else {
                assert_eq!(at(&bottom, x, y), WHITE);
            }
        }
    }
}

#[test]
fn overlay_equals_overlay_of_clipped_copy() {
    let pattern = |x: u32, y: u32| px((3 * x + 1) as u8, (5 * y + 2) as u8, 40, (60 + x + y) as u8);
    let top = make_raster(5, 5, pattern);
    // Clip of the 5x5 top placed at (1, 2) into a 3x3 bottom: 2 by 1 pixels.
    let clipped = make_raster(2, 1, pattern);

    let mut b1 = make_raster(3, 3, |x, y| px(100, x as u8, y as u8, 200));
    let mut b2 = make_raster(3, 3, |x, y| px(100, x as u8, y as u8, 200));
    overlay(&mut b1, &top, 1, 2);
    overlay(&mut b2, &clipped, 1, 2);
    assert_eq!(b1.data, b2.data);

    let mut b3 = make_raster(3, 3, |x, y| px(100, x as u8, y as u8, 200));
    let mut b4 = make_raster(3, 3, |x, y| px(100, x as u8, y as u8, 200));
    inverse_overlay(&mut b3, &top, 1, 2);
    inverse_overlay(&mut b4, &clipped, 1, 2);
    assert_eq!(b3.data, b4.data);
}

#[test]
fn inverse_overlay_fills_holes_and_keeps_art() {
    // Bottom: 2x1, left pixel transparent, right pixel opaque green.
    let green = px(0, 200, 0, 255);
    let mut bottom = make_raster(2, 1, |x, _| if x == 0 { CLEAR } else { green });
    let top = make_raster(2, 1, |_, _| RED);
    inverse_overlay(&mut bottom, &top, 0, 0);
    assert_eq!(at(&bottom, 0, 0), RED);
    assert_eq!(at(&bottom, 1, 0), green);
}

#[test]
fn analyzer_finds_rect_hole() {
    let t = rect_hole_template();
    let bb = calculate_transp(&t).expect("transparent region");
    assert_eq!(bb, BBox { min_x: 20, min_y: 30, max_x: 79, max_y: 69 });
}

#[test]
fn analyzer_single_antialiased_pixel() {
    let t = make_raster(10, 10, |x, y| {
        if x == 5 && y == 5 {
            px(0, 0, 0, 128)
        } else {
            px(0, 0, 0, 255)
        }
    });
    let bb = calculate_transp(&t).expect("one soft pixel");
    assert_eq!(bb, BBox { min_x: 5, min_y: 5, max_x: 5, max_y: 5 });
}

#[test]
fn analyzer_fully_opaque_is_empty() {
    let t = make_raster(10, 10, |_, _| WHITE);
    assert_eq!(calculate_transp(&t), None);
}

#[test]
fn analyzer_edge_tightness() {
    // Non-opaque pixels at two corners; the box must span exactly both.
    let t = make_raster(7, 5, |x, y| {
        if (x == 1 && y == 3) || (x == 5 && y == 1) {
            px(0, 0, 0, 254)
        } else {
            WHITE
        }
    });
    let bb = calculate_transp(&t).expect("two soft pixels");
    assert_eq!(bb, BBox { min_x: 1, min_y: 1, max_x: 5, max_y: 3 });
}

#[test]
fn resize_to_fill_exact_dimensions() {
    let s = make_raster(10, 10, |_, _| px(100, 150, 200, 255));
    let out = resize_to_fill(&s, 60, 40).expect("resizable");
    assert_eq!(out.width, 60);
    assert_eq!(out.height, 40);
    assert_eq!(out.data.len(), 60 * 40);
    for p in &out.data {
        assert_eq!(p.a, 255);
    }
}

#[test]
fn resize_to_fill_rejects_zero_target() {
    let s = make_raster(10, 10, |_, _| WHITE);
    assert!(resize_to_fill(&s, 0, 40).is_none());
    assert!(resize_to_fill(&s, 60, 0).is_none());
}

#[test]
fn resize_to_fill_rejects_empty_source() {
    let s = Raster { width: 0, height: 0, data: Vec::new() };
    assert!(resize_to_fill(&s, 60, 40).is_none());
}

#[test]
fn resize_to_fill_center_crops_wide_gradient() {
    // Horizontal red-to-blue gradient, twice as wide as tall.
    let s = make_raster(400, 200, |x, _| {
        let t = (x * 255 / 399) as u8;
        px(255 - t, 0, t, 255)
    });
    let out = resize_to_fill(&s, 59, 39).expect("resizable");
    assert_eq!((out.width, out.height), (59, 39));
    let left = at(&out, 0, 20);
    let right = at(&out, 58, 20);
    // The gradient survives: redder on the left, bluer on the right.
    assert!(left.r > right.r);
    assert!(right.b > left.b);
    // Center crop keeps the middle band: the edges of the output are well
    // inside the gradient, away from the pure end colors.
    assert!(left.b > 20);
    assert!(right.r > 20);
}

#[test]
fn process_kid_rect_hole_composites_red_center() {
    let mut template = Template::new(rect_hole_template());
    let mut kid = make_raster(40, 40, |_, _| RED);
    process_kid(&mut kid, &mut template).expect("composite");

    // The subject was resized to the box extent: 79-20 by 69-30.
    assert_eq!((kid.width, kid.height), (59, 39));

    let out = &template.image;
    // Inside the blended region the hole shows the (solid red) subject.
    for &(x, y) in &[(20, 30), (50, 50), (78, 68)] {
        let p = at(out, x, y);
        assert_eq!(p.a, 255);
        assert!(p.r > 250 && p.g < 5 && p.b < 5);
    }
    // Outside the bounding box the artwork is untouched white.
    for &(x, y) in &[(0, 0), (19, 30), (50, 10), (99, 99)] {
        assert_eq!(at(out, x, y), WHITE);
    }
    // The last hole column and row lie outside the blend extent and stay
    // transparent (the box extent is max minus min).
    assert_eq!(at(out, 79, 50).a, 0);
    assert_eq!(at(out, 50, 69).a, 0);
}

#[test]
fn process_kid_upscales_small_subject() {
    // Hole x in [20, 81), y in [30, 71): box (20,30)-(80,70), extent 60x40.
    let template_raster = make_raster(100, 100, |x, y| {
        if (20..81).contains(&x) && (30..71).contains(&y) {
            CLEAR
        } else {
            WHITE
        }
    });
    let mut template = Template::new(template_raster);
    let mut kid = make_raster(10, 10, |_, _| px(30, 90, 160, 255));
    process_kid(&mut kid, &mut template).expect("composite");
    assert_eq!((kid.width, kid.height), (60, 40));
    // No transparent pixel inside the filled extent.
    for y in 30..70u32 {
        for x in 20..80u32 {
            assert_eq!(at(&template.image, x, y).a, 255);
        }
    }
}

#[test]
fn process_kid_blends_soft_edge() {
    // A one-pixel anti-aliased ring (alpha 128) around a transparent core.
    let template_raster = make_raster(10, 10, |x, y| {
        if (4..6).contains(&x) && (4..6).contains(&y) {
            CLEAR
        } else if (3..7).contains(&x) && (3..7).contains(&y) {
            px(255, 255, 255, 128)
        } else {
            WHITE
        }
    });
    let mut template = Template::new(template_raster);
    let mut kid = make_raster(8, 8, |_, _| RED);
    process_kid(&mut kid, &mut template).expect("composite");
    let out = &template.image;

    // Core: pure subject red.
    let core = at(out, 4, 4);
    assert_eq!(core.a, 255);
    assert!(core.r > 250 && core.g < 5);
    // Ring: a genuine mix of white artwork over red subject, no hard seam.
    let ring = at(out, 3, 3);
    assert_eq!(ring.a, 255);
    assert!(ring.r > 250);
    assert!(ring.g > 100 && ring.g < 160);
    assert!(ring.b > 100 && ring.b < 160);
    // Outside: untouched opaque white.
    assert_eq!(at(out, 0, 0), WHITE);
}

#[test]
fn process_kid_reports_fully_opaque_template() {
    let mut template = Template::new(make_raster(10, 10, |_, _| WHITE));
    assert_eq!(template.transparency, None);
    let before = template.image.data.clone();
    let mut kid = make_raster(4, 4, |_, _| RED);
    let kid_before = kid.data.clone();
    assert_eq!(
        process_kid(&mut kid, &mut template),
        Err(CompositeError::NoTransparentRegion)
    );
    assert_eq!(template.image.data, before);
    assert_eq!(kid.data, kid_before);
}

#[test]
fn process_kid_reports_zero_area_box() {
    let template_raster = make_raster(10, 10, |x, y| {
        if x == 5 && y == 5 {
            px(0, 0, 0, 128)
        } else {
            px(0, 0, 0, 255)
        }
    });
    let mut template = Template::new(template_raster);
    let before = template.image.data.clone();
    let mut kid = make_raster(4, 4, |_, _| RED);
    assert_eq!(
        process_kid(&mut kid, &mut template),
        Err(CompositeError::DegenerateBox)
    );
    assert_eq!(template.image.data, before);
    assert_eq!(kid.width, 4);
}

#[test]
fn process_kid_reports_empty_subject() {
    let mut template = Template::new(rect_hole_template());
    let mut kid = Raster { width: 0, height: 0, data: Vec::new() };
    assert_eq!(
        process_kid(&mut kid, &mut template),
        Err(CompositeError::UnresizableSubject)
    );
    assert_eq!(kid.width, 0);
}

#[test]
fn template_new_caches_analyzer_box() {
    let raster = rect_hole_template();
    let expected = calculate_transp(&raster);
    let template = Template::new(raster);
    assert_eq!(template.transparency, expected);
    assert_eq!(
        template.transparency,
        Some(BBox { min_x: 20, min_y: 30, max_x: 79, max_y: 69 })
    );
}
