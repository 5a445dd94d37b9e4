//! How the configured background is obtained: a solid color, or an image
//! file (rasterized directly when it is an SVG), with a solid fallback for
//! the bundled wallpaper, which may be missing outside the package.

use vstd::prelude::*;

use crate::config::BackgroundConfig;

verus! {

/// Where the background pixels come from.
#[derive(Clone, Debug)]
pub enum BackgroundPlan {
    /// Fill the screen with one opaque color.
    Solid { r: u8, g: u8, b: u8 },
    /// Load the image at `path`, rasterizing it as SVG when `svg` is set.
    /// When loading fails, `fallback` is the color to use instead; with no
    /// fallback the failure is an error.
    Image { path: String, svg: bool, fallback: Option<(u8, u8, u8)> },
}

/// The extension `Path::extension` reports for `path`: what follows the
/// last `.` of the file name, unless the name has no `.` or starts with its
/// only one.
pub uninterp spec fn path_extension(path: Seq<char>) -> Option<Seq<char>>;

/// Calls `Path::extension` on `path`; the result is named `path_extension`.
#[verifier::external_body]
fn file_extension(path: &str) -> (r: Option<String>)
    ensures
        crate::text::opt_chars(r) == path_extension(path@),
{
    match std::path::Path::new(path).extension() {
        Some(ext) => Some(ext.to_string_lossy().into_owned()),
        None => None,
    }
}

/// The ASCII lowercase of `c`; other characters as they are.
pub open spec fn ascii_lower(c: char) -> char {
    if 'A' <= c <= 'Z' {
        ((c as u32) + 32) as char
    } else {
        c
    }
}

/// `a` and `b` are equal up to ASCII case.
pub open spec fn eq_ignore_ascii_case(a: Seq<char>, b: Seq<char>) -> bool {
    a.len() == b.len() && forall|i: int| 0 <= i < a.len() ==> ascii_lower(a[i]) == ascii_lower(b[i])
}

/// Whether a file with extension `ext` is read as SVG.
pub open spec fn spec_is_svg_extension(ext: Option<Seq<char>>) -> bool {
    match ext {
        Some(e) => eq_ignore_ascii_case(e, "svg"@),
        None => false,
    }
}

fn lower(c: char) -> (r: char)
    ensures
        r == ascii_lower(c),
{
    if 'A' <= c && c <= 'Z' {
        ((c as u8) + 32) as char
    } else {
        c
    }
}

/// Whether a file with extension `ext` is an SVG: the extension is `svg` in
/// any ASCII case.
pub fn is_svg_extension(ext: Option<String>) -> (r: bool)
    ensures
        r == spec_is_svg_extension(crate::text::opt_chars(ext)),
{
    match ext {
        None => false,
        Some(e) => {
            let s = e.as_str();
            proof {
                reveal_strlit("svg");
            }
            if s.unicode_len() != 3 {
                return false;
            }
            let a = lower(s.get_char(0));
            let b = lower(s.get_char(1));
            let c = lower(s.get_char(2));
            let r = a == 's' && b == 'v' && c == 'g';
            proof {
                if r {
                    assert forall|i: int| 0 <= i < 3 implies ascii_lower(e@[i]) == ascii_lower(
                        "svg"@[i],
                    ) by {
                        if i == 0 {
                        } else if i == 1 {
                        } else {
                        }
                    }
                } else {
                    if eq_ignore_ascii_case(e@, "svg"@) {
                        assert(ascii_lower(e@[0]) == ascii_lower("svg"@[0]));
                        assert(ascii_lower(e@[1]) == ascii_lower("svg"@[1]));
                        assert(ascii_lower(e@[2]) == ascii_lower("svg"@[2]));
                    }
                }
            }
            r
        },
    }
}

/// Whether the file at `path` is read as an SVG.
pub fn is_svg_path(path: &String) -> (r: bool)
    ensures
        r == spec_is_svg_extension(path_extension(path@)),
{
    is_svg_extension(file_extension(path.as_str()))
}

/// The color behind the login card when the bundled wallpaper is missing.
pub open spec fn wallpaper_fallback() -> (u8, u8, u8) {
    (30u8, 34u8, 45u8)
}

/// How to obtain the background `cfg` asks for; `builtin` is the path of
/// the bundled wallpaper.
pub fn plan(cfg: &BackgroundConfig, builtin: &String) -> (r: BackgroundPlan)
    ensures
        match *cfg {
            BackgroundConfig::Color { r: cr, g: cg, b: cb } => r == BackgroundPlan::Solid {
                r: cr,
                g: cg,
                b: cb,
            },
            BackgroundConfig::Default => r matches BackgroundPlan::Image { path, svg, fallback }
                && path@ == builtin@ && svg == spec_is_svg_extension(path_extension(builtin@))
                && fallback == Some(wallpaper_fallback()),
            BackgroundConfig::Image { path: p } => r matches BackgroundPlan::Image {
                path,
                svg,
                fallback,
            } && path@ == p@ && svg == spec_is_svg_extension(path_extension(p@)) && fallback is None,
        },
{
    match cfg {
        BackgroundConfig::Color { r, g, b } => BackgroundPlan::Solid { r: *r, g: *g, b: *b },
        BackgroundConfig::Default => BackgroundPlan::Image {
            path: builtin.clone(),
            svg: is_svg_path(builtin),
            fallback: Some((30, 34, 45)),
        },
        BackgroundConfig::Image { path } => BackgroundPlan::Image {
            path: path.clone(),
            svg: is_svg_path(path),
            fallback: None,
        },
    }
}

/// A raster size of at least one pixel each way.
pub fn nonzero_size(width: u32, height: u32) -> (r: (u32, u32))
    ensures
        r.0 == (if width == 0 { 1 } else { width }),
        r.1 == (if height == 0 { 1 } else { height }),
{
    (if width == 0 { 1 } else { width }, if height == 0 { 1 } else { height })
}

/// The RGBA8 pixels (row by row, 4 bytes each) that the `image` crate
/// produces for the encoded raster `bytes` when it decodes them and scales
/// and crops them to cover `width x height`; `None` when it cannot decode
/// them.
pub uninterp spec fn decoded_cover(bytes: Seq<u8>, width: u32, height: u32) -> Option<Seq<u8>>;

/// Calls `image::load_from_memory`, then `DynamicImage::resize_to_fill`
/// with a Lanczos3 filter and `to_rgba8`; the pixels are named
/// `decoded_cover`. The buffer holds 4 bytes per pixel. That it holds
/// exactly `width * height` pixels is not stated: `resize_to_fill` sizes
/// its intermediate image with floating-point rounding and clamps it at
/// `u32::MAX`, so for extreme aspect ratios the crop can come out smaller.
#[verifier::external_body]
fn decode_cover(bytes: &[u8], width: u32, height: u32) -> (r: Option<Vec<u8>>)
    requires
        width > 0,
        height > 0,
    ensures
        match r {
            Some(px) => decoded_cover(bytes@, width, height) == Some(px@) && px@.len() % 4 == 0,
            None => decoded_cover(bytes@, width, height) is None,
        },
{
    match image::load_from_memory(bytes) {
        Ok(img) => Some(
            img.resize_to_fill(width, height, image::imageops::FilterType::Lanczos3).to_rgba8().into_raw(),
        ),
        Err(_) => None,
    }
}

/// `x`, or 1 when `x` is 0.
pub open spec fn at_least_one(x: u32) -> u32 {
    if x == 0 {
        1
    } else {
        x
    }
}

/// The four RGBA8 bytes of the opaque color `(r, g, b)`.
pub open spec fn opaque_pixel(r: u8, g: u8, b: u8) -> Seq<u8> {
    seq![r, g, b, 255u8]
}

/// The RGBA8 pixels, row by row, of a screen of `width x height` (at least
/// one pixel each way) filled with the opaque color `(r, g, b)`.
pub fn solid_pixels(r: u8, g: u8, b: u8, width: u32, height: u32) -> (px: Vec<u8>)
    requires
        4 * at_least_one(width) * at_least_one(height) <= usize::MAX,
    ensures
        px@.len() == 4 * at_least_one(width) * at_least_one(height),
        forall|i: int| 0 <= i < px@.len() ==> px@[i] == opaque_pixel(r, g, b)[i % 4],
{
    let (w, h) = nonzero_size(width, height);
    let ghost total: int = w * h;
    assert(w * h <= 4 * w * h && w <= w * h && 4 * w * h == 4 * (w * h)) by (nonlinear_arith)
        requires
            w >= 1,
            h >= 1,
    ;
    assert(w == at_least_one(width) && h == at_least_one(height));
    let n: usize = (w as usize) * (h as usize);
    let mut px: Vec<u8> = Vec::new();
    let mut k: usize = 0;
    while k < n
        invariant
            n == total,
            4 * total <= usize::MAX,
            k <= n,
            px@.len() == 4 * k,
            forall|i: int| 0 <= i < px@.len() ==> px@[i] == opaque_pixel(r, g, b)[i % 4],
        decreases n - k,
    {
        let ghost before = px@;
        px.push(r);
        px.push(g);
        px.push(b);
        px.push(255u8);
        proof {
            let base = 4 * k;
            assert forall|i: int| 0 <= i < px@.len() implies px@[i] == opaque_pixel(r, g, b)[i % 4] by {
                if i < base {
                    assert(px@[i] == before[i]);
                } else {
                    assert((i - base) == i % 4) by {
                        assert(i == 4 * (k as int) + (i - base));
                    }
                }
            }
        }
        k = k + 1;
    }
    px
}

/// Decodes the raster image `bytes` (PNG, JPEG, ...) and scales and crops it
/// to cover a screen of `width x height` (at least one pixel each way):
/// its RGBA8 pixels, or `None` when the bytes do not decode.
pub fn load_raster(bytes: &Vec<u8>, width: u32, height: u32) -> (r: Option<Vec<u8>>)
    ensures
        match r {
            Some(px) => decoded_cover(bytes@, at_least_one(width), at_least_one(height)) == Some(
                px@,
            ),
            None => decoded_cover(bytes@, at_least_one(width), at_least_one(height)) is None,
        },
        r matches Some(px) ==> px@.len() % 4 == 0,
{
    let (w, h) = nonzero_size(width, height);
    decode_cover(bytes.as_slice(), w, h)
}

} // verus!
