use crate::icon_manager::icon::{overlay_pixel, overlay_pixel_spec, resolution_for, resolution_spec, Icon};
use crate::icon_manager::rsrc::rsrc_spec;
use vstd::prelude::*;

verus! {

/// The width, height and RGBA pixels (row by row, four bytes a pixel) of the
/// image that `bytes` hold, as `image::ImageReader` with a guessed format
/// decodes it and `to_rgba8` converts it; `None` when it cannot be decoded.
pub uninterp spec fn decoded_rgba_of(bytes: Seq<u8>) -> Option<(u32, u32, Seq<u8>)>;

/// The RGBA image of `width` by `height` pixels `rgba`, scaled with
/// `DynamicImage::resize` and the nearest-pixel filter to the largest size
/// that fits in a square of `side` and keeps its proportions: its width,
/// height and pixels, the image read from the first `width * height * 4`
/// bytes of `rgba` (`RgbaImage::from_raw` accepts more); `None` when `rgba`
/// holds fewer.
pub uninterp spec fn resized_fit_of(width: u32, height: u32, rgba: Seq<u8>, side: u32) -> Option<(u32, u32, Seq<u8>)>;

/// The RGBA image of `width` by `height` pixels `base` with the square RGBA
/// image of `side` a side `top` drawn over its top-left corner by
/// `imageops::overlay`, each image read from the first bytes that its size
/// calls for (`RgbaImage::from_raw` accepts more, and the result keeps the
/// bytes of `base` past them); `None` when either holds fewer.
pub uninterp spec fn overlaid_of(width: u32, height: u32, base: Seq<u8>, top: Seq<u8>, side: u32) -> Option<Seq<u8>>;

/// The icns file that `icns` writes for an icon family holding the RGBA
/// image of `width` by `height` pixels `rgba`; `None` when the pixels do
/// not fit the size or no icon type has that size.
pub uninterp spec fn icns_of(width: u32, height: u32, rgba: Seq<u8>) -> Option<Seq<u8>>;

/// Decodes an image with `image::ImageReader` and converts it to RGBA.
/// Trusted: the result is what `decoded_rgba_of` names for the bytes.
#[verifier::external_body]
fn decode_rgba(bytes: &[u8]) -> (res: Option<(u32, u32, Vec<u8>)>)
    ensures
        match res {
            Some((w, h, px)) => decoded_rgba_of(bytes@) == Some((w, h, px@)),
            None => decoded_rgba_of(bytes@) is None,
        },
{
    let image = image::ImageReader::new(std::io::Cursor::new(bytes)).with_guessed_format().ok()?.decode().ok()?;
    let rgba = image.to_rgba8();
    Some((rgba.width(), rgba.height(), rgba.into_raw()))
}

/// Scales an RGBA image with `DynamicImage::resize` and the nearest filter.
/// Trusted: the result is what `resized_fit_of` names for these arguments.
#[verifier::external_body]
fn resize_fit(width: u32, height: u32, rgba: &Vec<u8>, side: u32) -> (res: Option<(u32, u32, Vec<u8>)>)
    requires
        width > 0,
        height > 0,
        side > 0,
    ensures
        match res {
            Some((w, h, px)) => resized_fit_of(width, height, rgba@, side) == Some((w, h, px@)),
            None => resized_fit_of(width, height, rgba@, side) is None,
        },
{
    let buffer = image::RgbaImage::from_raw(width, height, rgba.clone())?;
    let scaled = image::DynamicImage::ImageRgba8(buffer).resize(side, side, image::imageops::FilterType::Nearest);
    let out = scaled.to_rgba8();
    Some((out.width(), out.height(), out.into_raw()))
}

/// Draws a square RGBA image over an RGBA image with `imageops::overlay`.
/// Trusted: the result is what `overlaid_of` names for these arguments.
#[verifier::external_body]
fn overlay_rgba(width: u32, height: u32, base: &Vec<u8>, top: &Vec<u8>, side: u32) -> (res: Option<Vec<u8>>)
    ensures
        match res {
            Some(px) => overlaid_of(width, height, base@, top@, side) == Some(px@),
            None => overlaid_of(width, height, base@, top@, side) is None,
        },
{
    let mut bottom = image::RgbaImage::from_raw(width, height, base.clone())?;
    let over = image::RgbaImage::from_raw(side, side, top.clone())?;
    image::imageops::overlay(&mut bottom, &over, 0, 0);
    Some(bottom.into_raw())
}

/// Writes an icns file holding one RGBA image with `icns::IconFamily`.
/// Trusted: the result is what `icns_of` names for these arguments.
#[verifier::external_body]
fn icns_image(width: u32, height: u32, rgba: &Vec<u8>) -> (res: Option<Vec<u8>>)
    ensures
        match res {
            Some(file) => icns_of(width, height, rgba@) == Some(file@),
            None => icns_of(width, height, rgba@) is None,
        },
{
    let image = icns::Image::from_data(icns::PixelFormat::RGBA, width, height, rgba.clone()).ok()?;
    let mut family = icns::IconFamily::new();
    family.add_icon(&image).ok()?;
    let mut file = Vec::new();
    family.write(&mut file).ok()?;
    Some(file)
}

/// The RGBA bytes of the first `n` pixels of the checkerboard of `side` a
/// side, row by row: pixel `p` stands at column `p % side`, row `p / side`.
pub open spec fn checkerboard_spec(side: u32, n: nat) -> Seq<u8>
    decreases n,
{
    if n == 0 {
        Seq::empty()
    } else {
        let p = (n - 1) as int;
        checkerboard_spec(side, (n - 1) as nat) + overlay_pixel_spec((p % side as int) as u32, (p / side as int) as u32)@
    }
}

/// The whole checkerboard of `side` a side.
fn checkerboard(side: u32) -> (res: Vec<u8>)
    requires
        0 < side <= 1024,
    ensures
        res@ == checkerboard_spec(side, (side * side) as nat),
{
    assert(side * side <= 1024 * 1024) by (nonlinear_arith)
        requires
            0 < side <= 1024,
    ;
    let total: u32 = side * side;
    let mut out: Vec<u8> = Vec::new();
    let mut p: u32 = 0;
    while p < total
        invariant
            0 < side <= 1024,
            total == side * side,
            total <= 1024 * 1024,
            p <= total,
            out@ == checkerboard_spec(side, p as nat),
        decreases total - p,
    {
        let x = p % side;
        let y = p / side;
        assert(y <= p) by (nonlinear_arith)
            requires
                side > 0,
                y == p / side,
        ;
        let px = overlay_pixel(x, y);
        let ghost before = out@;
        out.push(px[0]);
        out.push(px[1]);
        out.push(px[2]);
        out.push(px[3]);
        assert(out@ =~= before + px@);
        p += 1;
        assert(checkerboard_spec(side, p as nat) == before + overlay_pixel_spec(x, y)@);
    }
    out
}

/// The icns file of an avatar: the image decoded, scaled with the nearest
/// filter to fit the resolution that its height calls for, under the
/// checkerboard of that resolution, in an icon family; `None` when a step
/// fails or the decoded image has no pixels.
pub open spec fn avatar_icns_spec(bytes: Seq<u8>) -> Option<Seq<u8>> {
    match decoded_rgba_of(bytes) {
        None => None,
        Some((w, h, px)) => if w == 0 || h == 0 {
            None
        } else {
            let side = resolution_spec(h);
            match resized_fit_of(w, h, px, side) {
                None => None,
                Some((rw, rh, scaled)) => match overlaid_of(rw, rh, scaled, checkerboard_spec(side, (side * side) as nat), side) {
                    None => None,
                    Some(covered) => icns_of(rw, rh, covered),
                },
            }
        },
    }
}

/// Builds the icns file of an avatar from the bytes of its image.
pub fn avatar_icns(bytes: &[u8]) -> (res: Option<Vec<u8>>)
    ensures
        match avatar_icns_spec(bytes@) {
            Some(f) => res matches Some(r) && r@ == f,
            None => res is None,
        },
{
    let (w, h, px) = match decode_rgba(bytes) {
        Some(d) => d,
        None => return None,
    };
    if w == 0 || h == 0 {
        return None;
    }
    let side = resolution_for(h);
    let (rw, rh, scaled) = match resize_fit(w, h, &px, side) {
        Some(r) => r,
        None => return None,
    };
    let top = checkerboard(side);
    let covered = match overlay_rgba(rw, rh, &scaled, &top, side) {
        Some(c) => c,
        None => return None,
    };
    icns_image(rw, rh, &covered)
}

/// The icon of an avatar: `None` when no icns file can be built from its
/// image; the icns file handed back as `Err` when it is too large for the
/// 32-bit lengths of a resource fork; else the icon of the icns file.
pub fn avatar_icon(bytes: &[u8]) -> (res: Option<Result<Icon, Vec<u8>>>)
    ensures
        match avatar_icns_spec(bytes@) {
            None => res is None,
            Some(f) => if f.len() + 0x104 <= u32::MAX {
                res matches Some(Ok(icon)) && icon.icns@ == f && icon.rsrc@ == rsrc_spec(f)
            } else {
                res matches Some(Err(back)) && back@ == f
            },
        },
{
    let icns = match avatar_icns(bytes) {
        Some(f) => f,
        None => return None,
    };
    if icns.len() > 0xFFFF_FFFF - 0x104 {
        return Some(Err(icns));
    }
    match Icon::from_icns(icns) {
        Ok(icon) => Some(Ok(icon)),
        Err(_) => None,
    }
}


/// Whether `top` is the RGBA checkerboard of `side` a side, row by row: the
/// pixel at column `x` and row `y` is black when `x + y` is even and white
/// otherwise, both with alpha 150.
pub open spec fn is_checkerboard(top: Seq<u8>, side: u32) -> bool {
    &&& top.len() == 4 * (side * side)
    &&& forall|x: int, y: int|
        0 <= x < side && 0 <= y < side ==> #[trigger] top.subrange(4 * (y * side + x), 4 * (y * side + x) + 4)
            == (if (x + y) % 2 == 0 { seq![0u8, 0, 0, 150] } else { seq![255u8, 255, 255, 150] })
}

/// The first `n` pixels of the checkerboard, four bytes each.
proof fn lemma_checkerboard_pixels(side: u32, n: nat)
    requires
        side > 0,
    ensures
        checkerboard_spec(side, n).len() == 4 * n,
        forall|p: int| 0 <= p < n ==> #[trigger] checkerboard_spec(side, n).subrange(4 * p, 4 * p + 4)
            == overlay_pixel_spec((p % side as int) as u32, (p / side as int) as u32)@,
    decreases n,
{
    if n > 0 {
        lemma_checkerboard_pixels(side, (n - 1) as nat);
        let prev = checkerboard_spec(side, (n - 1) as nat);
        let cur = checkerboard_spec(side, n);
        let q = (n - 1) as int;
        let px = overlay_pixel_spec((q % side as int) as u32, (q / side as int) as u32)@;
        assert(cur == prev + px);
        assert forall|p: int| 0 <= p < n implies #[trigger] cur.subrange(4 * p, 4 * p + 4)
            == overlay_pixel_spec((p % side as int) as u32, (p / side as int) as u32)@ by {
            if p < q {
                assert(cur.subrange(4 * p, 4 * p + 4) =~= prev.subrange(4 * p, 4 * p + 4));
            } else {
                assert(cur.subrange(4 * p, 4 * p + 4) =~= px);
            }
        }
    }
}

/// The checkerboard that an avatar is drawn under is the one described by
/// `is_checkerboard`.
proof fn lemma_checkerboard_is_checkerboard(side: u32)
    requires
        0 < side <= 1024,
    ensures
        is_checkerboard(checkerboard_spec(side, (side * side) as nat), side),
{
    let n = (side * side) as nat;
    lemma_checkerboard_pixels(side, n);
    let top = checkerboard_spec(side, n);
    assert forall|x: int, y: int| 0 <= x < side && 0 <= y < side implies #[trigger] top.subrange(4 * (y * side + x), 4 * (y * side + x) + 4)
        == (if (x + y) % 2 == 0 { seq![0u8, 0, 0, 150] } else { seq![255u8, 255, 255, 150] }) by {
        let p = y * side + x;
        vstd::arithmetic::div_mod::lemma_fundamental_div_mod_converse(p, side as int, y, x);
        assert(0 <= p < n) by (nonlinear_arith)
            requires
                0 <= x < side,
                0 <= y < side,
                p == y * side + x,
                n == side * side,
        ;
        assert(p % side as int == x && p / side as int == y);
        let px = overlay_pixel_spec(x as u32, y as u32);
        if (x + y) % 2 == 0 {
            assert(px@ =~= seq![0u8, 0, 0, 150]);
        } else {
            assert(px@ =~= seq![255u8, 255, 255, 150]);
        }
    }
}

/// An avatar's icns file holds the avatar, decoded and scaled to the
/// resolution its height calls for, with the black and white checkerboard of
/// that resolution (alpha 150) drawn over it from the top-left corner: the
/// scaled pixels alone are never what is written.
pub proof fn lemma_avatar_is_covered_by_checkerboard(bytes: Seq<u8>)
    ensures
        match avatar_icns_spec(bytes) {
            None => true,
            Some(f) => match decoded_rgba_of(bytes) {
                None => false,
                Some((w, h, px)) => w > 0 && h > 0 && match resized_fit_of(w, h, px, resolution_spec(h)) {
                    None => false,
                    Some((rw, rh, scaled)) => exists|top: Seq<u8>|
                        is_checkerboard(top, resolution_spec(h))
                            && match #[trigger] overlaid_of(rw, rh, scaled, top, resolution_spec(h)) {
                                Some(covered) => icns_of(rw, rh, covered) == Some(f),
                                None => false,
                            },
                },
            },
        },
{
    if let Some(f) = avatar_icns_spec(bytes) {
        let (w, h, px) = decoded_rgba_of(bytes).unwrap();
        let side = resolution_spec(h);
        let (rw, rh, scaled) = resized_fit_of(w, h, px, side).unwrap();
        let top = checkerboard_spec(side, (side * side) as nat);
        lemma_checkerboard_is_checkerboard(side);
        let covered = overlaid_of(rw, rh, scaled, top, side).unwrap();
        assert(is_checkerboard(top, side) && overlaid_of(rw, rh, scaled, top, side) == Some(covered)
            && icns_of(rw, rh, covered) == Some(f));
    }
}

} // verus!
