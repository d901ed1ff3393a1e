use crate::icon_manager::icon::Icon;
use crate::icon_manager::rsrc::rsrc_spec;
use vstd::prelude::*;

verus! {

/// The icns file that `icns` writes for an icon family holding, for each
/// pair, the PNG image `png` stored as it is under the icon type of a
/// square of `side` pixels (`IconType::from_pixel_size`); `None` when no
/// icon type has one of the sizes.
pub uninterp spec fn png_family_icns_of(pngs: Seq<(u32, Seq<u8>)>) -> Option<Seq<u8>>;

/// The PNG images with their sides, as plain values.
pub open spec fn pngs_view(pngs: Seq<(u32, Vec<u8>)>) -> Seq<(u32, Seq<u8>)> {
    pngs.map_values(|p: (u32, Vec<u8>)| (p.0, p.1@))
}

/// Writes an icns file of PNG images with `icns::IconFamily`.
/// Trusted: the result is what `png_family_icns_of` names for the images.
#[verifier::external_body]
fn png_family_icns(pngs: &Vec<(u32, Vec<u8>)>) -> (res: Option<Vec<u8>>)
    ensures
        match res {
            Some(f) => png_family_icns_of(pngs_view(pngs@)) == Some(f@),
            None => png_family_icns_of(pngs_view(pngs@)) is None,
        },
{
    let mut family = icns::IconFamily::new();
    for (side, png) in pngs.iter() {
        let ostype = icns::IconType::from_pixel_size(*side, *side)?.ostype();
        family.elements.push(icns::IconElement::new(ostype, png.clone()));
    }
    let mut file = Vec::new();
    family.write(&mut file).ok()?;
    Some(file)
}

/// The icon of a rendered page, from its PNG screenshots and the side of the
/// square each was rendered at: `None` when no icns file can be written of
/// them; the icns file handed back as `Err` when it is too large for the
/// 32-bit lengths of a resource fork; else the icon of the icns file.
pub fn page_icon(pngs: &Vec<(u32, Vec<u8>)>) -> (res: Option<Result<Icon, Vec<u8>>>)
    ensures
        match png_family_icns_of(pngs_view(pngs@)) {
            None => res is None,
            Some(f) => if f.len() + 0x104 <= u32::MAX {
                res matches Some(Ok(icon)) && icon.icns@ == f && icon.rsrc@ == rsrc_spec(f)
            } else {
                res matches Some(Err(back)) && back@ == f
            },
        },
{
    let icns = match png_family_icns(pngs) {
        Some(f) => f,
        None => return None,
    };
    if icns.len() > 0xFFFF_FFFF - 0x104 {
        return Some(Err(icns));
    }
    match Icon::from_icns(icns) {
        Ok(icon) => Some(Ok(icon)),
        Err(_) => None,
    }
}

} // verus!
