use repositories::icon_manager::avatar::{avatar_icns, avatar_icon};
use repositories::icon_manager::page::page_icon;
use std::io::Cursor;

fn png(width: u32, height: u32) -> Vec<u8> {
    let image = image::RgbaImage::from_fn(width, height, |x, _| image::Rgba([x as u8, 10, 200, 255]));
    let mut out = Cursor::new(Vec::new());
    image::DynamicImage::ImageRgba8(image).write_to(&mut out, image::ImageFormat::Png).unwrap();
    out.into_inner()
}

#[test]
fn square_avatar_becomes_an_icon() {
    let bytes = png(20, 20);
    let icon = avatar_icon(&bytes).unwrap().unwrap();
    assert_eq!(&icon.icns[0..4], b"icns");
    assert_eq!(icon.rsrc.len(), icon.icns.len() + 0x104 + 52);
    assert_eq!(avatar_icns(&bytes).unwrap(), icon.icns);
    // The icon family holds one 32 by 32 image (the resolution a 20 pixel
    // high image calls for), so it differs from that of a 40 pixel image.
    let larger = avatar_icns(&png(40, 40)).unwrap();
    assert_ne!(larger, icon.icns);
}

#[test]
fn undecodable_avatar_gives_nothing() {
    assert!(avatar_icon(b"not an image").is_none());
    assert!(avatar_icns(&[]).is_none());
}

#[test]
fn page_screenshots_become_an_icon() {
    let small = png(512, 512);
    let large = png(1024, 1024);
    let icon = page_icon(&vec![(512, small.clone()), (1024, large.clone())]).unwrap().unwrap();
    assert_eq!(&icon.icns[0..4], b"icns");
    // The PNG images are stored as they are: header, two elements of 8 bytes of header each.
    assert_eq!(icon.icns.len(), 8 + 8 + small.len() + 8 + large.len());
    assert_eq!(&icon.icns[8..12], b"ic09");
    assert_eq!(icon.rsrc.len(), icon.icns.len() + 0x104 + 52);
}

#[test]
fn page_screenshot_of_an_odd_size_gives_nothing() {
    assert!(page_icon(&vec![(500, png(20, 20))]).is_none());
}
