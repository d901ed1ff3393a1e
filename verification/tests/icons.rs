use repositories::web::is_data_url;
use repositories::icons::scan::page_refs;
use repositories::icon_manager::icon::{overlay_pixel, resolution_for, Icon as RenderedIcon};
use repositories::icon_manager::rsrc::encode;
use repositories::icons::info::{data_url_info, ico_sizes, icon_info, png_size, IconInfo, InfoError};
use repositories::icons::page::{collect_icons, icon_candidates, icon_urls, resolve_refs, Candidate, IconRef};

fn png_header(w: u32, h: u32) -> Vec<u8> {
    let mut v = vec![0x89, b'P', b'N', b'G', b'\r', b'\n', 0x1a, b'\n', 0, 0, 0, 13, b'I', b'H', b'D', b'R'];
    v.extend_from_slice(&w.to_be_bytes());
    v.extend_from_slice(&h.to_be_bytes());
    v
}

fn ico(entries: &[(u8, u8)]) -> Vec<u8> {
    let mut v = vec![0, 0, 1, 0];
    v.extend_from_slice(&(entries.len() as u16).to_le_bytes());
    for (w, h) in entries {
        let mut e = vec![0u8; 16];
        e[0] = *w;
        e[1] = *h;
        v.extend(e);
    }
    v
}

#[test]
fn png_size_reads_header() {
    assert_eq!(png_size(&png_header(512, 256)).unwrap(), "512x256");
    assert_eq!(png_size(&png_header(512, 256)[..23]).unwrap_err(), InfoError::Truncated);
    let mut bad = png_header(1, 1);
    bad[13] = b'X';
    assert_eq!(png_size(&bad).unwrap_err(), InfoError::BadHeader);
}

#[test]
fn ico_sizes_reads_directory() {
    assert_eq!(ico_sizes(&ico(&[(16, 16), (32, 48)])).unwrap(), vec!["16x16", "32x48"]);
    assert_eq!(ico_sizes(&ico(&[])).unwrap(), Vec::<String>::new());
    let data = ico(&[(16, 16)]);
    assert_eq!(ico_sizes(&data[..data.len() - 1]).unwrap_err(), InfoError::Truncated);
    assert_eq!(ico_sizes(&[0, 0, 2, 0, 0, 0]).unwrap_err(), InfoError::BadHeader);
    assert_eq!(ico_sizes(&[0, 0, 1]).unwrap_err(), InfoError::Truncated);
    assert_eq!(ico_sizes(&[0, 0, 1, 0, 0, 0x10]).unwrap_err(), InfoError::Truncated);
}

#[test]
fn icon_info_by_media_type() {
    assert!(matches!(icon_info("image/png", Some("16x16".into()), &[]), Ok(IconInfo::PNG { size }) if size == "16x16"));
    assert!(matches!(icon_info("image/png", None, &png_header(3, 4)), Ok(IconInfo::PNG { size }) if size == "3x4"));
    assert!(matches!(icon_info("image/x-icon", Some("16x16 32x32".into()), &[]), Ok(IconInfo::ICO { sizes }) if sizes == vec!["16x16", "32x32"]));
    assert!(matches!(icon_info("image/vnd.microsoft.icon", None, &ico(&[(1, 2)])), Ok(IconInfo::ICO { sizes }) if sizes == vec!["1x2"]));
    assert!(matches!(icon_info("IMAGE/SVG+XML; charset=utf-8", None, &[]), Ok(IconInfo::SVG)));
    assert!(matches!(icon_info("text/html", None, &[]), Err(InfoError::UnsupportedMime)));
    assert!(matches!(icon_info("nonsense", None, &[]), Err(InfoError::InvalidMime)));
    assert!(matches!(icon_info("image/png", None, &[1, 2, 3]), Err(InfoError::Truncated)));
}

#[test]
fn data_url_icons() {
    assert!(matches!(data_url_info("data:image/svg+xml,%3Csvg%2F%3E", None), Ok(IconInfo::SVG)));
    assert!(matches!(data_url_info("data:image/png;base64,AAAA", Some("8x8".into())), Ok(IconInfo::PNG { size }) if size == "8x8"));
    assert!(matches!(data_url_info("https://example.com/a.png", None), Err(InfoError::DataUrlParse)));
    assert!(matches!(data_url_info("data:image/png;base64,!!!", None), Err(InfoError::DataUrlDecode)));
}

fn cand(url: &str) -> Candidate {
    Candidate { url: url.to_string(), sizes: None }
}

#[test]
fn candidates_default_to_favicon() {
    let c = icon_candidates("https://example.com/a/page.html", vec![], Some(cand("logo")), Some(vec![cand("m1")])).unwrap();
    let urls: Vec<&str> = c.iter().map(|c| c.url.as_str()).collect();
    assert_eq!(urls, vec!["https://example.com/favicon.ico", "logo", "m1"]);
    let c = icon_candidates("https://example.com/", vec![cand("i")], None, None).unwrap();
    assert_eq!(c.len(), 1);
    assert!(icon_candidates("not a url", vec![], None, None).is_none());
}

#[test]
fn refs_resolve_against_base() {
    let refs = vec![
        IconRef { href: "/icon.png".into(), sizes: Some("16x16".into()) },
        IconRef { href: "b.png".into(), sizes: None },
    ];
    let c = resolve_refs("https://example.com/dir/page", refs).unwrap();
    assert_eq!(c[0].url, "https://example.com/icon.png");
    assert_eq!(c[0].sizes.as_deref(), Some("16x16"));
    assert_eq!(c[1].url, "https://example.com/dir/b.png");
    assert!(resolve_refs("not a url", vec![IconRef { href: "a".into(), sizes: None }]).is_none());
}

#[test]
fn icons_without_info_are_dropped() {
    let icons = collect_icons(
        vec!["a".into(), "b".into(), "c".into()],
        vec![Ok(IconInfo::SVG), Err(InfoError::BadHeader), Ok(IconInfo::PNG { size: "1x1".into() })],
    );
    let urls: Vec<&str> = icons.iter().map(|i| i.url.as_str()).collect();
    assert_eq!(urls, vec!["a", "c"]);
}

#[test]
fn first_version_orders_links_manifest_logo() {
    let urls = icon_urls(vec!["l".into()], Some(vec!["m".into()]), Some("logo".into()));
    assert_eq!(urls, vec!["l", "m", "logo"]);
}

#[test]
fn resource_fork_layout() {
    let icns = vec![1u8, 2, 3, 4, 5];
    let rsrc = encode(&icns).unwrap();
    assert_eq!(rsrc.len(), icns.len() + 312);
    assert_eq!(&rsrc[0..4], &[0, 0, 1, 0]);
    assert_eq!(u32::from_be_bytes(rsrc[4..8].try_into().unwrap()), 5 + 0x104);
    assert_eq!(u32::from_be_bytes(rsrc[8..12].try_into().unwrap()), 5 + 4);
    assert_eq!(u32::from_be_bytes(rsrc[256..260].try_into().unwrap()), 5);
    assert_eq!(&rsrc[260..265], &icns[..]);
    assert_eq!(&rsrc[265 + 24..265 + 32], &[0x00, 0x1C, 0x00, 0x32, 0x00, 0x00, 0x69, 0x63]);
    let icon = RenderedIcon::from_icns(icns.clone()).unwrap();
    assert_eq!(icon.rsrc, rsrc);
    assert_eq!(icon.icns, icns);
}

#[test]
fn avatar_resolution_and_overlay() {
    assert_eq!(resolution_for(1), 16);
    assert_eq!(resolution_for(16), 16);
    assert_eq!(resolution_for(17), 32);
    assert_eq!(resolution_for(460), 512);
    assert_eq!(resolution_for(513), 1024);
    assert_eq!(overlay_pixel(0, 0), [0, 0, 0, 150]);
    assert_eq!(overlay_pixel(1, 0), [255, 255, 255, 150]);
}

#[test]
fn page_refs_reads_links_logo_and_manifest() {
    let html = br#"<html><head>
        <link rel="icon" href="/a.png" sizes="16x16">
        <link rel="manifest" href="/m1.json">
        <link rel="shortcut icon" href="/b.ico">
        <link rel="icon">
        <link rel="stylesheet" href="/s.css">
        <link rel="manifest" href="/m2.json">
        <link rel="manifest">
        </head><body><img src="/outside.png"><header><img alt="x"><img src="/logo.png"><img src="/other.png"></header></body></html>"#;
    let refs = page_refs(html).unwrap();
    let links: Vec<(&str, Option<&str>)> = refs.links.iter().map(|r| (r.href.as_str(), r.sizes.as_deref())).collect();
    assert_eq!(links, vec![("/a.png", Some("16x16")), ("/b.ico", None)]);
    let logo = refs.logo.unwrap();
    assert_eq!((logo.href.as_str(), logo.sizes), ("/logo.png", None));
    assert_eq!(refs.manifest.as_deref(), Some("/m2.json"));

    let empty = page_refs(b"<p>nothing</p>").unwrap();
    assert!(empty.links.is_empty() && empty.logo.is_none() && empty.manifest.is_none());
}

#[test]
fn data_urls_are_told_apart() {
    assert_eq!(is_data_url("data:image/png;base64,AAAA"), Some(true));
    assert_eq!(is_data_url("DATA:image/png;base64,AAAA"), Some(true));
    assert_eq!(is_data_url("https://example.com/a.png"), Some(false));
    assert_eq!(is_data_url("not a url"), None);
}
