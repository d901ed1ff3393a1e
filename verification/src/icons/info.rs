use crate::bytes::{read_be32, read_be32_spec, read_le16, read_le16_spec};
use crate::icons::size::{size_text, IconSize};
use crate::text::{chars_of, split_chars, split_spec, string_of, char_views};
use vstd::prelude::*;

verus! {

/// What is known of an icon image.
#[derive(Debug)]
pub enum IconInfo {
    /// A PNG image of the given `WIDTHxHEIGHT` size.
    PNG { size: String },
    /// An ICO file holding images of the given sizes.
    ICO { sizes: Vec<String> },
    /// An SVG image.
    SVG,
}

/// An icon's information as text.
pub enum IconInfoView {
    PNG(Seq<char>),
    ICO(Seq<Seq<char>>),
    SVG,
}

impl View for IconInfo {
    type V = IconInfoView;

    open spec fn view(&self) -> IconInfoView {
        match self {
            IconInfo::PNG { size } => IconInfoView::PNG(size@),
            IconInfo::ICO { sizes } => IconInfoView::ICO(sizes@.map_values(|s: String| s@)),
            IconInfo::SVG => IconInfoView::SVG,
        }
    }
}

/// Why the information of an icon could not be found.
#[derive(Debug, Clone, Copy, PartialEq, Eq, Structural)]
pub enum InfoError {
    /// The image's data ends before its header does.
    Truncated,
    /// The image's header is not that of its format.
    BadHeader,
    /// The content type is no media type.
    InvalidMime,
    /// The media type is no PNG, ICO or SVG image.
    UnsupportedMime,
    /// The `data:` URL could not be read.
    DataUrlParse,
    /// The body of the `data:` URL could not be decoded.
    DataUrlDecode,
}

/// The eight bytes that begin a PNG file.
pub open spec fn png_signature() -> Seq<u8> {
    seq![0x89u8, 0x50u8, 0x4Eu8, 0x47u8, 0x0Du8, 0x0Au8, 0x1Au8, 0x0Au8]
}

/// The name of a PNG's first chunk, `IHDR`.
pub open spec fn ihdr_tag() -> Seq<u8> {
    seq![0x49u8, 0x48u8, 0x44u8, 0x52u8]
}

/// The width and height that a PNG's first 24 bytes hold: the signature,
/// the `IHDR` chunk name at byte 12, then the width and height as 32-bit
/// big-endian numbers.
pub open spec fn png_dims_spec(data: Seq<u8>) -> Result<(u32, u32), InfoError> {
    if data.len() < 24 {
        Err(InfoError::Truncated)
    } else if data.subrange(0, 8) != png_signature() || data.subrange(12, 16) != ihdr_tag() {
        Err(InfoError::BadHeader)
    } else {
        Ok((
            read_be32_spec(data[16], data[17], data[18], data[19]) as u32,
            read_be32_spec(data[20], data[21], data[22], data[23]) as u32,
        ))
    }
}

/// Whether bytes `at..at + expected.len()` of `data` are `expected`.
fn bytes_match(data: &[u8], at: usize, expected: &[u8]) -> (res: bool)
    requires
        at + expected@.len() <= data@.len(),
    ensures
        res == (data@.subrange(at as int, at + expected@.len()) == expected@),
{
    let n = data.len();
    let mut i: usize = 0;
    while i < expected.len()
        invariant
            n == data@.len(),
            at + expected@.len() <= data@.len(),
            i <= expected@.len(),
            forall|k: int| 0 <= k < i ==> data@[at + k] == expected@[k],
        decreases expected@.len() - i,
    {
        if data[at + i] != expected[i] {
            assert(data@.subrange(at as int, at + expected@.len())[i as int] != expected@[i as int]);
            return false;
        }
        i += 1;
    }
    assert(data@.subrange(at as int, at + expected@.len()) =~= expected@);
    true
}

/// Reads the size of a PNG image from the start of its data, as `WIDTHxHEIGHT`.
pub fn png_size(data: &[u8]) -> (res: Result<String, InfoError>)
    ensures
        match png_dims_spec(data@) {
            Ok((w, h)) => res matches Ok(s) && s@ == size_text(IconSize { width: w, height: h }),
            Err(e) => res == Err::<String, InfoError>(e),
        },
{
    if data.len() < 24 {
        return Err(InfoError::Truncated);
    }
    let signature: [u8; 8] = [0x89, 0x50, 0x4E, 0x47, 0x0D, 0x0A, 0x1A, 0x0A];
    let ihdr: [u8; 4] = [0x49, 0x48, 0x44, 0x52];
    assert(signature@ == png_signature());
    assert(ihdr@ == ihdr_tag());
    if !bytes_match(data, 0, &signature) || !bytes_match(data, 12, &ihdr) {
        return Err(InfoError::BadHeader);
    }
    let width = read_be32(data[16], data[17], data[18], data[19]);
    let height = read_be32(data[20], data[21], data[22], data[23]);
    Ok(IconSize::new(width, height).to_text())
}

/// The number of images that an ICO header announces.
pub open spec fn ico_count(data: Seq<u8>) -> int {
    read_le16_spec(data[4], data[5])
}

/// The sizes that an ICO file's directory lists: after a six-byte header
/// (reserved 0, type 1, count, each 16-bit little-endian) come `count`
/// entries of 16 bytes whose first two bytes are the width and the height.
pub open spec fn ico_sizes_spec(data: Seq<u8>) -> Result<Seq<Seq<char>>, InfoError> {
    if data.len() < 6 {
        Err(InfoError::Truncated)
    } else if read_le16_spec(data[0], data[1]) != 0 || read_le16_spec(data[2], data[3]) != 1 {
        Err(InfoError::BadHeader)
    } else if 16 * ico_count(data) > u16::MAX || data.len() < 6 + 16 * ico_count(data) {
        Err(InfoError::Truncated)
    } else {
        Ok(Seq::new(ico_count(data) as nat, |i: int| size_text(IconSize {
            width: data[6 + 16 * i] as u32,
            height: data[7 + 16 * i] as u32,
        })))
    }
}

/// Reads the sizes of the images in an ICO file from the start of its data.
pub fn ico_sizes(data: &[u8]) -> (res: Result<Vec<String>, InfoError>)
    ensures
        match ico_sizes_spec(data@) {
            Ok(sizes) => res matches Ok(v) && v@.map_values(|s: String| s@) == sizes,
            Err(e) => res == Err::<Vec<String>, InfoError>(e),
        },
{
    if data.len() < 6 {
        return Err(InfoError::Truncated);
    }
    let header_type = read_le16(data[0], data[1]);
    let icon_type = read_le16(data[2], data[3]);
    if header_type != 0 || icon_type != 1 {
        return Err(InfoError::BadHeader);
    }
    let icon_count = read_le16(data[4], data[5]);
    if icon_count > 4095 {
        return Err(InfoError::Truncated);
    }
    let index_len: u16 = icon_count * 16;
    if data.len() - 6 < index_len as usize {
        return Err(InfoError::Truncated);
    }
    let ghost expected = Seq::new(ico_count(data@) as nat, |i: int| size_text(IconSize {
        width: data@[6 + 16 * i] as u32,
        height: data@[7 + 16 * i] as u32,
    }));
    let mut sizes: Vec<String> = Vec::new();
    let mut i: u16 = 0;
    while i < icon_count
        invariant
            i <= icon_count,
            icon_count as int == ico_count(data@),
            6 + 16 * ico_count(data@) <= data@.len(),
            16 * ico_count(data@) <= u16::MAX,
            expected.len() == icon_count,
            expected == Seq::new(ico_count(data@) as nat, |i: int| size_text(IconSize {
                width: data@[6 + 16 * i] as u32,
                height: data@[7 + 16 * i] as u32,
            })),
            sizes@.map_values(|s: String| s@) == expected.take(i as int),
        decreases icon_count - i,
    {
        let at: usize = 6 + 16 * (i as usize);
        let width = data[at];
        let height = data[at + 1];
        let text = IconSize::new(width as u32, height as u32).to_text();
        let ghost before = sizes@;
        sizes.push(text);
        assert(sizes@.map_values(|s: String| s@) =~= before.map_values(|s: String| s@).push(text@));
        i += 1;
        assert(expected.take(i as int) =~= expected.take(i - 1).push(expected[i - 1]));
    }
    assert(expected.take(icon_count as int) == expected);
    Ok(sizes)
}


/// The type and subtype of a media type such as `image/svg+xml; q=1` (here
/// `image` and `svg`), as the `mime` crate parses it; `None` when it does not.
pub uninterp spec fn media_type_of(s: Seq<char>) -> Option<(Seq<char>, Seq<char>)>;

/// Parses a media type with `mime::Mime`'s `FromStr`.
/// Trusted: the result is what `media_type_of` names for the input, the type
/// and subtype taken as text; nothing more is stated of them.
#[verifier::external_body]
fn parse_media_type(s: &str) -> (res: Option<(String, String)>)
    ensures
        match res {
            Some((t, st)) => media_type_of(s@) == Some((t@, st@)),
            None => media_type_of(s@) is None,
        },
{
    s.parse::<mime::Mime>().ok().map(|m| (m.type_().as_str().to_string(), m.subtype().as_str().to_string()))
}

/// The media type that a `data:` URL declares, as `data_url` reads it;
/// `None` when the URL is no `data:` URL.
pub uninterp spec fn data_url_mime_of(url: Seq<char>) -> Option<Seq<char>>;

/// The bytes that a `data:` URL holds, as `data_url` decodes them; `None`
/// when the URL is no `data:` URL or its body cannot be decoded.
pub uninterp spec fn data_url_body_of(url: Seq<char>) -> Option<Seq<u8>>;

/// Reads the media type of a `data:` URL with `data_url::DataUrl::process`
/// and `mime_type`.
/// Trusted: the result is what `data_url_mime_of` names for the URL.
#[verifier::external_body]
fn data_url_mime(url: &str) -> (res: Option<String>)
    ensures
        match res {
            Some(m) => data_url_mime_of(url@) == Some(m@),
            None => data_url_mime_of(url@) is None,
        },
{
    data_url::DataUrl::process(url).ok().map(|d| d.mime_type().to_string())
}

/// Decodes the body of a `data:` URL with `data_url::DataUrl::process` and
/// `decode_to_vec`.
/// Trusted: the result is what `data_url_body_of` names for the URL.
#[verifier::external_body]
fn data_url_body(url: &str) -> (res: Option<Vec<u8>>)
    ensures
        match res {
            Some(b) => data_url_body_of(url@) == Some(b@),
            None => data_url_body_of(url@) is None,
        },
{
    data_url::DataUrl::process(url).ok().and_then(|d| d.decode_to_vec().ok()).map(|(body, _)| body)
}

/// The texts of the sizes in a `sizes` attribute: its pieces between single spaces.
pub open spec fn sizes_attr_spec(sizes: Seq<char>) -> Seq<Seq<char>> {
    split_spec(sizes, ' ')
}

/// The kind of icon that a media type stands for.
pub enum IconKind {
    PNG,
    ICO,
    SVG,
}

/// The icon kind of a type and subtype: `image/png`, `image/x-icon` or
/// `image/vnd.microsoft.icon`, and `image/svg`.
pub open spec fn icon_kind_of(t: Seq<char>, st: Seq<char>) -> Option<IconKind> {
    if t != seq!['i', 'm', 'a', 'g', 'e'] {
        None
    } else if st == seq!['p', 'n', 'g'] {
        Some(IconKind::PNG)
    } else if st == seq!['x', '-', 'i', 'c', 'o', 'n']
        || st == seq!['v', 'n', 'd', '.', 'm', 'i', 'c', 'r', 'o', 's', 'o', 'f', 't', '.', 'i', 'c', 'o', 'n'] {
        Some(IconKind::ICO)
    } else if st == seq!['s', 'v', 'g'] {
        Some(IconKind::SVG)
    } else {
        None
    }
}

/// The information of an icon from its media type, the `sizes` that the page
/// gave for it and the start of its data: sizes given for a PNG or an ICO
/// are taken as they are; otherwise the sizes are read from the data.
pub open spec fn icon_info_spec(media: Option<(Seq<char>, Seq<char>)>, sizes: Option<Seq<char>>, body: Seq<u8>) -> Result<IconInfoView, InfoError> {
    match media {
        None => Err(InfoError::InvalidMime),
        Some((t, st)) => match icon_kind_of(t, st) {
            None => Err(InfoError::UnsupportedMime),
            Some(IconKind::SVG) => Ok(IconInfoView::SVG),
            Some(IconKind::PNG) => match sizes {
                Some(size) => Ok(IconInfoView::PNG(size)),
                None => match png_dims_spec(body) {
                    Ok((w, h)) => Ok(IconInfoView::PNG(size_text(IconSize { width: w, height: h }))),
                    Err(e) => Err(e),
                },
            },
            Some(IconKind::ICO) => match sizes {
                Some(s) => Ok(IconInfoView::ICO(sizes_attr_spec(s))),
                None => match ico_sizes_spec(body) {
                    Ok(v) => Ok(IconInfoView::ICO(v)),
                    Err(e) => Err(e),
                },
            },
        },
    }
}

/// The view of a result of `icon_info`.
pub open spec fn info_result_view(res: Result<IconInfo, InfoError>) -> Result<IconInfoView, InfoError> {
    match res {
        Ok(info) => Ok(info@),
        Err(e) => Err(e),
    }
}

fn text_eq(a: &str, b: &[char]) -> (res: bool)
    ensures
        res == (a@ == b@),
{
    let cs = chars_of(a);
    if cs.len() != b.len() {
        return false;
    }
    let mut i: usize = 0;
    while i < b.len()
        invariant
            cs@ == a@,
            cs@.len() == b@.len(),
            i <= b@.len(),
            forall|k: int| 0 <= k < i ==> cs@[k] == b@[k],
        decreases b@.len() - i,
    {
        if cs[i] != b[i] {
            assert(cs@[i as int] != b@[i as int]);
            assert(a@[i as int] != b@[i as int]);
            return false;
        }
        i += 1;
    }
    assert(cs@ =~= b@);
    true
}

fn icon_kind(t: &str, st: &str) -> (res: Option<IconKind>)
    ensures
        res == icon_kind_of(t@, st@),
{
    let image = ['i', 'm', 'a', 'g', 'e'];
    let png = ['p', 'n', 'g'];
    let x_icon = ['x', '-', 'i', 'c', 'o', 'n'];
    let ms_icon = ['v', 'n', 'd', '.', 'm', 'i', 'c', 'r', 'o', 's', 'o', 'f', 't', '.', 'i', 'c', 'o', 'n'];
    let svg = ['s', 'v', 'g'];
    assert(image@ == seq!['i', 'm', 'a', 'g', 'e']);
    assert(png@ == seq!['p', 'n', 'g']);
    assert(x_icon@ == seq!['x', '-', 'i', 'c', 'o', 'n']);
    assert(ms_icon@ == seq!['v', 'n', 'd', '.', 'm', 'i', 'c', 'r', 'o', 's', 'o', 'f', 't', '.', 'i', 'c', 'o', 'n']);
    assert(svg@ == seq!['s', 'v', 'g']);
    if !text_eq(t, &image) {
        None
    } else if text_eq(st, &png) {
        Some(IconKind::PNG)
    } else if text_eq(st, &x_icon) || text_eq(st, &ms_icon) {
        Some(IconKind::ICO)
    } else if text_eq(st, &svg) {
        Some(IconKind::SVG)
    } else {
        None
    }
}

/// Finds the information of an icon from its content type, the `sizes` that
/// the page gave for it, and the start of its data.
pub fn icon_info(content_type: &str, sizes: Option<String>, body: &[u8]) -> (res: Result<IconInfo, InfoError>)
    ensures
        info_result_view(res) == icon_info_spec(media_type_of(content_type@), match sizes { Some(s) => Some(s@), None => None }, body@),
{
    let (t, st) = match parse_media_type(content_type) {
        None => return Err(InfoError::InvalidMime),
        Some(parts) => parts,
    };
    match icon_kind(t.as_str(), st.as_str()) {
        None => Err(InfoError::UnsupportedMime),
        Some(IconKind::SVG) => Ok(IconInfo::SVG),
        Some(IconKind::PNG) => match sizes {
            Some(size) => Ok(IconInfo::PNG { size }),
            None => match png_size(body) {
                Ok(size) => Ok(IconInfo::PNG { size }),
                Err(e) => Err(e),
            },
        },
        Some(IconKind::ICO) => match sizes {
            Some(s) => {
                let cs = chars_of(s.as_str());
                let pieces = split_chars(cs.as_slice(), ' ');
                let mut out: Vec<String> = Vec::new();
                let mut i: usize = 0;
                while i < pieces.len()
                    invariant
                        i <= pieces@.len(),
                        char_views(pieces@) == split_spec(s@, ' '),
                        out@.map_values(|x: String| x@) == char_views(pieces@).take(i as int),
                    decreases pieces@.len() - i,
                {
                    let piece = string_of(pieces[i].as_slice());
                    let ghost before = out@;
                    out.push(piece);
                    assert(out@.map_values(|x: String| x@) =~= before.map_values(|x: String| x@).push(piece@));
                    i += 1;
                    assert(char_views(pieces@).take(i as int) =~= char_views(pieces@).take(i - 1).push(pieces@[i - 1]@));
                }
                assert(char_views(pieces@).take(pieces@.len() as int) == char_views(pieces@));
                Ok(IconInfo::ICO { sizes: out })
            },
            None => match ico_sizes(body) {
                Ok(v) => Ok(IconInfo::ICO { sizes: v }),
                Err(e) => Err(e),
            },
        },
    }
}

/// Finds the information of an icon given as a `data:` URL, from the media
/// type and body that the URL holds.
pub fn data_url_info(url: &str, sizes: Option<String>) -> (res: Result<IconInfo, InfoError>)
    ensures
        match data_url_mime_of(url@) {
            None => res == Err::<IconInfo, InfoError>(InfoError::DataUrlParse),
            Some(m) => match media_type_of(m) {
                None => res == Err::<IconInfo, InfoError>(InfoError::InvalidMime),
                Some(_) => match data_url_body_of(url@) {
                    None => res == Err::<IconInfo, InfoError>(InfoError::DataUrlDecode),
                    Some(body) => info_result_view(res) == icon_info_spec(
                        media_type_of(m),
                        match sizes { Some(s) => Some(s@), None => None },
                        body,
                    ),
                },
            },
        },
{
    let mime = match data_url_mime(url) {
        None => return Err(InfoError::DataUrlParse),
        Some(m) => m,
    };
    if parse_media_type(mime.as_str()).is_none() {
        return Err(InfoError::InvalidMime);
    }
    let body = match data_url_body(url) {
        None => return Err(InfoError::DataUrlDecode),
        Some(b) => b,
    };
    icon_info(mime.as_str(), sizes, body.as_slice())
}

} // verus!
