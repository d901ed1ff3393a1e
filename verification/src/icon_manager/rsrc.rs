use crate::bytes::{be32, be32_words, push_be32_words, lemma_be32_words_len, lemma_be32_words_index, lemma_be32_roundtrip, read_be32_spec};
use vstd::prelude::*;

verus! {

/// Declares `std::io::Error`, which `encode` names in its result.
#[verifier::external_type_specification]
#[verifier::external_body]
pub struct ExIoError(std::io::Error);

/// The header words of an `Icon\r` resource fork for an icns image of
/// `size` bytes: 65 words, of which only the first four and the last are set.
pub open spec fn rsrc_header(size: u32) -> Seq<u32> {
    seq![0x100u32, (size + 0x104) as u32, (size + 0x4) as u32, 0x32u32]
        + Seq::new(60, |i: int| 0u32)
        + seq![size]
}

/// The words that follow the icns image in an `Icon\r` resource fork.
pub open spec fn rsrc_trailer(size: u32) -> Seq<u32> {
    seq![
        0x0000_0100u32,
        (size + 0x104) as u32,
        (size + 0x4) as u32,
        0x0000_0032u32,
        0x0000_0000u32,
        0x0000_0000u32,
        0x001C_0032u32,
        0x0000_6963u32,
        0x6E73_0000u32,
        0x000A_BFB9u32,
        0xFFFF_0000u32,
        0x0000_0000u32,
        0x0000_0000u32,
    ]
}

/// The `Icon\r` resource fork that holds an icns image: the header, the
/// image, then the trailer, every word most significant byte first.
pub open spec fn rsrc_spec(icns: Seq<u8>) -> Seq<u8> {
    let size = icns.len() as u32;
    be32_words(rsrc_header(size)) + icns + be32_words(rsrc_trailer(size))
}

/// Wraps an icns image in the resource fork format of a macOS `Icon\r` file.
pub fn encode(icns: &Vec<u8>) -> (res: Result<Vec<u8>, std::io::Error>)
    requires
        icns@.len() + 0x104 <= u32::MAX,
    ensures
        res matches Ok(rsrc) && rsrc@ == rsrc_spec(icns@),
{
    let mut rsrc: Vec<u8> = Vec::new();
    let icon_size = icns.len() as u32;

    let mut header: Vec<u32> = Vec::new();
    header.push(0x100);
    header.push(icon_size + 0x104);
    header.push(icon_size + 0x4);
    header.push(0x32);
    let mut i: usize = 0;
    while i < 60
        invariant
            i <= 60,
            header@ == seq![0x100u32, (icon_size + 0x104) as u32, (icon_size + 0x4) as u32, 0x32u32]
                + Seq::new(i as nat, |k: int| 0u32),
        decreases 60 - i,
    {
        header.push(0);
        i += 1;
        assert(header@ =~= seq![0x100u32, (icon_size + 0x104) as u32, (icon_size + 0x4) as u32, 0x32u32]
            + Seq::new(i as nat, |k: int| 0u32));
    }
    header.push(icon_size);
    assert(header@ =~= rsrc_header(icon_size));

    push_be32_words(&mut rsrc, header.as_slice());
    let mut j: usize = 0;
    let ghost start = rsrc@;
    while j < icns.len()
        invariant
            j <= icns@.len(),
            rsrc@ == start + icns@.take(j as int),
        decreases icns@.len() - j,
    {
        rsrc.push(icns[j]);
        j += 1;
        assert(rsrc@ =~= start + icns@.take(j as int));
    }
    assert(icns@.take(icns@.len() as int) == icns@);

    let trailer: Vec<u32> = vec![
        0x0000_0100,
        icon_size + 0x104,
        icon_size + 0x4,
        0x0000_0032,
        0x0000_0000,
        0x0000_0000,
        0x001C_0032,
        0x0000_6963,
        0x6E73_0000,
        0x000A_BFB9,
        0xFFFF_0000,
        0x0000_0000,
        0x0000_0000,
    ];
    assert(trailer@ =~= rsrc_trailer(icon_size));
    push_be32_words(&mut rsrc, trailer.as_slice());
    assert(rsrc@ =~= rsrc_spec(icns@));

    Ok(rsrc)
}


/// The resource fork is 312 bytes longer than the image, holds the image
/// unchanged from byte 260 on, and records the image's length in its header
/// (bytes 256 to 260) and, plus 260, at bytes 4 to 8.
pub proof fn lemma_rsrc_layout(icns: Seq<u8>)
    requires
        icns.len() + 0x104 <= u32::MAX,
    ensures
        rsrc_spec(icns).len() == icns.len() + 312,
        rsrc_spec(icns).subrange(260, 260 + icns.len() as int) == icns,
        read_be32_spec(rsrc_spec(icns)[256], rsrc_spec(icns)[257], rsrc_spec(icns)[258], rsrc_spec(icns)[259]) == icns.len(),
        read_be32_spec(rsrc_spec(icns)[4], rsrc_spec(icns)[5], rsrc_spec(icns)[6], rsrc_spec(icns)[7]) == icns.len() + 0x104,
{
    let size = icns.len() as u32;
    let h = rsrc_header(size);
    let t = rsrc_trailer(size);
    assert(h.len() == 65);
    lemma_be32_words_len(h);
    lemma_be32_words_len(t);
    let r = rsrc_spec(icns);
    let hb = be32_words(h);
    assert(r.subrange(260, 260 + icns.len() as int) =~= icns);
    lemma_be32_words_index(h, 64);
    lemma_be32_words_index(h, 1);
    assert(h[64] == size);
    assert(h[1] == (size + 0x104) as u32);
    assert(r.subrange(256, 260) =~= hb.subrange(256, 260));
    assert(r.subrange(4, 8) =~= hb.subrange(4, 8));
    lemma_be32_roundtrip(size);
    lemma_be32_roundtrip((size + 0x104) as u32);
    assert(r[256] == be32(size)[0] && r[257] == be32(size)[1] && r[258] == be32(size)[2] && r[259] == be32(size)[3]) by {
        assert(r[256] == r.subrange(256, 260)[0]);
        assert(r[257] == r.subrange(256, 260)[1]);
        assert(r[258] == r.subrange(256, 260)[2]);
        assert(r[259] == r.subrange(256, 260)[3]);
    }
    let w = (size + 0x104) as u32;
    assert(r[4] == be32(w)[0] && r[5] == be32(w)[1] && r[6] == be32(w)[2] && r[7] == be32(w)[3]) by {
        assert(r[4] == r.subrange(4, 8)[0]);
        assert(r[5] == r.subrange(4, 8)[1]);
        assert(r[6] == r.subrange(4, 8)[2]);
        assert(r[7] == r.subrange(4, 8)[3]);
    }
}


/// The resource map at the end of the fork names exactly one resource: its
/// header repeats the fork's first sixteen bytes, its type list (at 0x1C)
/// holds the one type `icns` with one resource, and that resource has the
/// ID -16455 (0xBFB9), the ID under which the Finder looks for a folder's
/// custom icon, no name (0xFFFF) and its data at offset 0, the image.
pub proof fn lemma_rsrc_names_custom_icon(icns: Seq<u8>)
    requires
        icns.len() + 0x104 <= u32::MAX,
    ensures
        ({
            let r = rsrc_spec(icns);
            let n = icns.len() as int;
            &&& r.len() == n + 312
            &&& r.subrange(n + 260, n + 276) == r.subrange(0, 16)
            &&& r.subrange(n + 284, n + 288) == seq![0x00u8, 0x1C, 0x00, 0x32]
            &&& r.subrange(n + 288, n + 296) == seq![0x00u8, 0x00, 0x69, 0x63, 0x6E, 0x73, 0x00, 0x00]
            &&& r.subrange(n + 296, n + 298) == seq![0x00u8, 0x0A]
            &&& r[n + 298] * 0x100 + r[n + 299] - 0x1_0000 == -16455
            &&& r.subrange(n + 300, n + 312) == seq![0xFFu8, 0xFF, 0x00, 0x00, 0x00, 0x00, 0x00, 0x00, 0x00, 0x00, 0x00, 0x00]
        }),
{
    let size = icns.len() as u32;
    let n = icns.len() as int;
    let h = rsrc_header(size);
    let t = rsrc_trailer(size);
    assert(h.len() == 65);
    assert(t.len() == 13);
    lemma_be32_words_len(h);
    lemma_be32_words_len(t);
    let hb = be32_words(h);
    let tb = be32_words(t);
    let r = rsrc_spec(icns);
    assert(r == hb + icns + tb);
    assert forall|a: int, b: int| 0 <= a <= b <= 52 implies #[trigger] r.subrange(n + 260 + a, n + 260 + b) == tb.subrange(a, b) by {
        assert(r.subrange(n + 260 + a, n + 260 + b) =~= tb.subrange(a, b));
    }
    lemma_be32_words_index(t, 0);
    lemma_be32_words_index(t, 1);
    lemma_be32_words_index(t, 2);
    lemma_be32_words_index(t, 3);
    lemma_be32_words_index(t, 4);
    lemma_be32_words_index(t, 5);
    lemma_be32_words_index(t, 6);
    lemma_be32_words_index(t, 7);
    lemma_be32_words_index(t, 8);
    lemma_be32_words_index(t, 9);
    lemma_be32_words_index(t, 10);
    lemma_be32_words_index(t, 11);
    lemma_be32_words_index(t, 12);
    lemma_be32_words_index(h, 0);
    lemma_be32_words_index(h, 1);
    lemma_be32_words_index(h, 2);
    lemma_be32_words_index(h, 3);
    assert(tb.subrange(0, 4) == be32(t[0]));
    assert(tb.subrange(4, 8) == be32(t[1]));
    assert(tb.subrange(8, 12) == be32(t[2]));
    assert(tb.subrange(12, 16) == be32(t[3]));
    assert(hb.subrange(0, 4) == be32(h[0]));
    assert(hb.subrange(4, 8) == be32(h[1]));
    assert(hb.subrange(8, 12) == be32(h[2]));
    assert(hb.subrange(12, 16) == be32(h[3]));
    assert(r.subrange(0, 16) =~= hb.subrange(0, 16));
    assert(tb.subrange(0, 16) =~= hb.subrange(0, 16)) by {
        assert(tb.subrange(0, 16) =~= tb.subrange(0, 4) + tb.subrange(4, 8) + tb.subrange(8, 12) + tb.subrange(12, 16));
        assert(hb.subrange(0, 16) =~= hb.subrange(0, 4) + hb.subrange(4, 8) + hb.subrange(8, 12) + hb.subrange(12, 16));
    }
    assert(r.subrange(n + 260, n + 276) == tb.subrange(0, 16));
    assert(tb.subrange(24, 28) == be32(t[6]));
    assert(tb.subrange(28, 32) == be32(t[7]));
    assert(tb.subrange(32, 36) == be32(t[8]));
    assert(tb.subrange(36, 40) == be32(t[9]));
    assert(tb.subrange(40, 44) == be32(t[10]));
    assert(tb.subrange(44, 48) == be32(t[11]));
    assert(tb.subrange(48, 52) == be32(t[12]));
    assert(be32(t[6]) =~= seq![0x00u8, 0x1C, 0x00, 0x32]);
    assert(be32(t[7]) =~= seq![0x00u8, 0x00, 0x69, 0x63]);
    assert(be32(t[8]) =~= seq![0x6Eu8, 0x73, 0x00, 0x00]);
    assert(be32(t[9]) =~= seq![0x00u8, 0x0A, 0xBF, 0xB9]);
    assert(be32(t[10]) =~= seq![0xFFu8, 0xFF, 0x00, 0x00]);
    assert(be32(t[11]) =~= seq![0x00u8, 0x00, 0x00, 0x00]);
    assert(be32(t[12]) =~= seq![0x00u8, 0x00, 0x00, 0x00]);
    assert(r.subrange(n + 284, n + 288) == tb.subrange(24, 28));
    assert(r.subrange(n + 288, n + 296) =~= tb.subrange(28, 32) + tb.subrange(32, 36)) by {
        assert(r.subrange(n + 288, n + 296) == tb.subrange(28, 36));
        assert(tb.subrange(28, 36) =~= tb.subrange(28, 32) + tb.subrange(32, 36));
    }
    assert(r.subrange(n + 296, n + 300) == tb.subrange(36, 40));
    assert(r.subrange(n + 296, n + 298) =~= seq![0x00u8, 0x0A]) by {
        assert(r.subrange(n + 296, n + 298) =~= r.subrange(n + 296, n + 300).subrange(0, 2));
    }
    assert(r[n + 298] == 0xBF && r[n + 299] == 0xB9) by {
        assert(r[n + 298] == r.subrange(n + 296, n + 300)[2]);
        assert(r[n + 299] == r.subrange(n + 296, n + 300)[3]);
    }
    assert(r.subrange(n + 300, n + 312) =~= tb.subrange(40, 44) + tb.subrange(44, 48) + tb.subrange(48, 52)) by {
        assert(r.subrange(n + 300, n + 312) == tb.subrange(40, 52));
        assert(tb.subrange(40, 52) =~= tb.subrange(40, 44) + tb.subrange(44, 48) + tb.subrange(48, 52));
    }
}

} // verus!
