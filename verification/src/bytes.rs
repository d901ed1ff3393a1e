use vstd::prelude::*;

verus! {

/// The four bytes of `n`, most significant first.
pub open spec fn be32(n: u32) -> Seq<u8> {
    seq![
        (n / 0x100_0000) as u8,
        ((n / 0x1_0000) % 0x100) as u8,
        ((n / 0x100) % 0x100) as u8,
        (n % 0x100) as u8,
    ]
}

/// The words written one after another, each most significant byte first.
pub open spec fn be32_words(ws: Seq<u32>) -> Seq<u8>
    decreases ws.len(),
{
    if ws.len() == 0 {
        Seq::<u8>::empty()
    } else {
        be32_words(ws.drop_last()) + be32(ws.last())
    }
}

/// The number that four bytes spell, most significant first.
pub open spec fn read_be32_spec(b0: u8, b1: u8, b2: u8, b3: u8) -> int {
    b0 * 0x100_0000 + b1 * 0x1_0000 + b2 * 0x100 + b3
}

/// The number that two bytes spell, least significant first.
pub open spec fn read_le16_spec(b0: u8, b1: u8) -> int {
    b0 + b1 * 0x100
}

/// Appends `n`, most significant byte first.
pub fn push_be32(v: &mut Vec<u8>, n: u32)
    ensures
        final(v)@ == old(v)@ + be32(n),
{
    v.push((n / 0x100_0000) as u8);
    v.push(((n / 0x1_0000) % 0x100) as u8);
    v.push(((n / 0x100) % 0x100) as u8);
    v.push((n % 0x100) as u8);
    assert(v@ =~= old(v)@ + be32(n));
}

/// Appends the words, each most significant byte first.
pub fn push_be32_words(v: &mut Vec<u8>, ws: &[u32])
    ensures
        final(v)@ == old(v)@ + be32_words(ws@),
{
    let mut i: usize = 0;
    while i < ws.len()
        invariant
            i <= ws.len(),
            v@ == old(v)@ + be32_words(ws@.take(i as int)),
        decreases ws.len() - i,
    {
        assert(ws@.take(i + 1).drop_last() == ws@.take(i as int));
        push_be32(v, ws[i]);
        i += 1;
        assert(v@ =~= old(v)@ + be32_words(ws@.take(i as int)));
    }
    assert(ws@.take(ws.len() as int) == ws@);
}

/// Reads four bytes as a number, most significant first.
pub fn read_be32(b0: u8, b1: u8, b2: u8, b3: u8) -> (res: u32)
    ensures
        res as int == read_be32_spec(b0, b1, b2, b3),
{
    (b0 as u32) * 0x100_0000 + (b1 as u32) * 0x1_0000 + (b2 as u32) * 0x100 + (b3 as u32)
}

/// Reads two bytes as a number, least significant first.
pub fn read_le16(b0: u8, b1: u8) -> (res: u16)
    ensures
        res as int == read_le16_spec(b0, b1),
{
    (b0 as u16) + (b1 as u16) * 0x100
}

/// Reading back the four bytes of a number gives that number.
pub proof fn lemma_be32_roundtrip(n: u32)
    ensures
        read_be32_spec(be32(n)[0], be32(n)[1], be32(n)[2], be32(n)[3]) == n,
{
    let b = be32(n);
    assert(b[0] == n / 0x100_0000);
    assert(b[1] == (n / 0x1_0000) % 0x100);
    assert(b[2] == (n / 0x100) % 0x100);
    assert(b[3] == n % 0x100);
}


/// Each word takes four bytes.
pub proof fn lemma_be32_words_len(ws: Seq<u32>)
    ensures
        be32_words(ws).len() == 4 * ws.len(),
    decreases ws.len(),
{
    if ws.len() > 0 {
        lemma_be32_words_len(ws.drop_last());
    }
}

/// The `i`th word stands at bytes `4i..4i + 4`.
pub proof fn lemma_be32_words_index(ws: Seq<u32>, i: int)
    requires
        0 <= i < ws.len(),
    ensures
        be32_words(ws).subrange(4 * i, 4 * i + 4) == be32(ws[i]),
    decreases ws.len(),
{
    lemma_be32_words_len(ws.drop_last());
    let init = be32_words(ws.drop_last());
    if i == ws.len() - 1 {
        assert(be32_words(ws).subrange(4 * i, 4 * i + 4) =~= be32(ws.last()));
    } else {
        lemma_be32_words_index(ws.drop_last(), i);
        assert(be32_words(ws).subrange(4 * i, 4 * i + 4) =~= init.subrange(4 * i, 4 * i + 4));
    }
}

} // verus!
