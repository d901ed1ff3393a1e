use vstd::prelude::*;

verus! {

/// A decimal digit character.
pub open spec fn is_digit_char(c: char) -> bool {
    '0' <= c && c <= '9'
}

/// The number that a decimal digit character stands for.
pub open spec fn digit_value(c: char) -> nat {
    (c as int - '0' as int) as nat
}

/// The character for a number below ten.
pub open spec fn digit_char(d: nat) -> char {
    (d + '0' as int) as char
}

/// The number that a sequence of decimal digits spells, most significant first.
pub open spec fn decimal_value(s: Seq<char>) -> nat
    decreases s.len(),
{
    if s.len() == 0 {
        0
    } else {
        decimal_value(s.drop_last()) * 10 + digit_value(s.last())
    }
}

/// The shortest decimal spelling of a number.
pub open spec fn decimal_digits(n: nat) -> Seq<char>
    decreases n,
{
    if n < 10 {
        seq![digit_char(n)]
    } else {
        decimal_digits(n / 10).push(digit_char(n % 10))
    }
}

/// Appends one character to a string.
#[verifier::external_body]
fn push_char(s: &mut String, c: char)
    ensures
        final(s)@ == old(s)@.push(c),
{
    s.push(c);
}

/// The text in lower case, as `str::to_lowercase` maps it (Unicode's
/// lowercase mapping, character by character, with the final-sigma rule).
pub uninterp spec fn lowercase(s: Seq<char>) -> Seq<char>;

/// Lowercases text with `str::to_lowercase`.
/// Trusted: the result is what `lowercase` names for the input; nothing more
/// is stated of it.
#[verifier::external_body]
pub(crate) fn to_lowercase(s: &str) -> (res: String)
    ensures
        res@ == lowercase(s@),
{
    s.to_lowercase()
}

/// The characters of a string, in order.
pub fn chars_of(s: &str) -> (res: Vec<char>)
    ensures
        res@ == s@,
{
    let mut res: Vec<char> = Vec::new();
    for c in it: s.chars()
        invariant
            res@ == it.seq().take(it.index() as int),
            it.seq() == s@,
    {
        res.push(c);
    }
    res
}

/// A string made of the given characters.
pub fn string_of(cs: &[char]) -> (res: String)
    ensures
        res@ == cs@,
{
    let mut res = String::new();
    let mut i: usize = 0;
    while i < cs.len()
        invariant
            i <= cs.len(),
            res@ == cs@.take(i as int),
        decreases cs.len() - i,
    {
        push_char(&mut res, cs[i]);
        i += 1;
        assert(cs@.take(i as int) == cs@.take(i - 1).push(cs@[i - 1]));
    }
    assert(cs@.take(cs.len() as int) == cs@);
    res
}


/// Every character is a decimal digit.
pub open spec fn all_digits(s: Seq<char>) -> bool {
    forall|i: int| 0 <= i < s.len() ==> is_digit_char(#[trigger] s[i])
}

/// The digits of an unsigned number in text, after one optional leading `+`.
pub open spec fn unsigned_digits(s: Seq<char>) -> Seq<char> {
    if s.len() > 0 && s[0] == '+' {
        s.drop_first()
    } else {
        s
    }
}

/// What `str::parse::<u32>` gives: one optional `+`, then one or more decimal
/// digits whose value fits in 32 bits.
pub open spec fn parse_u32_spec(s: Seq<char>) -> Option<u32> {
    let d = unsigned_digits(s);
    if d.len() > 0 && all_digits(d) && decimal_value(d) <= u32::MAX {
        Some(decimal_value(d) as u32)
    } else {
        None
    }
}

/// Parses an unsigned 32-bit decimal number, as `str::parse::<u32>` does.
pub fn parse_u32(s: &[char]) -> (res: Option<u32>)
    ensures
        res == parse_u32_spec(s@),
{
    let start: usize = if s.len() > 0 && s[0] == '+' { 1 } else { 0 };
    let ghost d = unsigned_digits(s@);
    assert(d == s@.skip(start as int));
    if start >= s.len() {
        return None;
    }
    let cap: u64 = 0x1_0000_0000;
    let mut acc: u64 = 0;
    let mut i: usize = start;
    while i < s.len()
        invariant
            start <= i <= s.len(),
            d == s@.skip(start as int),
            d == unsigned_digits(s@),
            cap == 0x1_0000_0000u64,
            all_digits(d.take(i - start)),
            acc == if decimal_value(d.take(i - start)) < cap { decimal_value(d.take(i - start)) } else { cap as nat },
        decreases s.len() - i,
    {
        let c = s[i];
        if !('0' <= c && c <= '9') {
            assert(d[i - start] == c);
            assert(!is_digit_char(d[i - start]));
            assert(!all_digits(d));
            return None;
        }
        let dv: u64 = (c as u64) - ('0' as u64);
        let ghost k = i - start;
        assert(d.take(k + 1).drop_last() == d.take(k));
        assert(d.take(k + 1).last() == c);
        assert(dv <= 9);
        if acc < cap {
            let next: u64 = acc * 10 + dv;
            acc = if next >= cap { cap } else { next };
        }
        i += 1;
        assert forall|j: int| 0 <= j < d.take(i - start).len() implies is_digit_char(#[trigger] d.take(i - start)[j]) by {
            if j < k {
                assert(d.take(i - start)[j] == d.take(k)[j]);
            }
        }
    }
    assert(d.take(s.len() - start) == d);
    if acc >= cap {
        None
    } else {
        Some(acc as u32)
    }
}

/// Spells a number in decimal, with no leading zeros.
pub fn decimal_of(n: u64) -> (res: Vec<char>)
    ensures
        res@ == decimal_digits(n as nat),
    decreases n,
{
    let d: u64 = n % 10;
    let c: char = if d == 0 { '0' } else if d == 1 { '1' } else if d == 2 { '2' } else if d == 3 { '3' }
        else if d == 4 { '4' } else if d == 5 { '5' } else if d == 6 { '6' } else if d == 7 { '7' }
        else if d == 8 { '8' } else { '9' };
    assert(c == digit_char(d as nat));
    if n < 10 {
        vec![c]
    } else {
        let mut v = decimal_of(n / 10);
        v.push(c);
        v
    }
}

/// A decimal spelling is made of digits, starts with no `+`, and spells its number.
pub proof fn lemma_decimal_digits(n: nat)
    ensures
        decimal_digits(n).len() > 0,
        all_digits(decimal_digits(n)),
        decimal_digits(n)[0] != '+',
        decimal_value(decimal_digits(n)) == n,
    decreases n,
{
    if n >= 10 {
        lemma_decimal_digits(n / 10);
        let p = decimal_digits(n / 10);
        assert(decimal_digits(n).drop_last() == p);
        assert(decimal_digits(n)[0] == p[0]);
        assert(decimal_digits(n).last() == digit_char(n % 10));
        assert(digit_value(digit_char(n % 10)) == n % 10);
        assert(n == (n / 10) * 10 + n % 10);
        assert forall|i: int| 0 <= i < decimal_digits(n).len() implies is_digit_char(#[trigger] decimal_digits(n)[i]) by {
            if i < p.len() {
                assert(decimal_digits(n)[i] == p[i]);
            }
        }
        let x = decimal_digits(n);
        assert(decimal_value(x) == decimal_value(x.drop_last()) * 10 + digit_value(x.last()));
    } else {
        let x = decimal_digits(n);
        assert(x.drop_last() == Seq::<char>::empty());
        assert(decimal_value(Seq::<char>::empty()) == 0);
        assert(digit_value(digit_char(n)) == n);
        assert(decimal_value(x) == decimal_value(x.drop_last()) * 10 + digit_value(x.last()));
    }
}

/// A decimal spelling holds only digits.
pub proof fn lemma_decimal_has_no(n: nat, c: char)
    requires
        !is_digit_char(c),
    ensures
        forall|i: int| 0 <= i < decimal_digits(n).len() ==> #[trigger] decimal_digits(n)[i] != c,
{
    lemma_decimal_digits(n);
}

/// Reading back the decimal spelling of a 32-bit number gives that number.
pub proof fn lemma_parse_decimal_roundtrip(n: u32)
    ensures
        parse_u32_spec(decimal_digits(n as nat)) == Some(n),
{
    lemma_decimal_digits(n as nat);
}


/// The pieces of `s` between occurrences of `sep`, as `str::split` with a
/// one-character pattern gives them: one more piece than there are separators.
pub open spec fn split_spec(s: Seq<char>, sep: char) -> Seq<Seq<char>>
    decreases s.len(),
{
    if s.len() == 0 {
        seq![Seq::<char>::empty()]
    } else if s.last() == sep {
        split_spec(s.drop_last(), sep).push(Seq::<char>::empty())
    } else {
        let p = split_spec(s.drop_last(), sep);
        p.update(p.len() - 1, p.last().push(s.last()))
    }
}

/// There is always at least one piece.
pub proof fn lemma_split_nonempty(s: Seq<char>, sep: char)
    ensures
        split_spec(s, sep).len() >= 1,
    decreases s.len(),
{
    if s.len() > 0 {
        lemma_split_nonempty(s.drop_last(), sep);
    }
}

/// Splitting text that has a separator at some place gives the pieces
/// before it followed by the pieces after it.
pub proof fn lemma_split_concat(a: Seq<char>, sep: char, b: Seq<char>)
    ensures
        split_spec(a.push(sep) + b, sep) == split_spec(a, sep) + split_spec(b, sep),
    decreases b.len(),
{
    if b.len() == 0 {
        assert(a.push(sep) + b == a.push(sep));
        assert(a.push(sep).drop_last() == a);
        assert(split_spec(b, sep) == seq![Seq::<char>::empty()]);
        assert(split_spec(a, sep).push(Seq::<char>::empty()) == split_spec(a, sep) + seq![Seq::<char>::empty()]);
    } else {
        let x = a.push(sep) + b;
        let bd = b.drop_last();
        assert(x.drop_last() == a.push(sep) + bd);
        assert(x.last() == b.last());
        lemma_split_concat(a, sep, bd);
        lemma_split_nonempty(bd, sep);
        let pa = split_spec(a, sep);
        let pb = split_spec(bd, sep);
        if b.last() == sep {
            assert((pa + pb).push(Seq::<char>::empty()) == pa + pb.push(Seq::<char>::empty()));
        } else {
            let p = pa + pb;
            assert(p.update(p.len() - 1, p.last().push(b.last())) == pa + pb.update(pb.len() - 1, pb.last().push(b.last())));
        }
    }
}

/// The character sequences that a list of character vectors holds.
pub open spec fn char_views(v: Seq<Vec<char>>) -> Seq<Seq<char>> {
    v.map_values(|x: Vec<char>| x@)
}

/// Text without the separator is one piece.
pub proof fn lemma_split_no_sep(s: Seq<char>, sep: char)
    requires
        forall|i: int| 0 <= i < s.len() ==> #[trigger] s[i] != sep,
    ensures
        split_spec(s, sep) == seq![s],
    decreases s.len(),
{
    if s.len() > 0 {
        lemma_split_no_sep(s.drop_last(), sep);
        assert(s.drop_last().push(s.last()) == s);
    } else {
        assert(s == Seq::<char>::empty());
    }
}

/// A separator followed by separator-free text adds that text as the last piece.
pub proof fn lemma_split_append(a: Seq<char>, sep: char, b: Seq<char>)
    requires
        forall|i: int| 0 <= i < b.len() ==> #[trigger] b[i] != sep,
    ensures
        split_spec(a.push(sep) + b, sep) == split_spec(a, sep).push(b),
    decreases b.len(),
{
    if b.len() == 0 {
        assert(a.push(sep) + b == a.push(sep));
        assert(a.push(sep).drop_last() == a);
        assert(b =~= Seq::<char>::empty());
        assert(a.push(sep).last() == sep);
    } else {
        let t = a.push(sep) + b;
        assert(t.drop_last() == a.push(sep) + b.drop_last());
        assert(t.last() == b.last());
        lemma_split_append(a, sep, b.drop_last());
        assert(b.drop_last().push(b.last()) == b);
        let p = split_spec(a, sep).push(b.drop_last());
        assert(split_spec(t, sep) == p.update(p.len() - 1, p.last().push(b.last())));
        assert(p.update(p.len() - 1, p.last().push(b.last())) =~= split_spec(a, sep).push(b));
    }
}

/// Splits `s` at every `sep`.
pub fn split_chars(s: &[char], sep: char) -> (res: Vec<Vec<char>>)
    ensures
        char_views(res@) == split_spec(s@, sep),
{
    let mut pieces: Vec<Vec<char>> = Vec::new();
    let mut cur: Vec<char> = Vec::new();
    let mut i: usize = 0;
    assert(s@.take(0) == Seq::<char>::empty());
    while i < s.len()
        invariant
            i <= s.len(),
            char_views(pieces@).push(cur@) == split_spec(s@.take(i as int), sep),
        decreases s.len() - i,
    {
        let c = s[i];
        let ghost prev = s@.take(i as int);
        assert(s@.take(i + 1).drop_last() == prev);
        assert(s@.take(i + 1).last() == c);
        proof {
            lemma_split_nonempty(prev, sep);
        }
        let ghost old_pieces = pieces@;
        let ghost old_cur = cur@;
        if c == sep {
            let done = cur;
            pieces.push(done);
            cur = Vec::new();
            assert(char_views(pieces@) =~= char_views(old_pieces).push(old_cur));
        } else {
            cur.push(c);
            assert(char_views(pieces@).push(cur@) =~= split_spec(prev, sep).update(
                split_spec(prev, sep).len() - 1,
                split_spec(prev, sep).last().push(c),
            ));
        }
        i += 1;
    }
    assert(s@.take(s.len() as int) == s@);
    let ghost old_pieces = pieces@;
    let ghost old_cur = cur@;
    pieces.push(cur);
    assert(char_views(pieces@) =~= char_views(old_pieces).push(old_cur));
    pieces
}

/// The pieces joined with `sep` between each two of them, as `join` on a slice
/// of strings gives it.
pub open spec fn join_spec(parts: Seq<Seq<char>>, sep: Seq<char>) -> Seq<char>
    decreases parts.len(),
{
    if parts.len() == 0 {
        Seq::<char>::empty()
    } else if parts.len() == 1 {
        parts[0]
    } else {
        join_spec(parts.drop_last(), sep) + sep + parts.last()
    }
}

/// Joins the pieces with `sep` between each two of them.
pub fn join_chars(parts: &[Vec<char>], sep: &[char]) -> (res: Vec<char>)
    ensures
        res@ == join_spec(char_views(parts@), sep@),
{
    let mut res: Vec<char> = Vec::new();
    let mut i: usize = 0;
    while i < parts.len()
        invariant
            i <= parts.len(),
            res@ == join_spec(char_views(parts@).take(i as int), sep@),
        decreases parts.len() - i,
    {
        let ghost prev = char_views(parts@).take(i as int);
        assert(char_views(parts@).take(i + 1).drop_last() == prev);
        assert(char_views(parts@).take(i + 1).last() == parts[i as int]@);
        if i > 0 {
            let mut k: usize = 0;
            let ghost base = res@;
            while k < sep.len()
                invariant
                    k <= sep.len(),
                    res@ == base + sep@.take(k as int),
                decreases sep.len() - k,
            {
                res.push(sep[k]);
                k += 1;
                assert(sep@.take(k as int) == sep@.take(k - 1).push(sep@[k - 1]));
            }
            assert(sep@.take(sep.len() as int) == sep@);
        }
        let part = &parts[i];
        let mut k: usize = 0;
        let ghost base = res@;
        while k < part.len()
            invariant
                k <= part.len(),
                res@ == base + part@.take(k as int),
            decreases part.len() - k,
        {
            res.push(part[k]);
            k += 1;
            assert(part@.take(k as int) == part@.take(k - 1).push(part@[k - 1]));
        }
        assert(part@.take(part.len() as int) == part@);
        i += 1;
        if i == 1 {
            assert(res@ == part@);
        }
    }
    assert(char_views(parts@).take(parts.len() as int) == char_views(parts@));
    res
}

/// `needle` occurs somewhere in `hay`, as `str::contains` with a string pattern tells.
pub open spec fn contains_spec(hay: Seq<char>, needle: Seq<char>) -> bool {
    exists|i: int| 0 <= i && i + needle.len() <= hay.len() && #[trigger] hay.subrange(i, i + needle.len()) == needle
}

/// Whether `needle` occurs in `hay`.
pub fn contains_chars(hay: &[char], needle: &[char]) -> (res: bool)
    ensures
        res == contains_spec(hay@, needle@),
{
    if needle.len() > hay.len() {
        return false;
    }
    let last = hay.len() - needle.len();
    let mut i: usize = 0;
    while i <= last
        invariant
            last == hay.len() - needle.len(),
            needle.len() <= hay.len(),
            i <= last + 1,
            forall|k: int| 0 <= k < i ==> #[trigger] hay@.subrange(k, k + needle.len()) != needle@,
        decreases last + 1 - i,
    {
        let mut j: usize = 0;
        let mut same = true;
        assert(hay@.subrange(i as int, i as int) =~= needle@.take(0));
        while j < needle.len()
            invariant
                i <= last,
                last == hay.len() - needle.len(),
                j <= needle.len(),
                same == (hay@.subrange(i as int, i + j) == needle@.take(j as int)),
            decreases needle.len() - j,
        {
            if hay[i + j] != needle[j] {
                same = false;
                assert(hay@.subrange(i as int, i + j + 1)[j as int] != needle@.take(j + 1)[j as int]);
            } else if same {
                assert(hay@.subrange(i as int, i + j + 1) == hay@.subrange(i as int, i + j).push(hay[i + j]));
                assert(needle@.take(j + 1) == needle@.take(j as int).push(needle[j as int]));
            }
            if !same {
                assert(hay@.subrange(i as int, i + j + 1) != needle@.take(j + 1)) by {
                    if hay@.subrange(i as int, i + j + 1) == needle@.take(j + 1) {
                        assert(hay@.subrange(i as int, i + j) == hay@.subrange(i as int, i + j + 1).take(j as int));
                        assert(needle@.take(j as int) == needle@.take(j + 1).take(j as int));
                    }
                }
            }
            j += 1;
        }
        assert(needle@.take(needle.len() as int) == needle@);
        if same {
            return true;
        }
        if i == last {
            assert forall|k: int| 0 <= k && k + needle.len() <= hay.len() implies #[trigger] hay@.subrange(k, k + needle.len()) != needle@ by {
                assert(k <= i);
            }
            return false;
        }
        i += 1;
    }
    assert forall|k: int| 0 <= k && k + needle.len() <= hay.len() implies #[trigger] hay@.subrange(k, k + needle.len()) != needle@ by {
        assert(k < i);
    }
    false
}


/// The first position at or after `i` where `pat` occurs in `s`.
pub open spec fn find_from(s: Seq<char>, pat: Seq<char>, i: int) -> Option<int>
    decreases s.len() + 1 - i,
{
    if i < 0 || i + pat.len() > s.len() {
        None
    } else if s.subrange(i, i + pat.len()) == pat {
        Some(i)
    } else {
        find_from(s, pat, i + 1)
    }
}

/// `s` with the first occurrence of `pat` replaced by `rep`, as
/// `str::replacen(pat, rep, 1)` gives it.
pub open spec fn replace_first_spec(s: Seq<char>, pat: Seq<char>, rep: Seq<char>) -> Seq<char> {
    match find_from(s, pat, 0) {
        Some(i) => s.take(i) + rep + s.skip(i + pat.len()),
        None => s,
    }
}

/// Whether `pat` occurs in `s` at position `i`.
fn occurs_at(s: &[char], pat: &[char], i: usize) -> (res: bool)
    requires
        i + pat@.len() <= s@.len(),
    ensures
        res == (s@.subrange(i as int, i + pat@.len()) == pat@),
{
    let n = s.len();
    let mut j: usize = 0;
    while j < pat.len()
        invariant
            n == s@.len(),
            i + pat@.len() <= n,
            j <= pat@.len(),
            forall|k: int| 0 <= k < j ==> s@[i + k] == pat@[k],
        decreases pat@.len() - j,
    {
        if s[i + j] != pat[j] {
            assert(s@.subrange(i as int, i + pat@.len())[j as int] != pat@[j as int]);
            return false;
        }
        j += 1;
    }
    assert(s@.subrange(i as int, i + pat@.len()) =~= pat@);
    true
}

/// The first position where `pat` occurs in `s`.
fn find_first(s: &[char], pat: &[char]) -> (res: Option<usize>)
    ensures
        match find_from(s@, pat@, 0) {
            Some(i) => res == Some(i as usize),
            None => res is None,
        },
{
    let n = s.len();
    if pat.len() > n {
        return None;
    }
    let last = n - pat.len();
    let mut i: usize = 0;
    while i <= last
        invariant
            n == s@.len(),
            last == n - pat@.len(),
            i <= last + 1,
            find_from(s@, pat@, 0) == find_from(s@, pat@, i as int),
        decreases last + 1 - i,
    {
        if occurs_at(s, pat, i) {
            return Some(i);
        }
        if i == last {
            assert(find_from(s@, pat@, i + 1) is None);
            return None;
        }
        i += 1;
    }
    None
}

/// A position that `find_from` gives is one where `pat` occurs.
proof fn lemma_find_from_found(s: Seq<char>, pat: Seq<char>, i: int)
    ensures
        find_from(s, pat, i) matches Some(k) ==> i <= k && k + pat.len() <= s.len()
            && s.subrange(k, k + pat.len()) == pat,
    decreases s.len() + 1 - i,
{
    if !(i < 0 || i + pat.len() > s.len()) && s.subrange(i, i + pat.len()) != pat {
        lemma_find_from_found(s, pat, i + 1);
    }
}

/// Replaces the first occurrence of `pat` in `s` by `rep`.
pub fn replace_first(s: &[char], pat: &[char], rep: &[char]) -> (res: Vec<char>)
    ensures
        res@ == replace_first_spec(s@, pat@, rep@),
{
    let n = s.len();
    let found = find_first(s, pat);
    match found {
        None => {
            vstd::slice::slice_to_vec(s)
        },
        Some(k) => {
            proof {
                lemma_find_from_found(s@, pat@, 0);
            }
            let mut out: Vec<char> = Vec::new();
            let mut a: usize = 0;
            while a < k
                invariant
                    k + pat@.len() <= s@.len(),
                    a <= k,
                    out@ == s@.take(a as int),
                decreases k - a,
            {
                out.push(s[a]);
                a += 1;
                assert(out@ =~= s@.take(a as int));
            }
            let mut b: usize = 0;
            let ghost base = out@;
            while b < rep.len()
                invariant
                    b <= rep@.len(),
                    out@ == base + rep@.take(b as int),
                decreases rep@.len() - b,
            {
                out.push(rep[b]);
                b += 1;
                assert(out@ =~= base + rep@.take(b as int));
            }
            assert(rep@.take(rep@.len() as int) == rep@);
            let mut c: usize = k + pat.len();
            let ghost base2 = out@;
            while c < n
                invariant
                    n == s@.len(),
                    k + pat@.len() <= c <= n,
                    out@ == base2 + s@.subrange(k + pat@.len(), c as int),
                decreases n - c,
            {
                out.push(s[c]);
                c += 1;
                assert(out@ =~= base2 + s@.subrange(k + pat@.len(), c as int));
            }
            assert(s@.subrange(k + pat@.len(), n as int) =~= s@.skip(k + pat@.len()));
            out
        },
    }
}


/// Joining the pieces of a split with the separator gives back the text.
pub proof fn lemma_join_split(s: Seq<char>, sep: char)
    ensures
        join_spec(split_spec(s, sep), seq![sep]) == s,
    decreases s.len(),
{
    if s.len() == 0 {
        assert(split_spec(s, sep) == seq![Seq::<char>::empty()]);
        assert(s =~= Seq::<char>::empty());
    } else {
        let t = s.drop_last();
        lemma_join_split(t, sep);
        lemma_split_nonempty(t, sep);
        let p = split_spec(t, sep);
        if s.last() == sep {
            let q = p.push(Seq::<char>::empty());
            assert(q.drop_last() == p);
            assert(join_spec(q, seq![sep]) == join_spec(p, seq![sep]) + seq![sep] + Seq::<char>::empty());
            assert(s =~= t + seq![sep] + Seq::<char>::empty());
        } else {
            let q = p.update(p.len() - 1, p.last().push(s.last()));
            if p.len() == 1 {
                assert(join_spec(q, seq![sep]) == q[0]);
                assert(s =~= p[0].push(s.last()));
            } else {
                assert(q.drop_last() =~= p.drop_last());
                assert(join_spec(q, seq![sep]) == join_spec(p.drop_last(), seq![sep]) + seq![sep] + p.last().push(s.last()));
                assert(join_spec(p, seq![sep]) == join_spec(p.drop_last(), seq![sep]) + seq![sep] + p.last());
                assert(s =~= t.push(s.last()));
                assert(join_spec(q, seq![sep]) =~= join_spec(p, seq![sep]).push(s.last()));
            }
        }
    }
}

/// Splitting pieces joined with a separator that none of them holds gives
/// back the pieces.
pub proof fn lemma_split_join(parts: Seq<Seq<char>>, sep: char)
    requires
        parts.len() > 0,
        forall|i: int, j: int| 0 <= i < parts.len() && 0 <= j < parts[i].len() ==> #[trigger] parts[i][j] != sep,
    ensures
        split_spec(join_spec(parts, seq![sep]), sep) == parts,
    decreases parts.len(),
{
    if parts.len() == 1 {
        assert forall|j: int| 0 <= j < parts[0].len() implies #[trigger] parts[0][j] != sep by {
            assert(parts[0][j] != sep);
        }
        lemma_split_no_sep(parts[0], sep);
        assert(parts =~= seq![parts[0]]);
    } else {
        let init = parts.drop_last();
        assert forall|i: int, j: int| 0 <= i < init.len() && 0 <= j < init[i].len() implies #[trigger] init[i][j] != sep by {
            assert(init[i] == parts[i]);
        }
        lemma_split_join(init, sep);
        let last = parts.last();
        assert forall|j: int| 0 <= j < last.len() implies #[trigger] last[j] != sep by {
            assert(parts[parts.len() - 1][j] != sep);
        }
        lemma_split_append(join_spec(init, seq![sep]), sep, last);
        assert(join_spec(parts, seq![sep]) =~= join_spec(init, seq![sep]).push(sep) + last);
        assert(init.push(last) =~= parts);
    }
}

} // verus!
