use crate::sort::{stable_sort_desc, stable_sorted_desc, sorted_desc, SortKey};
use crate::text::{
    chars_of, decimal_digits, decimal_of, parse_u32, parse_u32_spec, split_chars, split_spec,
    string_of,
};
use core::cmp::Ordering;
use vstd::prelude::*;

verus! {

/// The dimensions of an icon in pixels.
#[derive(Debug, Clone, Copy, PartialEq, Eq, Structural)]
pub struct IconSize {
    pub width: u32,
    pub height: u32,
}

/// Why a size such as `16x16` could not be read.
#[derive(Debug, Clone, Copy, PartialEq, Eq, Structural)]
pub enum SizeError {
    /// The text before the first `x` is no 32-bit number.
    InvalidWidth,
    /// There is no `x` in the text.
    MissingHeight,
    /// The text between the first and second `x` is no 32-bit number.
    InvalidHeight,
}

/// Why a list of sizes could not be read.
#[derive(Debug, Clone, Copy, PartialEq, Eq, Structural)]
pub enum SizesError {
    /// None of the space-separated entries is a size.
    NoSize,
}

/// How `WIDTHxHEIGHT` text reads: the first two `x`-separated pieces are the
/// width and the height; anything after a second `x` is ignored.
pub open spec fn parse_size_spec(s: Seq<char>) -> Result<IconSize, SizeError> {
    let pieces = split_spec(s, 'x');
    match parse_u32_spec(pieces[0]) {
        None => Err(SizeError::InvalidWidth),
        Some(width) => if pieces.len() < 2 {
            Err(SizeError::MissingHeight)
        } else {
            match parse_u32_spec(pieces[1]) {
                None => Err(SizeError::InvalidHeight),
                Some(height) => Ok(IconSize { width, height }),
            }
        },
    }
}

/// The `WIDTHxHEIGHT` text of a size.
pub open spec fn size_text(s: IconSize) -> Seq<char> {
    decimal_digits(s.width as nat) + seq!['x'] + decimal_digits(s.height as nat)
}

impl IconSize {
    /// The number of pixels.
    pub open spec fn area(self) -> int {
        self.width * self.height
    }

    /// A size of `width` by `height` pixels.
    pub fn new(width: u32, height: u32) -> (res: Self)
        ensures
            res == (IconSize { width, height }),
    {
        IconSize { width, height }
    }

    /// Reads `WIDTHxHEIGHT` text.
    pub fn from_text(s: &str) -> (res: Result<IconSize, SizeError>)
        ensures
            res == parse_size_spec(s@),
    {
        let cs = chars_of(s);
        let pieces = split_chars(cs.as_slice(), 'x');
        proof {
            crate::text::lemma_split_nonempty(cs@, 'x');
        }
        assert(pieces@[0]@ == split_spec(s@, 'x')[0]);
        let width = match parse_u32(pieces[0].as_slice()) {
            None => return Err(SizeError::InvalidWidth),
            Some(w) => w,
        };
        if pieces.len() < 2 {
            return Err(SizeError::MissingHeight);
        }
        assert(pieces@[1]@ == split_spec(s@, 'x')[1]);
        match parse_u32(pieces[1].as_slice()) {
            None => Err(SizeError::InvalidHeight),
            Some(height) => Ok(IconSize { width, height }),
        }
    }

    /// The `WIDTHxHEIGHT` text of this size.
    pub fn to_text(&self) -> (res: String)
        ensures
            res@ == size_text(*self),
    {
        let mut cs = decimal_of(self.width as u64);
        cs.push('x');
        let mut h = decimal_of(self.height as u64);
        cs.append(&mut h);
        string_of(cs.as_slice())
    }
}

impl SortKey for IconSize {
    open spec fn sort_key(&self) -> int {
        self.area()
    }

    fn key(&self) -> (k: u64) {
        assert((self.width as int) * (self.height as int) <= 0xffff_ffff * 0xffff_ffff) by (nonlinear_arith)
            requires
                self.width <= 0xffff_ffff,
                self.height <= 0xffff_ffff,
        ;
        (self.width as u64) * (self.height as u64)
    }
}

/// How two sizes order: the one with more pixels comes first.
pub open spec fn size_order(a: IconSize, b: IconSize) -> Ordering {
    if b.area() < a.area() {
        Ordering::Less
    } else if b.area() == a.area() {
        Ordering::Equal
    } else {
        Ordering::Greater
    }
}

impl IconSize {
    /// Orders sizes so that the one with more pixels comes first (the pixel
    /// counts are 32-bit products).
    pub fn cmp(&self, other: &Self) -> (res: Ordering)
        requires
            self.area() <= u32::MAX,
            other.area() <= u32::MAX,
        ensures
            res == size_order(*self, *other),
    {
        let mine = self.key();
        let theirs = other.key();
        if theirs < mine {
            Ordering::Less
        } else if theirs == mine {
            Ordering::Equal
        } else {
            Ordering::Greater
        }
    }

    /// The same order as `cmp`, always defined.
    pub fn partial_cmp(&self, other: &Self) -> (res: Option<Ordering>)
        requires
            self.area() <= u32::MAX,
            other.area() <= u32::MAX,
        ensures
            res == Some(size_order(*self, *other)),
    {
        Some(self.cmp(other))
    }
}


/// The sizes that the space-separated entries read as, in order; entries that
/// are no size are left out.
pub open spec fn parsed_sizes(pieces: Seq<Seq<char>>) -> Seq<IconSize>
    decreases pieces.len(),
{
    if pieces.len() == 0 {
        Seq::<IconSize>::empty()
    } else {
        let rest = parsed_sizes(pieces.drop_last());
        match parse_size_spec(pieces.last()) {
            Ok(size) => rest.push(size),
            Err(_) => rest,
        }
    }
}

/// Sorting compares sizes by their 32-bit pixel counts, which must not
/// overflow; a single size is never compared.
pub open spec fn areas_fit(sizes: Seq<IconSize>) -> bool {
    sizes.len() <= 1 || forall|i: int| 0 <= i < sizes.len() ==> #[trigger] sizes[i].area() <= u32::MAX
}

/// A list of icon sizes.
#[derive(Debug, PartialEq, Eq)]
pub struct IconSizes(pub Vec<IconSize>);

impl View for IconSizes {
    type V = Seq<IconSize>;

    open spec fn view(&self) -> Seq<IconSize> {
        self.0@
    }
}

impl IconSizes {
    /// An empty list.
    pub fn new() -> (res: Self)
        ensures
            res@ == Seq::<IconSize>::empty(),
    {
        IconSizes(Vec::new())
    }

    /// Reads a `sizes` attribute such as `16x16 32x32`: the entries between
    /// single spaces that read as sizes, largest first, sizes of equal area in
    /// their order in the text. Fails when no entry reads as a size.
    pub fn from_str(sizes_str: &str) -> (res: Result<IconSizes, SizesError>)
        requires
            areas_fit(parsed_sizes(split_spec(sizes_str@, ' '))),
        ensures
            parsed_sizes(split_spec(sizes_str@, ' ')).len() == 0 <==> res == Err::<IconSizes, SizesError>(SizesError::NoSize),
            res matches Ok(sizes) ==> stable_sorted_desc(parsed_sizes(split_spec(sizes_str@, ' ')), sizes@),
            res matches Ok(sizes) ==> sizes@.to_multiset() == parsed_sizes(split_spec(sizes_str@, ' ')).to_multiset(),
    {
        let cs = chars_of(sizes_str);
        let pieces = split_chars(cs.as_slice(), ' ');
        let ghost all = split_spec(sizes_str@, ' ');
        let mut sizes: Vec<IconSize> = Vec::new();
        let mut i: usize = 0;
        while i < pieces.len()
            invariant
                i <= pieces.len(),
                crate::text::char_views(pieces@) == all,
                sizes@ == parsed_sizes(all.take(i as int)),
            decreases pieces.len() - i,
        {
            let text = string_of(pieces[i].as_slice());
            assert(all.take(i + 1).drop_last() == all.take(i as int));
            assert(all.take(i + 1).last() == pieces@[i as int]@);
            match IconSize::from_text(text.as_str()) {
                Ok(size) => sizes.push(size),
                Err(_) => {},
            }
            i += 1;
        }
        assert(all.take(pieces.len() as int) == all);
        if sizes.len() == 0 {
            return Err(SizesError::NoSize);
        }
        let ghost unsorted = sizes@;
        let sorted = stable_sort_desc(sizes);
        proof {
            vstd::seq_lib::to_multiset_len(sorted@);
            vstd::seq_lib::to_multiset_len(unsorted);
        }
        Ok(IconSizes(sorted))
    }

    /// Appends a size.
    pub fn add_size(&mut self, width: u32, height: u32)
        ensures
            final(self)@ == old(self)@.push(IconSize { width, height }),
    {
        self.0.push(IconSize::new(width, height));
    }

    /// The first size of the list: the largest one in a list that `from_str` made.
    pub fn largest(&self) -> (res: &IconSize)
        requires
            self@.len() > 0,
        ensures
            *res == self@[0],
    {
        &self.0[0]
    }

    /// The first size of the list, taking the list.
    pub fn into_largest(self) -> (res: IconSize)
        requires
            self@.len() > 0,
        ensures
            res == self@[0],
    {
        self.0[0]
    }

    /// The sizes, read-only.
    pub fn deref(&self) -> (res: &Vec<IconSize>)
        ensures
            res@ == self@,
    {
        &self.0
    }

    /// Orders lists by their first sizes.
    pub fn cmp(&self, other: &Self) -> (res: Ordering)
        requires
            self@.len() > 0,
            other@.len() > 0,
            self@[0].area() <= u32::MAX,
            other@[0].area() <= u32::MAX,
        ensures
            res == size_order(self@[0], other@[0]),
    {
        self.largest().cmp(other.largest())
    }

    /// The same order as `cmp`.
    pub fn partial_cmp(&self, other: &Self) -> (res: Option<Ordering>)
        requires
            self@.len() > 0,
            other@.len() > 0,
            self@[0].area() <= u32::MAX,
            other@[0].area() <= u32::MAX,
        ensures
            res == Some(size_order(self@[0], other@[0])),
    {
        Some(self.cmp(other))
    }

    /// The number of sizes.
    pub fn len(&self) -> (res: usize)
        ensures
            res == self@.len(),
    {
        self.0.len()
    }

    /// Whether the list is empty.
    pub fn is_empty(&self) -> (res: bool)
        ensures
            res == (self@.len() == 0),
    {
        self.0.len() == 0
    }
}

/// Reading back the text of a size gives that size.
pub proof fn lemma_size_text_roundtrip(s: IconSize)
    ensures
        parse_size_spec(size_text(s)) == Ok::<IconSize, SizeError>(s),
{
    let w = decimal_digits(s.width as nat);
    let h = decimal_digits(s.height as nat);
    crate::text::lemma_decimal_has_no(s.width as nat, 'x');
    crate::text::lemma_decimal_has_no(s.height as nat, 'x');
    crate::text::lemma_split_no_sep(w, 'x');
    crate::text::lemma_split_append(w, 'x', h);
    assert(size_text(s) == w.push('x') + h);
    crate::text::lemma_parse_decimal_roundtrip(s.width);
    crate::text::lemma_parse_decimal_roundtrip(s.height);
}

/// Swapping two sizes reverses their order.
pub proof fn lemma_size_order_antisymmetric(a: IconSize, b: IconSize)
    ensures
        size_order(a, b) == Ordering::Less <==> size_order(b, a) == Ordering::Greater,
        size_order(a, b) == Ordering::Equal <==> size_order(b, a) == Ordering::Equal,
{
}

/// In a list sorted by descending area, the first size has the largest area.
pub proof fn lemma_first_is_largest(sizes: Seq<IconSize>)
    requires
        sorted_desc(sizes),
        sizes.len() > 0,
    ensures
        forall|i: int| 0 <= i < sizes.len() ==> #[trigger] sizes[i].area() <= sizes[0].area(),
{
    assert forall|i: int| 0 <= i < sizes.len() implies #[trigger] sizes[i].area() <= sizes[0].area() by {
        if i > 0 {
            assert(sizes[0].sort_key() >= sizes[i].sort_key());
        }
    }
}

} // verus!
