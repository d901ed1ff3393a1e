use repositories::icons::size::{IconSize, IconSizes, SizeError, SizesError};
use std::cmp::Ordering;

#[test]
fn parses_a_size() {
    assert_eq!(IconSize::from_text("16x32"), Ok(IconSize::new(16, 32)));
}

#[test]
fn size_errors() {
    assert_eq!(IconSize::from_text("16"), Err(SizeError::MissingHeight));
    assert_eq!(IconSize::from_text("ax16"), Err(SizeError::InvalidWidth));
    assert_eq!(IconSize::from_text("x16"), Err(SizeError::InvalidWidth));
    assert_eq!(IconSize::from_text("16xb"), Err(SizeError::InvalidHeight));
    assert_eq!(IconSize::from_text("4294967296x1"), Err(SizeError::InvalidWidth));
    assert_eq!(IconSize::from_text("-1x1"), Err(SizeError::InvalidWidth));
}

#[test]
fn size_accepts_what_u32_parse_accepts() {
    assert_eq!(IconSize::from_text("+5x007"), Ok(IconSize::new(5, 7)));
    assert_eq!(IconSize::from_text("1x2x3"), Ok(IconSize::new(1, 2)));
    assert_eq!(IconSize::from_text("4294967295x0"), Ok(IconSize::new(4294967295, 0)));
}

#[test]
fn size_text_roundtrip() {
    let s = IconSize::new(640, 480);
    assert_eq!(s.to_text(), "640x480");
    assert_eq!(IconSize::from_text(&s.to_text()), Ok(s));
    let z = IconSize::new(0, 4294967295);
    assert_eq!(IconSize::from_text(&z.to_text()), Ok(z));
}

#[test]
fn size_order_puts_larger_first() {
    let big = IconSize::new(64, 64);
    let small = IconSize::new(16, 16);
    assert_eq!(big.cmp(&small), Ordering::Less);
    assert_eq!(small.cmp(&big), Ordering::Greater);
    assert_eq!(IconSize::new(2, 8).cmp(&IconSize::new(4, 4)), Ordering::Equal);
    assert_eq!(big.partial_cmp(&small), Some(Ordering::Less));
}

#[test]
fn sizes_from_str_sorts_largest_first() {
    let sizes = IconSizes::from_str("16x16 32x32 garbage 8x8").unwrap();
    assert_eq!(sizes.0, vec![IconSize::new(32, 32), IconSize::new(16, 16), IconSize::new(8, 8)]);
    assert_eq!(*sizes.largest(), IconSize::new(32, 32));
    assert_eq!(sizes.len(), 3);
}

#[test]
fn sizes_sort_is_stable() {
    let sizes = IconSizes::from_str("2x8 1x1 4x4 8x2").unwrap();
    assert_eq!(
        sizes.0,
        vec![IconSize::new(2, 8), IconSize::new(4, 4), IconSize::new(8, 2), IconSize::new(1, 1)]
    );
}

#[test]
fn sizes_skip_empty_pieces() {
    let sizes = IconSizes::from_str("  48x48  ").unwrap();
    assert_eq!(sizes.0, vec![IconSize::new(48, 48)]);
}

#[test]
fn sizes_need_one_size() {
    assert_eq!(IconSizes::from_str("").err(), Some(SizesError::NoSize));
    assert_eq!(IconSizes::from_str("any").err(), Some(SizesError::NoSize));
}

#[test]
fn sizes_add_and_largest() {
    let mut sizes = IconSizes::new();
    assert!(sizes.is_empty());
    sizes.add_size(10, 20);
    sizes.add_size(100, 200);
    assert_eq!(sizes.deref().len(), 2);
    assert_eq!(*sizes.largest(), IconSize::new(10, 20));
    let other = IconSizes::from_str("5x5").unwrap();
    assert_eq!(sizes.cmp(&other), Ordering::Less);
    assert_eq!(sizes.partial_cmp(&other), Some(Ordering::Less));
    assert_eq!(sizes.into_largest(), IconSize::new(10, 20));
}
