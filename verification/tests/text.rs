use pic_url::codec::can_resize;
use pic_url::text::{chars_of, to_ascii_lower};

#[test]
fn chars_of_takes_a_string_apart() {
    assert_eq!(chars_of(""), Vec::<char>::new());
    assert_eq!(chars_of("a/b"), vec!['a', '/', 'b']);
    assert_eq!(chars_of("\u{00e9}\u{732b}"), vec!['\u{00e9}', '\u{732b}']);
}

#[test]
fn ascii_letters_are_lowered() {
    assert_eq!(to_ascii_lower('A'), 'a');
    assert_eq!(to_ascii_lower('Z'), 'z');
    assert_eq!(to_ascii_lower('P'), 'p');
    for c in ['A', 'G', 'M', 'Z', 'a', 'z', '0', '.', '/', '@', '[', '\u{00c9}', '\u{212A}'] {
        assert_eq!(to_ascii_lower(c), c.to_ascii_lowercase());
    }
}

#[test]
fn other_characters_stay() {
    assert_eq!(to_ascii_lower('a'), 'a');
    assert_eq!(to_ascii_lower('@'), '@');
    assert_eq!(to_ascii_lower('['), '[');
    assert_eq!(to_ascii_lower('\u{00c9}'), '\u{00c9}');
}

#[test]
fn thumbnails_of_ordinary_pictures_can_be_resized() {
    assert!(can_resize(300, 100, 200));
    assert!(can_resize(0, 0, 0));
    assert!(can_resize(100_000, 200, 200));
}

#[test]
fn sizes_beyond_an_allocation_cannot_be_resized() {
    assert!(!can_resize(u32::MAX, u32::MAX, u32::MAX));
    assert!(!can_resize(1, u32::MAX, u32::MAX));
    assert!(!can_resize(u32::MAX, 1, u32::MAX));
    assert!(can_resize(u32::MAX, u32::MAX, 0));
}

#[test]
fn resize_limit_is_the_largest_allocation() {
    // Sixteen bytes a pixel, and no allocation over `isize::MAX` bytes.
    let limit = isize::MAX as u128;
    for (width, nwidth, nheight) in [(1u32 << 31, 200u32, 1u32 << 28), (70_000, 70_000, 70_000)] {
        let a = 16 * (width as u128) * (nheight as u128);
        let b = 16 * (nwidth as u128) * (nheight as u128);
        assert_eq!(can_resize(width, nwidth, nheight), a <= limit && b <= limit);
    }
}
