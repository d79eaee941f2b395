use pic_url::order::{precedes, sort_paths};

fn strings(items: &[&str]) -> Vec<String> {
    items.iter().map(|s| s.to_string()).collect()
}

#[test]
fn precedes_compares_character_by_character() {
    assert!(precedes("a/car.png", "a/cat.png"));
    assert!(!precedes("a/cat.png", "a/car.png"));
    assert!(precedes("a", "b"));
    assert!(!precedes("b", "a"));
}

#[test]
fn a_prefix_comes_first() {
    assert!(precedes("", "a"));
    assert!(precedes("a", "ab"));
    assert!(!precedes("ab", "a"));
    assert!(!precedes("a", ""));
}

#[test]
fn equal_paths_precede_each_other() {
    assert!(precedes("", ""));
    assert!(precedes("a/cat.png", "a/cat.png"));
}

#[test]
fn upper_case_comes_before_lower_case() {
    assert!(precedes("Z.png", "a.png"));
    assert!(!precedes("a.png", "Z.png"));
}

#[test]
fn precedes_agrees_with_the_order_of_strings() {
    let samples = [
        "", "a", "A", "a/b", "a.png", "a-b", "b", "ab", "\u{00e9}", "\u{732b}.png", "z",
        "\u{1F600}", "a\u{0301}", "~", "a/", "a0",
    ];
    for x in samples {
        for y in samples {
            assert_eq!(precedes(x, y), x <= y, "{:?} and {:?}", x, y);
        }
    }
}

#[test]
fn sort_paths_sorts() {
    let sorted = sort_paths(strings(&["b.png", "a/z.png", "a/cat.png", "B.png", "a.png"]));
    assert_eq!(sorted, strings(&["B.png", "a.png", "a/cat.png", "a/z.png", "b.png"]));
}

#[test]
fn sort_paths_keeps_duplicates() {
    let sorted = sort_paths(strings(&["b", "a", "b", "a"]));
    assert_eq!(sorted, strings(&["a", "a", "b", "b"]));
}

#[test]
fn sort_paths_of_nothing_is_nothing() {
    assert_eq!(sort_paths(Vec::new()), Vec::<String>::new());
    assert_eq!(sort_paths(strings(&["only"])), strings(&["only"]));
}

#[test]
fn sort_paths_agrees_with_the_sort_of_strings() {
    let mut paths = Vec::new();
    let mut seed: u32 = 12345;
    for _ in 0..300 {
        seed = seed.wrapping_mul(1664525).wrapping_add(1013904223);
        let dir = (seed >> 8) % 7;
        seed = seed.wrapping_mul(1664525).wrapping_add(1013904223);
        let file = (seed >> 8) % 50;
        paths.push(format!("dir{}/pic{}.png", dir, file));
    }
    let mut expected = paths.clone();
    expected.sort();
    assert_eq!(sort_paths(paths), expected);
}

#[test]
fn sorting_forgets_the_order_found() {
    let one = sort_paths(strings(&["c.png", "a.png", "b.png"]));
    let other = sort_paths(strings(&["b.png", "c.png", "a.png"]));
    assert_eq!(one, other);
}
