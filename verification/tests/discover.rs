use pic_url::discover::{DirEntry, Walker};

fn dir(name: &str) -> DirEntry {
    DirEntry { name: name.to_string(), is_dir: true }
}

fn file(name: &str) -> DirEntry {
    DirEntry { name: name.to_string(), is_dir: false }
}

/// Runs a search over a tree given as pairs of a directory and its entries;
/// a directory that is not listed cannot be read.
fn discover(tree: &[(&str, Vec<DirEntry>)]) -> (Vec<String>, Vec<String>) {
    let mut walker = Walker::new();
    let mut visited = Vec::new();
    while let Some(due) = walker.next_directory() {
        assert!(visited.len() < 1000, "the search does not end");
        let listing = tree.iter().find(|(d, _)| *d == due).map(|(_, entries)| entries.clone());
        visited.push(due);
        walker = walker.absorb(listing);
    }
    (walker.finish(), visited)
}

#[test]
fn search_starts_at_the_root() {
    let walker = Walker::new();
    assert_eq!(walker.next_directory(), Some(String::new()));
}

#[test]
fn empty_root_holds_no_pictures() {
    let (found, visited) = discover(&[("", vec![])]);
    assert!(found.is_empty());
    assert_eq!(visited, vec![String::new()]);
}

#[test]
fn unreadable_root_holds_no_pictures() {
    let (found, visited) = discover(&[]);
    assert!(found.is_empty());
    assert_eq!(visited, vec![String::new()]);
}

#[test]
fn cache_directory_is_never_entered() {
    let tree = [
        ("", vec![dir("a"), dir(".thumbnails")]),
        ("a", vec![file("cat.png")]),
        (".thumbnails", vec![dir("a")]),
        (".thumbnails/a", vec![file("cat.png")]),
    ];
    let (found, visited) = discover(&tree);
    assert_eq!(found, vec!["a/cat.png".to_string()]);
    assert_eq!(visited, vec![String::new(), "a".to_string()]);
}

#[test]
fn cache_directory_is_passed_over_at_any_depth() {
    let tree = [
        ("", vec![dir("a")]),
        ("a", vec![dir(".thumbnails"), file("x.jpg"), dir("b")]),
        ("a/.thumbnails", vec![file("x.jpg")]),
        ("a/b", vec![file("y.gif")]),
    ];
    let (found, visited) = discover(&tree);
    assert_eq!(found, vec!["a/b/y.gif".to_string(), "a/x.jpg".to_string()]);
    assert!(!visited.contains(&"a/.thumbnails".to_string()));
}

#[test]
fn only_the_exact_cache_name_is_passed_over() {
    let tree = [
        ("", vec![dir(".thumbnails2"), dir("thumbnails"), file(".thumbnails.png")]),
        (".thumbnails2", vec![file("a.png")]),
        ("thumbnails", vec![file("b.png")]),
    ];
    let (found, _) = discover(&tree);
    assert_eq!(
        found,
        vec![
            ".thumbnails.png".to_string(),
            ".thumbnails2/a.png".to_string(),
            "thumbnails/b.png".to_string(),
        ]
    );
}

#[test]
fn a_file_named_like_the_cache_is_no_picture() {
    let (found, _) = discover(&[("", vec![file(".thumbnails")])]);
    assert!(found.is_empty());
}

#[test]
fn only_image_files_are_kept() {
    let tree = [(
        "",
        vec![
            file("notes.txt"),
            file("cat.PNG"),
            file("dog.jpeg"),
            file("README"),
            file("movie.mp4"),
            file("icon.ico"),
            file("old.bmp"),
            file("anim.gif"),
            file("new.webp"),
        ],
    )];
    let (found, _) = discover(&tree);
    assert_eq!(
        found,
        vec![
            "anim.gif".to_string(),
            "cat.PNG".to_string(),
            "dog.jpeg".to_string(),
            "icon.ico".to_string(),
            "new.webp".to_string(),
            "old.bmp".to_string(),
        ]
    );
}

#[test]
fn a_directory_with_an_image_extension_is_searched_not_kept() {
    let tree = [("", vec![dir("album.png")]), ("album.png", vec![file("one.jpg")])];
    let (found, _) = discover(&tree);
    assert_eq!(found, vec!["album.png/one.jpg".to_string()]);
}

#[test]
fn unreadable_subdirectory_counts_as_empty() {
    let tree = [("", vec![dir("locked"), dir("open"), file("top.png")]), ("open", vec![file("in.png")])];
    let (found, visited) = discover(&tree);
    assert_eq!(found, vec!["open/in.png".to_string(), "top.png".to_string()]);
    assert!(visited.contains(&"locked".to_string()));
}

#[test]
fn listing_is_sorted_whatever_the_order_read() {
    let one = [
        ("", vec![file("b.png"), dir("z"), file("a.png"), dir("m")]),
        ("z", vec![file("2.png"), file("1.png")]),
        ("m", vec![file("k.png")]),
    ];
    let other = [
        ("", vec![dir("m"), file("a.png"), dir("z"), file("b.png")]),
        ("z", vec![file("1.png"), file("2.png")]),
        ("m", vec![file("k.png")]),
    ];
    let expected = vec![
        "a.png".to_string(),
        "b.png".to_string(),
        "m/k.png".to_string(),
        "z/1.png".to_string(),
        "z/2.png".to_string(),
    ];
    assert_eq!(discover(&one).0, expected);
    assert_eq!(discover(&other).0, expected);
}

#[test]
fn repeated_searches_give_the_same_listing() {
    let tree = [
        ("", vec![dir("a"), file("c.jpg"), dir(".thumbnails")]),
        ("a", vec![file("cat.png"), file("ant.png")]),
    ];
    let first = discover(&tree).0;
    let second = discover(&tree).0;
    assert_eq!(first, second);
    assert_eq!(first, vec!["a/ant.png".to_string(), "a/cat.png".to_string(), "c.jpg".to_string()]);
}

#[test]
fn entries_that_are_no_child_names_are_dropped() {
    let tree = [(
        "",
        vec![file(""), file("a/b.png"), dir("."), dir(".."), file("/abs.png"), file("ok.png")],
    )];
    let (found, visited) = discover(&tree);
    assert_eq!(found, vec!["ok.png".to_string()]);
    assert_eq!(visited, vec![String::new()]);
}

#[test]
fn absorbing_with_nothing_due_changes_nothing() {
    let walker = Walker::new().absorb(None);
    assert_eq!(walker.next_directory(), None);
    let walker = walker.absorb(Some(vec![file("late.png"), dir("late")]));
    assert_eq!(walker.next_directory(), None);
    assert!(walker.finish().is_empty());
}

#[test]
fn deep_trees_are_searched_to_the_bottom() {
    let tree = [
        ("", vec![dir("a")]),
        ("a", vec![dir("b")]),
        ("a/b", vec![dir("c")]),
        ("a/b/c", vec![file("deep.webp")]),
    ];
    let (found, visited) = discover(&tree);
    assert_eq!(found, vec!["a/b/c/deep.webp".to_string()]);
    assert_eq!(visited.len(), 4);
}
