use pic_url::listing::{image_info, list_images};

#[test]
fn picture_is_shown_under_its_file_name() {
    let info = image_info("a/b/cat.png");
    assert_eq!(info.path, "a/b/cat.png");
    assert_eq!(info.name, "cat.png");
}

#[test]
fn picture_without_a_name_is_shown_under_nothing() {
    let info = image_info("a/..");
    assert_eq!(info.path, "a/..");
    assert_eq!(info.name, "");
}

#[test]
fn listing_counts_its_pictures() {
    let paths = vec!["a/cat.png".to_string(), "dog.jpg".to_string()];
    let response = list_images(&paths);
    assert_eq!(response.count, 2);
    assert_eq!(response.images.len(), 2);
    assert_eq!(response.images[0].path, "a/cat.png");
    assert_eq!(response.images[0].name, "cat.png");
    assert_eq!(response.images[1].path, "dog.jpg");
    assert_eq!(response.images[1].name, "dog.jpg");
}

#[test]
fn listing_of_nothing_is_empty() {
    let response = list_images(&Vec::new());
    assert_eq!(response.count, 0);
    assert!(response.images.is_empty());
}
