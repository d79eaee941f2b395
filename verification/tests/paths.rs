use pic_url::config::{cache_dir, AppConfig};
use pic_url::paths::{
    extension, file_name, get_thumbnail_path, image_kind, is_image_file, join, parent_dir,
    ImageKind,
};

#[test]
fn image_files_are_told_by_extension() {
    assert!(is_image_file("a/cat.png"));
    assert!(is_image_file("cat.jpg"));
    assert!(is_image_file("cat.jpeg"));
    assert!(is_image_file("cat.gif"));
    assert!(is_image_file("cat.webp"));
    assert!(is_image_file("cat.bmp"));
    assert!(is_image_file("cat.ico"));
    assert!(!is_image_file("notes.txt"));
    assert!(!is_image_file("cat.tiff"));
    assert!(!is_image_file("cat.jfif"));
    assert!(!is_image_file("archive.png.gz"));
    assert!(!is_image_file("png"));
    assert!(!is_image_file(""));
}

#[test]
fn extension_case_is_ignored() {
    assert!(is_image_file("PHOTO.JPG"));
    assert!(is_image_file("photo.PnG"));
    assert!(is_image_file("photo.WebP"));
    assert_eq!(image_kind("photo.JPEG"), Some(ImageKind::Jpeg));
    assert_eq!(image_kind("photo.jpg"), Some(ImageKind::Jpeg));
    assert_eq!(image_kind("photo.Png"), Some(ImageKind::Png));
    assert_eq!(image_kind("photo.GIF"), Some(ImageKind::Gif));
    assert_eq!(image_kind("photo.webp"), Some(ImageKind::WebP));
    assert_eq!(image_kind("photo.bmp"), Some(ImageKind::Bmp));
    assert_eq!(image_kind("photo.ICO"), Some(ImageKind::Ico));
    assert_eq!(image_kind("photo.txt"), None);
}

#[test]
fn only_ascii_letters_fold() {
    // U+212A, the Kelvin sign, is no ASCII letter and no letter of any extension.
    assert!(!is_image_file("photo.\u{212A}mp"));
    assert!(!is_image_file("photo.\u{0130}co"));
}

#[test]
fn hidden_files_have_no_extension() {
    assert_eq!(extension(".png"), None);
    assert!(!is_image_file(".png"));
    assert!(!is_image_file("a/.thumbnails"));
    assert_eq!(extension(".hidden.png"), Some("png".to_string()));
    assert!(is_image_file(".hidden.png"));
}

#[test]
fn extension_is_what_follows_the_last_dot() {
    assert_eq!(extension("a/b/cat.png"), Some("png".to_string()));
    assert_eq!(extension("a.b/cat"), None);
    assert_eq!(extension("cat.tar.gz"), Some("gz".to_string()));
    assert_eq!(extension("cat."), Some(String::new()));
    assert_eq!(extension("..."), Some(String::new()));
    assert_eq!(extension(""), None);
    assert_eq!(extension("a/.."), None);
}

#[test]
fn file_name_skips_empty_and_dot_segments() {
    assert_eq!(file_name("a/cat.png"), Some("cat.png".to_string()));
    assert_eq!(file_name("cat.png"), Some("cat.png".to_string()));
    assert_eq!(file_name("a/cat.png/"), Some("cat.png".to_string()));
    assert_eq!(file_name("a/cat.png//"), Some("cat.png".to_string()));
    assert_eq!(file_name("a/cat.png/."), Some("cat.png".to_string()));
    assert_eq!(file_name("a/./"), Some("a".to_string()));
    assert_eq!(file_name("/a"), Some("a".to_string()));
    assert_eq!(file_name("\u{00e9}t\u{00e9}/\u{732b}.png"), Some("\u{732b}.png".to_string()));
}

#[test]
fn some_paths_have_no_file_name() {
    assert_eq!(file_name(""), None);
    assert_eq!(file_name("/"), None);
    assert_eq!(file_name("."), None);
    assert_eq!(file_name("./"), None);
    assert_eq!(file_name(".."), None);
    assert_eq!(file_name("a/.."), None);
    assert_eq!(file_name("a/../"), None);
}

#[test]
fn file_name_agrees_with_std_on_unix_style_paths() {
    let samples = [
        "a/cat.png", "cat.png", "a/cat.png/", "a//b", "a/./b", "a/b/.", "./a", ".", "..", "a/..",
        "/", "", "/a/b.c.d", ".hidden", "x/.hidden.png", "...", "a/...", "/..", "a/b/./",
    ];
    for sample in samples {
        let path = std::path::Path::new(sample);
        let name = path.file_name().map(|n| n.to_string_lossy().to_string());
        let ext = path.extension().map(|n| n.to_string_lossy().to_string());
        assert_eq!(file_name(sample), name, "file name of {:?}", sample);
        assert_eq!(extension(sample), ext, "extension of {:?}", sample);
    }
}

#[test]
fn join_puts_one_separator_between() {
    assert_eq!(join("root", "a/cat.png"), "root/a/cat.png");
    assert_eq!(join("root/", "a/cat.png"), "root/a/cat.png");
    assert_eq!(join("", "a/cat.png"), "a/cat.png");
    assert_eq!(join("root", ""), "root/");
    assert_eq!(join("./pic", "cat.png"), "./pic/cat.png");
}

#[test]
fn join_lets_an_absolute_path_stand() {
    assert_eq!(join("root", "/etc/cat.png"), "/etc/cat.png");
}

#[test]
fn join_agrees_with_std_on_unix_style_paths() {
    let bases = ["root", "root/", "", "/", "a/b", "./pic", "a//"];
    let tails = ["cat.png", "a/cat.png", "", "/abs/x", "../x", "."];
    for base in bases {
        for tail in tails {
            let expected = std::path::Path::new(base).join(tail).to_string_lossy().to_string();
            assert_eq!(join(base, tail), expected, "join of {:?} and {:?}", base, tail);
        }
    }
}

#[test]
fn thumbnail_path_mirrors_the_relative_path() {
    assert_eq!(get_thumbnail_path(".thumbnails", "a/cat.png"), ".thumbnails/a/cat.png");
    assert_eq!(get_thumbnail_path("./pic/.thumbnails", "cat.png"), "./pic/.thumbnails/cat.png");
    assert_eq!(get_thumbnail_path("./pic/.thumbnails", "a/b/c.gif"), "./pic/.thumbnails/a/b/c.gif");
}

#[test]
fn parent_dir_is_what_stands_before_the_name() {
    assert_eq!(parent_dir(".thumbnails/a/cat.png"), Some(".thumbnails/a".to_string()));
    assert_eq!(parent_dir("cat.png"), Some(String::new()));
    assert_eq!(parent_dir("/cat.png"), Some("/".to_string()));
    assert_eq!(parent_dir("a//cat.png"), Some("a".to_string()));
    assert_eq!(parent_dir("a/cat.png/"), Some("a".to_string()));
    assert_eq!(parent_dir(""), None);
    assert_eq!(parent_dir("/"), None);
    assert_eq!(parent_dir("a/.."), None);
}

#[test]
fn config_places_the_cache_under_the_pictures() {
    let config = AppConfig::new("./pic".to_string());
    assert_eq!(config.pic_dir, "./pic");
    assert_eq!(config.thumb_dir, "./pic/.thumbnails");
    assert_eq!(cache_dir(), ".thumbnails");
    let copy = config.clone();
    assert_eq!(copy.thumb_dir, config.thumb_dir);
}

#[test]
fn config_joins_by_text() {
    let config = AppConfig::new("pics/".to_string());
    assert_eq!(config.thumb_dir, "pics//.thumbnails");
    let empty = AppConfig::new(String::new());
    assert_eq!(empty.thumb_dir, "/.thumbnails");
}
