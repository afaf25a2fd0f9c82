use tobi::custom_image::{
    CustomImage, custom_image_from_file, custom_placeholder, is_custom_placeholder, sanitize_id, scan_roots,
    should_scan_depth, sort_custom_images,
};
use tobi::manifest::ImageFormat;
use tobi::path_order::compare_paths;

#[test]
fn recognizes_supported_image_extensions() {
    assert_eq!(
        ImageFormat::from_filename("image.wic.xz"),
        Some(ImageFormat::WicXz)
    );
    assert_eq!(
        ImageFormat::from_filename("image.img.zst"),
        Some(ImageFormat::ImgZst)
    );
    assert_eq!(
        ImageFormat::from_filename("image.raw"),
        Some(ImageFormat::Raw)
    );
    assert_eq!(ImageFormat::from_filename("notes.txt"), None);
}

#[test]
fn converts_custom_image_to_file_url() {
    let image = CustomImage {
        name: "demo.wic.xz".to_string(),
        path: "/media/usb/demo.wic.xz".to_string(),
        size_bytes: Some(42),
        format: ImageFormat::WicXz,
    }
    .into_image_entry();

    assert_eq!(image.name, "demo.wic.xz");
    assert_eq!(image.url, "file:///media/usb/demo.wic.xz");
    assert_eq!(image.image_download_size, Some(42));
}

#[test]
fn custom_entry_ids_are_sanitized() {
    assert_eq!(sanitize_id("My Image--v2.WIC.xz"), "my-image-v2-wic-xz");
    let entry = CustomImage {
        name: "A b.img".to_string(),
        path: "/mnt/A b.img".to_string(),
        size_bytes: None,
        format: ImageFormat::Raw,
    }
    .into_image_entry();
    assert_eq!(entry.id, "custom-a-b-img");
    assert_eq!(entry.description, "Custom local image selected from /mnt/A b.img.");
    assert!(is_custom_placeholder(&custom_placeholder()));
    assert!(!is_custom_placeholder(&entry));
}

#[test]
fn found_files_become_custom_images_in_order() {
    assert!(custom_image_from_file("notes.txt", "/mnt/notes.txt", 3).is_none());
    let mut images = vec![
        custom_image_from_file("b.img", "/mnt/b.img", 1).expect("image"),
        custom_image_from_file("a.wic.gz", "/mnt/z/a.wic.gz", 2).expect("image"),
        custom_image_from_file("a.wic.gz", "/mnt/a/a.wic.gz", 3).expect("image"),
    ];
    sort_custom_images(&mut images);
    let paths: Vec<&str> = images.iter().map(|i| i.path.as_str()).collect();
    assert_eq!(paths, vec!["/mnt/a/a.wic.gz", "/mnt/z/a.wic.gz", "/mnt/b.img"]);
    assert_eq!(images[0].format, ImageFormat::WicGz);
    assert!(should_scan_depth(5));
    assert!(!should_scan_depth(6));
}

#[test]
fn scan_roots_come_from_the_setting_or_the_platform() {
    assert_eq!(scan_roots(Some("/a: :/b::"), true, false), vec!["/a".to_string(), "/b".to_string()]);
    assert_eq!(
        scan_roots(None, true, false),
        vec!["/run/media".to_string(), "/media".to_string(), "/mnt".to_string(), "/var/run/media".to_string()]
    );
    assert_eq!(scan_roots(None, false, true), vec!["/Volumes".to_string()]);
}

#[test]
fn same_named_images_are_ordered_by_path_components() {
    let mut images = vec![
        custom_image_from_file("x.img", "/media/a.b/x.img", 1).unwrap(),
        custom_image_from_file("x.img", "/media/a/x.img", 1).unwrap(),
        custom_image_from_file("x.img", "/media//a/./b/x.img", 1).unwrap(),
    ];
    sort_custom_images(&mut images);
    let paths: Vec<&str> = images.iter().map(|i| i.path.as_str()).collect();
    assert_eq!(paths, vec!["/media//a/./b/x.img", "/media/a/x.img", "/media/a.b/x.img"]);
}

#[test]
fn path_order_follows_components() {
    assert_eq!(compare_paths("/media/a/x.img", "/media/a.b/x.img"), -1);
    assert_eq!(compare_paths("/media/a/", "/media//a"), 0);
    assert_eq!(compare_paths("a/./b", "a/b"), 0);
    assert_eq!(compare_paths("./a", "a"), -1);
    assert_eq!(compare_paths("/z", "a"), -1);
    assert_eq!(compare_paths("../a", "-a"), -1);
}
