use tobi::manifest::{
    Catalog, CatalogError, ImageEntry, ImageFormat, accept_catalog, fallback_catalog, is_remote_source,
    validate_catalog,
};

fn image(id: &str, url: &str) -> ImageEntry {
    ImageEntry {
        id: id.to_string(),
        name: id.to_string(),
        description: String::new(),
        devices: vec![],
        category: None,
        recommended: false,
        version: "1".to_string(),
        release_date: "2026-05-07".to_string(),
        channel: "dev".to_string(),
        url: url.to_string(),
        format: ImageFormat::Raw,
        image_download_sha256: None,
        extract_sha256: None,
        image_download_size: None,
        extract_size: None,
        bmap_url: None,
        signature_url: None,
    }
}

#[test]
fn catalogs_are_validated() {
    let mut catalog = Catalog { schema_version: 1, generated_at: None, devices: vec![], images: vec![image("a", "file:///a")] };
    assert!(validate_catalog(&catalog).is_ok());
    assert_eq!(image("a", "x").category_label(), "Other");
    catalog.images.push(image("b", "  "));
    let err = validate_catalog(&catalog).expect_err("empty url");
    assert!(matches!(err, CatalogError::EmptyUrl(_)));
    assert_eq!(err.message(), "image b has an empty URL");
    catalog.schema_version = 2;
    assert_eq!(accept_catalog(Ok(catalog)).expect_err("schema"), "unsupported manifest schema version 2");
    assert_eq!(
        accept_catalog(Err("expected value at line 1".to_string())).expect_err("json"),
        "manifest JSON is invalid: expected value at line 1"
    );
    assert_eq!(
        validate_catalog(&fallback_catalog()).expect_err("no images").message(),
        "manifest does not contain any images"
    );
}

#[test]
fn formats_and_sources_are_recognized() {
    assert_eq!(ImageFormat::from_filename("IMAGE.WIC.GZ"), Some(ImageFormat::WicGz));
    assert_eq!(ImageFormat::from_filename("disk.bin"), Some(ImageFormat::Raw));
    assert!(ImageFormat::WicXz.is_compressed());
    assert!(!ImageFormat::Raw.is_compressed());
    assert_eq!(ImageFormat::ImgZst.label(), "img.zst");
    assert!(is_remote_source("https://example.com/catalog.json"));
    assert!(!is_remote_source("sample/catalog.json"));
    assert!(fallback_catalog().devices.iter().any(|d| d.id == "sk-am62p-lp"));
}

#[test]
fn every_label_names_its_own_format() {
    for f in [
        ImageFormat::Raw,
        ImageFormat::ImgXz,
        ImageFormat::WicXz,
        ImageFormat::ImgZst,
        ImageFormat::WicZst,
        ImageFormat::ImgGz,
        ImageFormat::WicGz,
    ] {
        assert_eq!(ImageFormat::from_filename(&format!("image.{}", f.label())), Some(f));
        assert_eq!(ImageFormat::from_filename(&format!("Board-Image.{}", f.label().to_ascii_uppercase())), Some(f));
    }
}
