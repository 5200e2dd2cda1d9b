use mediapack::{classify_ext, FileType, MediaCategory, MediaType};

#[test]
fn classify_by_extension() {
    assert_eq!(classify_ext("pics/a.jpg"), FileType::Image);
    assert_eq!(classify_ext("pics/a.JPEG"), FileType::Image);
    assert_eq!(classify_ext("anim.gif"), FileType::Image);
    assert_eq!(classify_ext("clips/x.mkv"), FileType::Video);
    assert_eq!(classify_ext("clips/x.WebM"), FileType::Video);
    assert_eq!(classify_ext("song.Opus"), FileType::Audio);
    assert_eq!(classify_ext("a/b/c.m4a"), FileType::Audio);
    assert_eq!(classify_ext("notes.txt"), FileType::Other);
    assert_eq!(classify_ext("noext"), FileType::Other);
    assert_eq!(classify_ext(".png"), FileType::Other);
    assert_eq!(classify_ext("dir.png/file"), FileType::Other);
    assert_eq!(classify_ext("dir/.png"), FileType::Other);
    assert_eq!(classify_ext("archive.tar.png"), FileType::Image);
    assert_eq!(classify_ext(""), FileType::Other);
}

#[test]
fn file_type_names() {
    for t in [FileType::Image, FileType::Video, FileType::Audio, FileType::Other] {
        assert_eq!(FileType::from_str(t.as_str()), Ok(t));
    }
    assert_eq!(FileType::Video.as_str(), "video");
    assert!(FileType::from_str("Image").is_err());
    assert_eq!(
        FileType::from_str("x").unwrap_err().message(),
        "Invalid file type value".to_string()
    );
}

#[test]
fn media_type_names() {
    assert_eq!(MediaType::from_str("audio"), MediaType::Audio);
    assert_eq!(MediaType::from_str("bogus"), MediaType::Other);
    assert_eq!(MediaType::Image.to_str(), "image");
    assert_eq!(MediaCategory::Popup.as_str(), "default");
    assert_eq!(MediaCategory::from_str("wallpaper"), Some(MediaCategory::Wallpaper));
    assert_eq!(MediaCategory::from_str("popup"), None);
}

#[test]
fn animated_images_pack_as_video() {
    assert_eq!(mediapack::types::packed_type(FileType::Image, true), FileType::Video);
    assert_eq!(mediapack::types::packed_type(FileType::Image, false), FileType::Image);
    assert_eq!(mediapack::types::packed_type(FileType::Audio, true), FileType::Audio);
}
