use wallsync::upload::{
    check_upload_field, compose_filename, generate_filename, is_allowed_extension,
    is_valid_image_extension, sanitize, UploadError, UploadStream, MAX_FILE_SIZE_BYTES,
};
use wallsync::digest::content_digest;

#[test]
fn image_extensions() {
    assert!(is_valid_image_extension("a.png"));
    assert!(is_valid_image_extension("a.PNG"));
    assert!(is_valid_image_extension("photo.JpEg"));
    assert!(is_valid_image_extension("x.tar.webp"));
    assert!(is_valid_image_extension("b.jpg"));
    assert!(!is_valid_image_extension("a.gif"));
    assert!(!is_valid_image_extension("png"));
    assert!(!is_valid_image_extension("a.png.txt"));
    assert!(!is_valid_image_extension("a."));
}

#[test]
fn allowed_extensions_are_lower_case() {
    assert!(is_allowed_extension("jpeg"));
    assert!(!is_allowed_extension("JPEG"));
    assert!(!is_allowed_extension("jp"));
}

#[test]
fn unsupported_extension_is_refused() {
    assert_eq!(
        check_upload_field(Some("wallpaper"), Some("cat.gif")),
        Err(UploadError::NotAnImage)
    );
}

#[test]
fn upload_field_checks() {
    assert_eq!(check_upload_field(Some("wallpaper"), Some("cat.png")), Ok(()));
    assert_eq!(check_upload_field(Some("image"), Some("cat.png")), Err(UploadError::NotAnImage));
    assert_eq!(check_upload_field(None, Some("cat.png")), Err(UploadError::NotAnImage));
    assert_eq!(check_upload_field(Some("wallpaper"), None), Err(UploadError::NotAnImage));
    assert_eq!(check_upload_field(Some("wallpaper"), Some("")), Err(UploadError::NotAnImage));
}

#[test]
fn sanitize_snake_cases_and_drops_non_ascii() {
    assert_eq!(sanitize("My Photo.PNG"), "my_photo.png");
    assert_eq!(sanitize("café.jpg"), "caf.jpg");
}

#[test]
fn composed_name_and_length_limit() {
    assert_eq!(compose_filename("a", "t", "png"), Ok("a-t.png".to_string()));
    let long = "s".repeat(255 - 6);
    assert_eq!(compose_filename(&long, "t", "png").map(|n| n.len()), Ok(255));
    let longer = "s".repeat(255 - 5);
    assert_eq!(compose_filename(&longer, "t", "png"), Err(UploadError::FilenameTooLong));
}

#[test]
fn generated_name_has_stem_uuid_and_extension() {
    let name = generate_filename("My Photo.PNG").unwrap();
    assert!(name.starts_with("my_photo-"));
    assert!(name.ends_with(".png"));
    assert_eq!(name.len(), "my_photo-".len() + 36 + ".png".len());
    let tag = &name["my_photo-".len()..name.len() - 4];
    assert!(tag.chars().all(|c| c == '-' || c.is_ascii_hexdigit()));
    let other = generate_filename("My Photo.PNG").unwrap();
    assert_ne!(name, other);
}

#[test]
fn generated_name_too_long() {
    let declared = format!("{}.png", "a".repeat(300));
    assert_eq!(generate_filename(&declared), Err(UploadError::FilenameTooLong));
}

#[test]
fn stream_within_limit_is_accepted() {
    let mut s = UploadStream::new();
    assert_eq!(s.accept_chunk(b"ab"), Ok(()));
    assert_eq!(s.accept_chunk(b"c"), Ok(()));
    assert_eq!(s.received(), 3);
    assert_eq!(s.finish(), content_digest(b"abc"));
}

#[test]
fn stream_crossing_limit_is_too_large() {
    let mut s = UploadStream::new();
    let big = vec![7u8; MAX_FILE_SIZE_BYTES as usize];
    assert_eq!(s.accept_chunk(&big), Ok(()));
    assert_eq!(s.received(), MAX_FILE_SIZE_BYTES);
    assert_eq!(s.accept_chunk(b"x"), Err(UploadError::FileTooLarge));
    assert_eq!(s.received(), MAX_FILE_SIZE_BYTES);
}

#[test]
fn stream_single_chunk_over_limit() {
    let mut s = UploadStream::new();
    let big = vec![0u8; MAX_FILE_SIZE_BYTES as usize + 1];
    assert_eq!(s.accept_chunk(&big), Err(UploadError::FileTooLarge));
    assert_eq!(s.received(), 0);
}

#[test]
fn max_size_is_thirty_mebibytes() {
    assert_eq!(MAX_FILE_SIZE_BYTES, 31457280);
}

#[test]
fn error_statuses_and_messages() {
    assert_eq!(UploadError::InvalidForm.status_code(), 400);
    assert_eq!(UploadError::Io.status_code(), 500);
    assert_eq!(UploadError::NotAnImage.status_code(), 415);
    assert_eq!(UploadError::FilenameTooLong.status_code(), 400);
    assert_eq!(UploadError::FileTooLarge.status_code(), 413);
    assert_eq!(UploadError::InvalidForm.message(), "Invalid form data");
    assert_eq!(UploadError::Io.message(), "Server error");
    assert_eq!(UploadError::NotAnImage.message(), "File is not an image");
    assert_eq!(UploadError::FilenameTooLong.message(), "Filename too long");
    assert_eq!(UploadError::FileTooLarge.message(), "File too large (max is 30MB)");
}
