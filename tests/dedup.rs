use wallsync::digest::{content_digest, ContentHasher};
use wallsync::index::{image_key_for, DeleteOutcome, DigestIndex};

const ABC_SHA256: &str = "ba7816bf8f01cfea414140de5dae2223b00361a396177a9cb410ff61f20015ad";
const EMPTY_SHA256: &str = "e3b0c44298fc1c149afbf4c8996fb92427ae41e4649b934ca495991b7852b855";

#[test]
fn digest_of_known_inputs() {
    assert_eq!(content_digest(b"abc"), ABC_SHA256);
    assert_eq!(content_digest(b""), EMPTY_SHA256);
}

#[test]
fn streamed_digest_matches_whole_digest() {
    let mut h = ContentHasher::new();
    h.update(b"a");
    h.update(b"");
    h.update(b"bc");
    assert_eq!(h.finish(), ABC_SHA256);
}

#[test]
fn index_add_replace_and_remove() {
    let mut index = DigestIndex::new();
    assert_eq!(index.len(), 0);
    index.add_digest("w/a.png".to_string(), "h1".to_string());
    index.add_digest("w/b.png".to_string(), "h2".to_string());
    assert_eq!(index.len(), 2);
    assert!(index.is_file_duplicate(&"h1".to_string()));
    index.add_digest("w/a.png".to_string(), "h3".to_string());
    assert_eq!(index.len(), 2);
    assert!(!index.is_file_duplicate(&"h1".to_string()));
    assert!(index.is_file_duplicate(&"h3".to_string()));
    assert!(index.remove(&"w/a.png".to_string()));
    assert!(!index.remove(&"w/a.png".to_string()));
    assert_eq!(index.len(), 1);
    assert!(!index.is_file_duplicate(&"h3".to_string()));
}

#[test]
fn identical_uploads_keep_one_copy() {
    let mut index = DigestIndex::new();
    let h = content_digest(b"same bytes");
    assert!(index.admit_upload("w/one.png".to_string(), h.clone()));
    assert!(!index.admit_upload("w/two.png".to_string(), h.clone()));
    assert_eq!(index.len(), 1);
    assert!(index.is_file_duplicate(&h));
    assert!(index.remove(&"w/one.png".to_string()));
    assert!(!index.remove(&"w/two.png".to_string()));
}

#[test]
fn different_uploads_are_both_kept() {
    let mut index = DigestIndex::new();
    assert!(index.admit_upload("w/one.png".to_string(), content_digest(b"1")));
    assert!(index.admit_upload("w/two.png".to_string(), content_digest(b"2")));
    assert_eq!(index.len(), 2);
}

#[test]
fn deleting_missing_file_is_not_found_and_keeps_index() {
    let mut index = DigestIndex::new();
    index.add_digest("wallpapers/a.png".to_string(), "h".to_string());
    let outcome = index.record_deletion("wallpapers", "ghost.png", false);
    assert_eq!(outcome, DeleteOutcome::NotFound);
    assert_eq!(index.len(), 1);
    assert!(index.is_file_duplicate(&"h".to_string()));
}

#[test]
fn deleting_file_forgets_its_digest() {
    let mut index = DigestIndex::new();
    index.add_digest("wallpapers/a.png".to_string(), "h".to_string());
    let outcome = index.record_deletion("wallpapers", "a.png", true);
    assert_eq!(outcome, DeleteOutcome::Deleted);
    assert_eq!(index.len(), 0);
    assert!(!index.is_file_duplicate(&"h".to_string()));
}

#[test]
fn image_key_uses_last_path_part() {
    assert_eq!(image_key_for("wallpapers", "a.png"), "wallpapers/a.png");
    assert_eq!(image_key_for("wallpapers", "x/y/b.png"), "wallpapers/b.png");
}
