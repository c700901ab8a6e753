use niftymic_bot::archive::Archive;
use std::path::Path;

#[test]
fn test_archive_new_from_path() {
    let path = Path::new("test.zip");
    let archive = Archive::new(path.to_str().unwrap());
    assert_eq!(archive.as_path(), path.to_str().unwrap());
}

#[test]
fn test_archive_new_from_str() {
    let archive = Archive::new("test.zip");
    assert_eq!(archive.as_path(), "test.zip");
}
