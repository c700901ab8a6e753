use niftymic_bot::filemgr::{Directory, FileManager};

#[test]
fn directory_keeps_its_path() {
    let d = Directory::new("/data/out/job");
    assert_eq!(d.as_path(), "/data/out/job");
}

#[test]
fn file_manager_places_a_unique_root_under_the_base() {
    let m = FileManager::new("/data/out");
    let root = m.dicom_source();
    let root_path = root.as_path();
    assert!(root_path.starts_with("/data/out/"));
    // base + '/' + 26-character identifier + '/' + subdirectory name
    assert_eq!(root_path.len(), "/data/out/".len() + 26 + "/archive".len());
}

#[test]
fn file_manager_subdirectories_have_fixed_names() {
    let m = FileManager::new("/base");
    let root_len = "/base/".len() + 26;
    let cases = [
        (m.dicom_source(), "/archive"),
        (m.dicom_output(), "/dicom_output"),
        (m.masks_output(), "/masks"),
        (m.nifty_source(), "/nifty"),
        (m.nifty_output(), "/nifty_output"),
    ];
    for (dir, suffix) in cases {
        let p = dir.as_path().to_string();
        assert!(p.ends_with(suffix));
        assert_eq!(p.len(), root_len + suffix.len());
    }
}

#[test]
fn two_file_managers_never_share_a_root() {
    let a = FileManager::new("/base");
    let b = FileManager::new("/base");
    assert_ne!(a.dicom_source().as_path(), b.dicom_source().as_path());
}
