use niftymic_bot::ordering::{filter_by_extension, has_extension_exec, lex_le_exec, sort_strings};
use niftymic_bot::niftymic::WorkingDirectory;

#[test]
fn lexicographic_order_on_strings() {
    assert!(lex_le_exec("a", "b"));
    assert!(!lex_le_exec("b", "a"));
    assert!(lex_le_exec("abc", "abc"));
    assert!(lex_le_exec("ab", "abc"));
    assert!(!lex_le_exec("abc", "ab"));
    assert!(lex_le_exec("", "a"));
    assert!(lex_le_exec("/w/a10.nii", "/w/a2.nii"));
}

#[test]
fn sort_strings_orders_lexicographically() {
    let v = vec![
        "/w/s2.nii".to_string(),
        "/w/s10.nii".to_string(),
        "/w/s1.nii".to_string(),
        "/w/s1.nii".to_string(),
    ];
    let sorted = sort_strings(v);
    assert_eq!(sorted, vec!["/w/s1.nii", "/w/s1.nii", "/w/s10.nii", "/w/s2.nii"]);
}

#[test]
fn two_scans_of_matching_names_pair_up() {
    let imgs = sort_strings(vec![
        "/w/nii/b.nii".to_string(),
        "/w/nii/a.nii".to_string(),
        "/w/nii/c.nii".to_string(),
    ]);
    let msks = sort_strings(vec![
        "/w/masks/c.nii.gz".to_string(),
        "/w/masks/b.nii.gz".to_string(),
        "/w/masks/a.nii.gz".to_string(),
    ]);
    for (i, img) in imgs.iter().enumerate() {
        let base = img.rsplit('/').next().unwrap().strip_suffix(".nii").unwrap();
        let mask = msks[i].rsplit('/').next().unwrap().strip_suffix(".nii.gz").unwrap();
        assert_eq!(base, mask);
    }
}

#[test]
fn extension_matching_is_exact() {
    assert!(has_extension_exec("/w/a.nii", "nii"));
    assert!(has_extension_exec("/w/a.nii.gz", "gz"));
    assert!(!has_extension_exec("/w/a.nii.gz", "nii"));
    assert!(!has_extension_exec("/w/a.gz", "nii"));
    assert!(!has_extension_exec("nii", "nii"));
    assert!(!has_extension_exec(".nii", "nii"));
}

#[test]
fn filter_keeps_only_matching_entries_in_order() {
    let v = vec![
        "/w/a.nii".to_string(),
        "/w/readme.txt".to_string(),
        "/w/b.nii".to_string(),
    ];
    let f = filter_by_extension(v, "nii");
    assert_eq!(f, vec!["/w/a.nii", "/w/b.nii"]);
}

#[test]
fn search_on_a_missing_directory_is_empty() {
    let wd = WorkingDirectory::new("/nonexistent/niftymic-test-job");
    let r = wd.search_files_by_extension("/nonexistent/niftymic-test-job/nii", "nii");
    assert!(r.is_empty());
}
