use niftymic_bot::niftymic::{Error, WorkingDirectory};
use niftymic_bot::pathspec::{file_name_exec, join_path, stem_exec, translate_prefix};

#[test]
fn join_path_puts_one_separator_between() {
    assert_eq!(join_path("/work/job", "masks"), "/work/job/masks");
    assert_eq!(join_path("", "a"), "/a");
}

#[test]
fn translate_prefix_keeps_the_suffix_exactly() {
    let r = translate_prefix("/work/job/masks/a.nii.gz", "/work/job", "/app");
    assert_eq!(r, Some("/app/masks/a.nii.gz".to_string()));
}

#[test]
fn translate_prefix_refuses_non_descendants() {
    assert_eq!(translate_prefix("/elsewhere/a.nii", "/work/job", "/app"), None);
    // A sibling whose name extends the root is not a descendant.
    assert_eq!(translate_prefix("/work/jobx/a.nii", "/work/job", "/app"), None);
    // The root itself is not a strict descendant.
    assert_eq!(translate_prefix("/work/job", "/work/job", "/app"), None);
}

#[test]
fn replace_base_directory_translates_descendants() {
    let wd = WorkingDirectory::new("/work/job");
    let r = wd.replace_base_directory("/work/job/nii/s1.nii", "/app");
    assert_eq!(r.unwrap(), "/app/nii/s1.nii");
}

#[test]
fn replace_base_directory_fails_loudly_elsewhere() {
    let wd = WorkingDirectory::new("/work/job");
    let r = wd.replace_base_directory("/tmp/unrelated/s1.nii", "/app");
    assert!(matches!(r, Err(Error::PathTranslationFailed(_))));
}

#[test]
fn file_name_is_the_final_segment() {
    assert_eq!(file_name_exec("/work/jobs/scan01.zip"), "scan01.zip");
    assert_eq!(file_name_exec("scan01.zip"), "scan01.zip");
    assert_eq!(file_name_exec("/work/jobs/"), "");
}

#[test]
fn stem_stops_before_the_last_dot() {
    assert_eq!(stem_exec("scan01.zip"), "scan01");
    assert_eq!(stem_exec("volume.nii.gz"), "volume.nii");
    assert_eq!(stem_exec("noext"), "noext");
    assert_eq!(stem_exec(".hidden"), ".hidden");
}

#[test]
fn working_directory_layout_is_fixed() {
    let wd = WorkingDirectory::new("/work/scan01-01ARZ3NDEKTSV4RRFFQ69G5FAV");
    assert_eq!(wd.directory, "scan01-01ARZ3NDEKTSV4RRFFQ69G5FAV");
    assert_eq!(wd.archive, "/work/scan01-01ARZ3NDEKTSV4RRFFQ69G5FAV/archive");
    assert_eq!(wd.nii, "/work/scan01-01ARZ3NDEKTSV4RRFFQ69G5FAV/nii");
    assert_eq!(wd.masks, "/work/scan01-01ARZ3NDEKTSV4RRFFQ69G5FAV/masks");
    assert_eq!(wd.output_nii, "/work/scan01-01ARZ3NDEKTSV4RRFFQ69G5FAV/output_nii");
    assert_eq!(wd.output_dicom, "/work/scan01-01ARZ3NDEKTSV4RRFFQ69G5FAV/output_dicom");
}

#[test]
fn derived_filenames_follow_the_directory_name() {
    let wd = WorkingDirectory::new("/work/job");
    assert_eq!(wd.get_nifti_filename(), "job.nii.gz");
    assert_eq!(wd.get_dicom_filename(), "job.zip");
    assert_eq!(wd.get_relative_mask_directory("/app"), "/app/masks");
    assert_eq!(wd.get_relative_nifti_output("/app"), "/app/output_nii/job.nii.gz");
    assert_eq!(wd.get_absolute_nifti_output(), "/work/job/output_nii/job.nii.gz");
    assert_eq!(wd.get_absolute_dicom_output(), "/work/job/job.zip");
    assert_eq!(wd.get_absolute_dicom_output_directory(), "/work/job/output_dicom");
    assert_eq!(wd.absolute_path(), "/work/job");
}

#[test]
fn generated_names_carry_the_stem_and_never_collide() {
    let a = WorkingDirectory::generate_working_directory_name("/tmp/scan01.zip");
    let b = WorkingDirectory::generate_working_directory_name("/tmp/scan01.zip");
    assert!(a.starts_with("scan01-"));
    assert!(b.starts_with("scan01-"));
    assert_eq!(a.len(), "scan01-".len() + 26);
    assert_ne!(a, b);
}
