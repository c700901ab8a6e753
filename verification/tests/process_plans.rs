use niftymic_bot::config::{Config, Docker, Executable, Output};
use niftymic_bot::niftymic::{Error, NiftyMic, Options};
use niftymic_bot::numfmt::u64_to_string;
use niftymic_bot::spawn::{classify_outcome, DockerWrapper, ProcessOutcome};

fn test_config() -> Config {
    Config::new(
        Output { base_directory: "/data/out".to_string() },
        Executable {
            dcm2niix: "/usr/bin/dcm2niix".to_string(),
            docker: "/usr/bin/docker".to_string(),
            medcon: "/usr/bin/medcon".to_string(),
        },
        Docker {
            image: "renbem/niftymic".to_string(),
            working_directory: "/app".to_string(),
        },
        None,
    )
}

#[test]
fn decimal_formatting_is_exact() {
    assert_eq!(u64_to_string(0), "0");
    assert_eq!(u64_to_string(7), "7");
    assert_eq!(u64_to_string(10), "10");
    assert_eq!(u64_to_string(1234567890), "1234567890");
    assert_eq!(u64_to_string(u64::MAX), "18446744073709551615");
}

#[test]
fn default_options_serialize_in_fixed_order() {
    let args = Options::default().to_args();
    assert_eq!(
        args,
        vec![
            "--alpha", "0.01",
            "--outlier-rejection", "1",
            "--threshold-first", "0.5",
            "--threshold", "0.85",
            "--intensity-correction", "1",
            "--isotropic-resolution", "0.8",
            "--two-step-cycles", "3",
            "--verbose", "1",
        ]
    );
}

#[test]
fn bind_mount_and_image_sit_before_the_tool() {
    let w = DockerWrapper::new("/usr/bin/docker", "/app", "renbem/niftymic");
    let prefix = w.get_run_command_args("/data/out/job");
    assert_eq!(prefix, vec!["run", "--rm", "-v", "/data/out/job:/app", "renbem/niftymic"]);

    let inv = w.run("niftymic_segment_fetal_brains", &vec!["--x".to_string()], "/data/out/job");
    assert_eq!(inv.binary, "/usr/bin/docker");
    assert_eq!(
        inv.args,
        vec![
            "run", "--rm", "-v", "/data/out/job:/app", "renbem/niftymic",
            "niftymic_segment_fetal_brains", "--x",
        ]
    );
    assert!(inv.current_dir.is_none());
}

#[test]
fn success_is_exactly_exit_status_zero() {
    assert!(classify_outcome(&ProcessOutcome::Exited { code: 0 }, "stage").is_ok());
    let r = classify_outcome(&ProcessOutcome::Exited { code: 1 }, "reconstruct");
    match r {
        Err(Error::CommandExecutionFailed(stage)) => assert_eq!(stage, "reconstruct"),
        _ => panic!("a non-zero exit must be an execution failure"),
    }
    let r = classify_outcome(&ProcessOutcome::Terminated, "reconstruct");
    assert!(matches!(r, Err(Error::CommandExecutionFailed(_))));
    let r = classify_outcome(&ProcessOutcome::SpawnFailed, "masks");
    match r {
        Err(Error::CommandSpawnFailed(stage)) => assert_eq!(stage, "masks"),
        _ => panic!("a start failure must be a spawn failure"),
    }
}

#[test]
fn dicom_conversion_reads_the_archive_into_the_nifti_source() {
    let n = NiftyMic::from_working_directory("/work/scan01-job", test_config()).unwrap();
    let inv = n.convert_dicom_to_nifti();
    assert_eq!(inv.binary, "/usr/bin/dcm2niix");
    assert_eq!(inv.args, vec!["-o", "/work/scan01-job/nii", "/work/scan01-job/archive"]);
    assert!(inv.current_dir.is_none());
}

#[test]
fn mask_generation_translates_every_path() {
    // A missing directory scans as empty, so the invocation is the
    // fixed frame around an empty volume list.
    let n = NiftyMic::from_working_directory("/nonexistent/niftymic-job", test_config()).unwrap();
    let inv = n.generate_masks_from_nifti().unwrap();
    assert_eq!(inv.binary, "/usr/bin/docker");
    assert_eq!(
        inv.args,
        vec![
            "run", "--rm", "-v", "/nonexistent/niftymic-job:/app", "renbem/niftymic",
            "niftymic_segment_fetal_brains", "--filenames", "--dir-output", "/app/masks",
        ]
    );
}

#[test]
fn reconstruct_accepts_empty_image_and_mask_lists() {
    let n = NiftyMic::from_working_directory("/nonexistent/niftymic-job", test_config()).unwrap();
    let inv = n.reconstruct(Options::default()).unwrap();
    assert_eq!(inv.binary, "/usr/bin/docker");
    assert_eq!(
        inv.args,
        vec![
            "run", "--rm", "-v", "/nonexistent/niftymic-job:/app", "renbem/niftymic",
            "niftymic_reconstruct_volume", "--filenames", "--filenames-masks",
            "--alpha", "0.01",
            "--outlier-rejection", "1",
            "--threshold-first", "0.5",
            "--threshold", "0.85",
            "--intensity-correction", "1",
            "--isotropic-resolution", "0.8",
            "--two-step-cycles", "3",
            "--verbose", "1",
            "--output", "/app/output_nii/niftymic-job.nii.gz",
        ]
    );
}

#[test]
fn nifti_to_dicom_plan_clears_then_converts_then_packages() {
    let n = NiftyMic::from_working_directory("/work/job", test_config()).unwrap();
    let plan = n.convert_nifti_to_dicom();
    assert_eq!(plan.clear_directory, "/work/job/output_dicom");
    assert_eq!(plan.invocation.binary, "/usr/bin/medcon");
    assert_eq!(
        plan.invocation.args,
        vec!["-f", "/work/job/output_nii/job.nii.gz", "-split3d", "-c", "dicom"]
    );
    assert_eq!(plan.invocation.current_dir.as_deref(), Some("/work/job/output_dicom"));
    assert_eq!(plan.archive_source_directory, "/work/job/output_dicom");
    assert_eq!(plan.archive_output_path, "/work/job/job.zip");
}
