//! The working directory of one reconstruction job and the
//! orchestrator that plans its four pipeline stages.
//!
//! Each stage planner computes the complete external invocation from
//! the staged directory layout: every path handed to a containerized
//! tool is translated to the container's mount path, and the image and
//! mask lists are sorted into the same lexicographic order, so that
//! same-index entries of the two lists belong to the same subject.

use vstd::prelude::*;
use vstd::relations::sorted_by;
use crate::config::Config;
use crate::numfmt::{dec_rep, u64_to_string};
use crate::ordering::{
    filter_by_extension, has_extension, lemma_translate_preserves_order, lex_leq, sort_strings,
    strings_sorted, views,
};
use crate::outside::{fresh_ulid, walk_paths};
use crate::pathspec::{
    file_name_exec, file_name_of, is_strict_descendant, join_path, lemma_join_is_strict_descendant,
    lemma_path_join_assoc, path_join, stem_exec, stem_of, suffix_under, translate_prefix,
};
use crate::spawn::{container_run_prefix, CommandInvocation, DockerWrapper};

verus! {

/// Everything that can go wrong in this subsystem. Every operation
/// reports through one of these; nothing is retried or swallowed.
#[derive(Debug)]
pub enum Error {
    /// The input archive could not be read, or was empty or corrupt.
    ArchiveInvalid(String),
    /// The working directory or one of its subdirectories could not be
    /// created.
    DirectoryCreationFailed(String),
    /// A path handed to translation was not a descendant of the
    /// working-directory root; carries the offending path.
    PathTranslationFailed(String),
    /// An external binary could not be started at all; carries the
    /// invoking stage.
    CommandSpawnFailed(String),
    /// An external process ran and exited non-zero or was terminated
    /// abnormally; carries the invoking stage.
    CommandExecutionFailed(String),
    /// The configuration could not be loaded or deserialized.
    ConfigurationInvalid(String),
}

/// The settings of the reconstruction stage, serialized as an ordered
/// flag/value argument list.
pub struct Options {
    pub alpha: String,
    pub outlier_rejection: u64,
    pub threshold_first: String,
    pub threshold: String,
    pub intensity_correction: u64,
    pub isotropic_resolution: String,
    pub two_step_cycles: u64,
}

/// The exact argument list that one `Options` value serializes to.
pub open spec fn options_args(o: Options) -> Seq<Seq<char>> {
    seq![
        "--alpha"@,
        o.alpha@,
        "--outlier-rejection"@,
        dec_rep(o.outlier_rejection as nat),
        "--threshold-first"@,
        o.threshold_first@,
        "--threshold"@,
        o.threshold@,
        "--intensity-correction"@,
        dec_rep(o.intensity_correction as nat),
        "--isotropic-resolution"@,
        o.isotropic_resolution@,
        "--two-step-cycles"@,
        dec_rep(o.two_step_cycles as nat),
        "--verbose"@,
        "1"@,
    ]
}

impl Options {
    pub fn default() -> (r: Options)
        ensures
            r.alpha@ == "0.01"@,
            r.outlier_rejection == 1u64,
            r.threshold_first@ == "0.5"@,
            r.threshold@ == "0.85"@,
            r.intensity_correction == 1u64,
            r.isotropic_resolution@ == "0.8"@,
            r.two_step_cycles == 3u64,
    {
        Options {
            alpha: "0.01".to_owned(),
            outlier_rejection: 1,
            threshold_first: "0.5".to_owned(),
            threshold: "0.85".to_owned(),
            intensity_correction: 1,
            isotropic_resolution: "0.8".to_owned(),
            two_step_cycles: 3,
        }
    }

    /// Serializes the settings: each flag immediately followed by its
    /// value, closed by the fixed verbosity flag.
    pub fn to_args(&self) -> (r: Vec<String>)
        ensures
            views(r@) == options_args(*self),
    {
        let mut args: Vec<String> = Vec::new();
        args.push("--alpha".to_owned());
        args.push(self.alpha.clone());
        args.push("--outlier-rejection".to_owned());
        args.push(u64_to_string(self.outlier_rejection));
        args.push("--threshold-first".to_owned());
        args.push(self.threshold_first.clone());
        args.push("--threshold".to_owned());
        args.push(self.threshold.clone());
        args.push("--intensity-correction".to_owned());
        args.push(u64_to_string(self.intensity_correction));
        args.push("--isotropic-resolution".to_owned());
        args.push(self.isotropic_resolution.clone());
        args.push("--two-step-cycles".to_owned());
        args.push(u64_to_string(self.two_step_cycles));
        args.push("--verbose".to_owned());
        args.push("1".to_owned());
        proof {
            assert(views(args@) =~= options_args(*self));
        }
        args
    }
}

/// The name of one fresh job directory: the archive's stem, a dash,
/// and the unique identifier.
pub open spec fn job_directory_name(stem: Seq<char>, id: Seq<char>) -> Seq<char> {
    stem + seq!['-'] + id
}

/// Job directory names built from identifiers of one fixed length
/// collide only when both the stem and the identifier coincide: as
/// long as every job draws a distinct identifier, no two jobs share a
/// working directory, whatever archives they were started from.
pub proof fn lemma_job_directory_names_collide_only_on_same_id(
    stem1: Seq<char>,
    stem2: Seq<char>,
    id1: Seq<char>,
    id2: Seq<char>,
)
    requires
        id1.len() == id2.len(),
        job_directory_name(stem1, id1) == job_directory_name(stem2, id2),
    ensures
        stem1 == stem2,
        id1 == id2,
{
    let n1 = job_directory_name(stem1, id1);
    let n2 = job_directory_name(stem2, id2);
    assert(n1.len() == stem1.len() + 1 + id1.len());
    assert(n2.len() == stem2.len() + 1 + id2.len());
    assert(stem1.len() == stem2.len());
    assert(stem1 =~= n1.take(stem1.len() as int));
    assert(stem2 =~= n2.take(stem2.len() as int));
    assert(id1 =~= n1.skip(stem1.len() as int + 1));
    assert(id2 =~= n2.skip(stem2.len() as int + 1));
}

/// The staged directory tree of one job: the root, its name, and the
/// five fixed subdirectories. All paths are plain strings; the root is
/// taken as the job's absolute reference point.
pub struct WorkingDirectory {
    pub directory: String,
    pub path: String,
    pub archive: String,
    pub nii: String,
    pub masks: String,
    pub output_nii: String,
    pub output_dicom: String,
}

/// The derived name of the reconstructed volume.
pub open spec fn nifti_filename_of(w: WorkingDirectory) -> Seq<char> {
    w.directory@ + ".nii.gz"@
}

/// The derived name of the final packaged DICOM archive.
pub open spec fn dicom_filename_of(w: WorkingDirectory) -> Seq<char> {
    w.directory@ + ".zip"@
}

impl WorkingDirectory {
    /// The fixed layout invariant: the directory name is the root's
    /// final segment, and the five subdirectories sit directly under
    /// the root, under their fixed names.
    pub open spec fn wf(&self) -> bool {
        &&& self.directory@.len() > 0
        &&& self.directory@ == file_name_of(self.path@)
        &&& self.archive@ == path_join(self.path@, "archive"@)
        &&& self.nii@ == path_join(self.path@, "nii"@)
        &&& self.masks@ == path_join(self.path@, "masks"@)
        &&& self.output_nii@ == path_join(self.path@, "output_nii"@)
        &&& self.output_dicom@ == path_join(self.path@, "output_dicom"@)
    }

    /// Attaches to a directory path without verifying what it holds;
    /// the caller answers for the prerequisite subdirectories being
    /// populated.
    pub fn new(path: &str) -> (r: WorkingDirectory)
        requires
            file_name_of(path@).len() > 0,
        ensures
            r.wf(),
            r.path@ == path@,
    {
        let directory_name = file_name_exec(path);
        WorkingDirectory {
            directory: directory_name,
            path: path.to_owned(),
            archive: join_path(path, "archive"),
            nii: join_path(path, "nii"),
            masks: join_path(path, "masks"),
            output_nii: join_path(path, "output_nii"),
            output_dicom: join_path(path, "output_dicom"),
        }
    }

    /// The name a fresh job directory gets: the stem of the input
    /// archive's file name, a dash, and a fresh time-ordered unique
    /// identifier of 26 separator-free characters.
    pub fn generate_working_directory_name(input_file_path: &str) -> (r: String)
        ensures
            exists|id: Seq<char>|
                {
                    &&& id.len() == 26
                    &&& (forall|i: int| 0 <= i < id.len() ==> id[i] != '/' && id[i] != '.')
                    &&& r@ == job_directory_name(
                        stem_of(file_name_of(input_file_path@)),
                        id,
                    )
                },
    {
        let name = file_name_exec(input_file_path);
        let mut stem = stem_exec(name.as_str());
        let id = fresh_ulid();
        let ghost gid = id@;
        stem.append("-");
        stem.append(id.as_str());
        proof {
            reveal_strlit("-");
            assert(stem@ =~= job_directory_name(
                stem_of(file_name_of(input_file_path@)),
                gid,
            ));
        }
        stem
    }

    pub fn get_nifti_filename(&self) -> (r: String)
        ensures
            r@ == nifti_filename_of(*self),
    {
        let mut s = self.directory.clone();
        s.append(".nii.gz");
        s
    }

    pub fn get_dicom_filename(&self) -> (r: String)
        ensures
            r@ == dicom_filename_of(*self),
    {
        let mut s = self.directory.clone();
        s.append(".zip");
        s
    }

    /// Re-roots a path from this working directory to `replacement`:
    /// the root prefix is exchanged, the suffix is kept exactly, and a
    /// path that is not a strict descendant of the root is refused,
    /// never rewritten into something unrelated.
    pub fn replace_base_directory(&self, path: &str, replacement: &str) -> (r: Result<
        String,
        Error,
    >)
        ensures
            r is Ok <==> is_strict_descendant(path@, self.path@),
            r matches Ok(s) ==> s@ == path_join(replacement@, suffix_under(path@, self.path@)),
            r matches Err(e) ==> e is PathTranslationFailed,
    {
        match translate_prefix(path, self.path.as_str(), replacement) {
            Some(s) => Ok(s),
            None => Err(Error::PathTranslationFailed(path.to_owned())),
        }
    }

    /// The masks subdirectory as the container sees it.
    pub fn get_relative_mask_directory(&self, relative_to: &str) -> (r: String)
        requires
            self.wf(),
        ensures
            r@ == path_join(relative_to@, "masks"@),
    {
        proof {
            reveal_strlit("masks");
            lemma_join_is_strict_descendant(self.path@, "masks"@);
        }
        match self.replace_base_directory(self.masks.as_str(), relative_to) {
            Ok(s) => s,
            Err(_) => {
                proof {
                    assert(false);
                }
                String::new()
            },
        }
    }

    /// The reconstructed volume's path as the container sees it.
    pub fn get_relative_nifti_output(&self, relative_to: &str) -> (r: String)
        requires
            self.wf(),
        ensures
            r@ == path_join(relative_to@, path_join("output_nii"@, nifti_filename_of(*self))),
    {
        let filename = self.get_nifti_filename();
        let full = join_path(self.output_nii.as_str(), filename.as_str());
        proof {
            lemma_path_join_assoc(self.path@, "output_nii"@, filename@);
            assert(path_join("output_nii"@, filename@).len() > 0);
            lemma_join_is_strict_descendant(self.path@, path_join("output_nii"@, filename@));
        }
        match self.replace_base_directory(full.as_str(), relative_to) {
            Ok(s) => s,
            Err(_) => {
                proof {
                    assert(false);
                }
                String::new()
            },
        }
    }

    /// The reconstructed volume's path on the host.
    pub fn get_absolute_nifti_output(&self) -> (r: String)
        ensures
            r@ == path_join(self.output_nii@, nifti_filename_of(*self)),
    {
        let filename = self.get_nifti_filename();
        join_path(self.output_nii.as_str(), filename.as_str())
    }

    /// The final packaged archive's path on the host.
    pub fn get_absolute_dicom_output(&self) -> (r: String)
        ensures
            r@ == path_join(self.path@, dicom_filename_of(*self)),
    {
        let filename = self.get_dicom_filename();
        join_path(self.path.as_str(), filename.as_str())
    }

    /// The DICOM output subdirectory on the host.
    pub fn get_absolute_dicom_output_directory(&self) -> (r: String)
        ensures
            r@ == self.output_dicom@,
    {
        self.output_dicom.clone()
    }

    /// The job root on the host.
    pub fn absolute_path(&self) -> (r: String)
        ensures
            r@ == self.path@,
    {
        self.path.clone()
    }

    /// Scans a directory tree and returns the matching paths in
    /// lexicographic order. The scan itself depends on the disk; the
    /// filtering and the order do not: every returned entry carries
    /// the extension, and the order is always the same total order, so
    /// two scans that saw matching name sets pair up positionally.
    pub fn search_files_by_extension(&self, target_directory: &str, extension: &str) -> (r: Vec<
        String,
    >)
        ensures
            strings_sorted(r@),
            forall|i: int| 0 <= i < r@.len() ==> has_extension(#[trigger] r@[i]@, extension@),
    {
        broadcast use vstd::seq_lib::group_to_multiset_ensures;

        let listed = walk_paths(target_directory);
        let matched = filter_by_extension(listed, extension);
        let ghost gmatched = matched@;
        let ghost mviews = views(matched@);
        let r = sort_strings(matched);
        proof {
            assert forall|i: int| 0 <= i < r@.len() implies has_extension(
                #[trigger] r@[i]@,
                extension@,
            ) by {
                let v = views(r@)[i];
                assert(views(r@)[i] == r@[i]@);
                assert(views(r@).contains(v));
                assert(views(r@).to_multiset().count(v) > 0);
                assert(mviews.to_multiset().count(v) > 0);
                assert(mviews.contains(v));
                let j = choose|j: int| 0 <= j < mviews.len() && mviews[j] == v;
                assert(mviews[j] == gmatched[j]@);
                assert(has_extension(gmatched[j]@, extension@));
            }
        }
        r
    }

    /// Re-roots every entry of `files` to `working_directory`. All
    /// entries must be strict descendants of the job root; the first
    /// one that is not fails the whole translation loudly.
    pub fn switch_working_directory(&self, files: Vec<String>, working_directory: &str) -> (r:
        Result<Vec<String>, Error>)
        ensures
            r is Ok <==> (forall|i: int|
                0 <= i < files@.len() ==> is_strict_descendant(#[trigger] files@[i]@, self.path@)),
            r matches Ok(v) ==> {
                &&& v@.len() == files@.len()
                &&& forall|i: int|
                    0 <= i < v@.len() ==> #[trigger] v@[i]@ == path_join(
                        working_directory@,
                        suffix_under(files@[i]@, self.path@),
                    )
                &&& forall|i: int|
                    0 <= i < v@.len() ==> is_strict_descendant(
                        #[trigger] v@[i]@,
                        working_directory@,
                    )
            },
            r matches Err(e) ==> e is PathTranslationFailed,
    {
        let mut out: Vec<String> = Vec::new();
        let mut i: usize = 0;
        while i < files.len()
            invariant
                i <= files@.len(),
                out@.len() == i,
                forall|j: int|
                    0 <= j < i ==> is_strict_descendant(#[trigger] files@[j]@, self.path@),
                forall|j: int|
                    0 <= j < i ==> #[trigger] out@[j]@ == path_join(
                        working_directory@,
                        suffix_under(files@[j]@, self.path@),
                    ),
                forall|j: int|
                    0 <= j < i ==> is_strict_descendant(#[trigger] out@[j]@, working_directory@),
            decreases files@.len() - i,
        {
            match self.replace_base_directory(files[i].as_str(), working_directory) {
                Ok(s) => {
                    proof {
                        lemma_join_is_strict_descendant(
                            working_directory@,
                            suffix_under(files@[i as int]@, self.path@),
                        );
                    }
                    out.push(s);
                },
                Err(e) => {
                    return Err(e);
                },
            }
            i += 1;
        }
        Ok(out)
    }

    /// The NIfTI source volumes as the container sees them, in
    /// lexicographic order of their host paths.
    pub fn get_relative_nifti_images(&self, relative_to: &str) -> (r: Result<Vec<String>, Error>)
        requires
            self.wf(),
        ensures
            r matches Ok(v) ==> strings_sorted(v@),
            r matches Ok(v) ==> forall|i: int|
                0 <= i < v@.len() ==> is_strict_descendant(#[trigger] v@[i]@, relative_to@),
            r matches Err(e) ==> e is PathTranslationFailed,
    {
        let files = self.search_files_by_extension(self.nii.as_str(), "nii");
        let ghost gfiles = files@;
        let r = self.switch_working_directory(files, relative_to);
        proof {
            if r is Ok {
                self.lemma_switch_keeps_order(gfiles, r->Ok_0@, relative_to@);
            }
        }
        r
    }

    /// The generated masks as the container sees them, in
    /// lexicographic order of their host paths.
    pub fn get_relative_mask_images(&self, relative_to: &str) -> (r: Result<Vec<String>, Error>)
        requires
            self.wf(),
        ensures
            r matches Ok(v) ==> strings_sorted(v@),
            r matches Ok(v) ==> forall|i: int|
                0 <= i < v@.len() ==> is_strict_descendant(#[trigger] v@[i]@, relative_to@),
            r matches Err(e) ==> e is PathTranslationFailed,
    {
        let files = self.search_files_by_extension(self.masks.as_str(), "gz");
        let ghost gfiles = files@;
        let r = self.switch_working_directory(files, relative_to);
        proof {
            if r is Ok {
                self.lemma_switch_keeps_order(gfiles, r->Ok_0@, relative_to@);
            }
        }
        r
    }

    /// Translation maps a sorted host list to a sorted container list.
    proof fn lemma_switch_keeps_order(
        &self,
        files: Seq<String>,
        v: Seq<String>,
        target: Seq<char>,
    )
        requires
            strings_sorted(files),
            v.len() == files.len(),
            forall|i: int| 0 <= i < files.len() ==> is_strict_descendant(
                #[trigger] files[i]@,
                self.path@,
            ),
            forall|i: int| 0 <= i < v.len() ==> #[trigger] v[i]@ == path_join(
                target,
                suffix_under(files[i]@, self.path@),
            ),
        ensures
            strings_sorted(v),
    {
        assert forall|i1: int, i2: int| 0 <= i1 < i2 < v.len() implies lex_leq()(
            views(v)[i1],
            views(v)[i2],
        ) by {
            assert(lex_leq()(views(files)[i1], views(files)[i2]));
            assert(views(files)[i1] == files[i1]@);
            assert(views(files)[i2] == files[i2]@);
            lemma_translate_preserves_order(files[i1]@, files[i2]@, self.path@, target);
            assert(views(v)[i1] == v[i1]@);
            assert(views(v)[i2] == v[i2]@);
        }
    }
}

/// The arguments of the mask-generation stage: the sorted translated
/// volume list, then the translated masks directory.
pub open spec fn generate_masks_args(
    w: DockerWrapper,
    host_dir: Seq<char>,
    imgs: Seq<Seq<char>>,
    mask_dir: Seq<char>,
) -> Seq<Seq<char>> {
    container_run_prefix(w, host_dir) + seq!["niftymic_segment_fetal_brains"@, "--filenames"@]
        + imgs + seq!["--dir-output"@, mask_dir]
}

/// The arguments of the reconstruction stage: the sorted translated
/// volume list, the sorted translated mask list, the serialized
/// options, then the translated output path.
pub open spec fn reconstruct_args(
    w: DockerWrapper,
    host_dir: Seq<char>,
    imgs: Seq<Seq<char>>,
    msks: Seq<Seq<char>>,
    o: Options,
    out: Seq<char>,
) -> Seq<Seq<char>> {
    container_run_prefix(w, host_dir) + seq!["niftymic_reconstruct_volume"@, "--filenames"@] + imgs
        + seq!["--filenames-masks"@] + msks + options_args(o) + seq!["--output"@, out]
}

/// The plan of the final stage: clear the DICOM output directory, run
/// the converter in it, then package its files into the output
/// archive.
pub struct NiftiToDicomPlan {
    /// The directory whose plain files are removed before the run.
    pub clear_directory: String,
    /// The conversion command, run inside the DICOM output directory.
    pub invocation: CommandInvocation,
    /// The directory whose files are packaged afterwards.
    pub archive_source_directory: String,
    /// The absolute path of the archive to create.
    pub archive_output_path: String,
}

/// Plans the four stages of one reconstruction job against a staged
/// working directory.
pub struct NiftyMic {
    working_directory: WorkingDirectory,
    docker_wrapper: DockerWrapper,
    config: Config,
}

impl NiftyMic {
    /// The job's working directory.
    pub closed spec fn wd_spec(&self) -> WorkingDirectory {
        self.working_directory
    }

    /// The container wrapper in use.
    pub closed spec fn docker_spec(&self) -> DockerWrapper {
        self.docker_wrapper
    }

    /// The configuration in use.
    pub closed spec fn config_spec(&self) -> Config {
        self.config
    }

    pub open spec fn wf(&self) -> bool {
        self.wd_spec().wf()
    }

    /// Attaches to an existing staged directory, for resuming any
    /// single stage.
    pub fn from_working_directory(working_directory: &str, config: Config) -> (r: Result<
        NiftyMic,
        Error,
    >)
        requires
            file_name_of(working_directory@).len() > 0,
        ensures
            r is Ok,
            r matches Ok(n) ==> {
                &&& n.wf()
                &&& n.wd_spec().path@ == working_directory@
                &&& n.docker_spec().executable@ == config.executables.docker@
                &&& n.docker_spec().working_directory@ == config.docker.working_directory@
                &&& n.docker_spec().image@ == config.docker.image@
                &&& n.config_spec() == config
            },
    {
        let docker_wrapper = DockerWrapper::from_config(&config);
        Ok(
            NiftyMic {
                working_directory: WorkingDirectory::new(working_directory),
                docker_wrapper,
                config,
            },
        )
    }

    /// Plans the mask-generation stage: a containerized invocation
    /// whose arguments are the sorted translated volume list and the
    /// translated masks directory.
    pub fn generate_masks_from_nifti(&self) -> (r: Result<CommandInvocation, Error>)
        requires
            self.wf(),
        ensures
            r matches Ok(inv) ==> {
                &&& inv.binary@ == self.docker_spec().executable@
                &&& inv.current_dir is None
                &&& exists|imgs: Seq<Seq<char>>|
                    {
                        &&& sorted_by(imgs, lex_leq())
                        &&& views(inv.args@) == #[trigger] generate_masks_args(
                            self.docker_spec(),
                            self.wd_spec().path@,
                            imgs,
                            path_join(self.docker_spec().working_directory@, "masks"@),
                        )
                    }
            },
            r matches Err(e) ==> e is PathTranslationFailed,
    {
        let imgs = match self.working_directory.get_relative_nifti_images(
            self.docker_wrapper.working_directory.as_str(),
        ) {
            Ok(v) => v,
            Err(e) => {
                return Err(e);
            },
        };
        let ghost gimgs = views(imgs@);
        let mask_dir = self.working_directory.get_relative_mask_directory(
            self.docker_wrapper.working_directory.as_str(),
        );
        let mut args: Vec<String> = Vec::new();
        args.push("--filenames".to_owned());
        proof {
            assert(views(args@) =~= seq!["--filenames"@]);
        }
        append_all(&mut args, &imgs);
        let ghost mid = views(args@);
        proof {
            assert(mid =~= seq!["--filenames"@] + gimgs);
        }
        args.push("--dir-output".to_owned());
        proof {
            assert(views(args@) =~= mid.push("--dir-output"@));
        }
        let ghost mid2 = views(args@);
        args.push(mask_dir);
        proof {
            assert(views(args@) =~= mid2.push(
                path_join(self.docker_spec().working_directory@, "masks"@),
            ));
            assert(views(args@) =~= seq!["--filenames"@] + gimgs + seq![
                "--dir-output"@,
                path_join(self.docker_spec().working_directory@, "masks"@),
            ]);
        }
        let host = self.working_directory.absolute_path();
        let inv = self.docker_wrapper.run("niftymic_segment_fetal_brains", &args, host.as_str());
        proof {
            assert(views(inv.args@) =~= generate_masks_args(
                self.docker_spec(),
                self.wd_spec().path@,
                gimgs,
                path_join(self.docker_spec().working_directory@, "masks"@),
            ));
        }
        Ok(inv)
    }

    /// Plans the reconstruction stage: a containerized invocation over
    /// the positionally paired volume and mask lists, the serialized
    /// options, and the translated output path. Empty lists pass
    /// through unchanged: only the wrapped tool may reject them.
    pub fn reconstruct(&self, options: Options) -> (r: Result<CommandInvocation, Error>)
        requires
            self.wf(),
        ensures
            r matches Ok(inv) ==> {
                &&& inv.binary@ == self.docker_spec().executable@
                &&& inv.current_dir is None
                &&& exists|imgs: Seq<Seq<char>>, msks: Seq<Seq<char>>|
                    {
                        &&& sorted_by(imgs, lex_leq())
                        &&& sorted_by(msks, lex_leq())
                        &&& views(inv.args@) == #[trigger] reconstruct_args(
                            self.docker_spec(),
                            self.wd_spec().path@,
                            imgs,
                            msks,
                            options,
                            path_join(
                                self.docker_spec().working_directory@,
                                path_join("output_nii"@, nifti_filename_of(self.wd_spec())),
                            ),
                        )
                    }
            },
            r matches Err(e) ==> e is PathTranslationFailed,
    {
        let imgs = match self.working_directory.get_relative_nifti_images(
            self.docker_wrapper.working_directory.as_str(),
        ) {
            Ok(v) => v,
            Err(e) => {
                return Err(e);
            },
        };
        let msks = match self.working_directory.get_relative_mask_images(
            self.docker_wrapper.working_directory.as_str(),
        ) {
            Ok(v) => v,
            Err(e) => {
                return Err(e);
            },
        };
        let ghost gimgs = views(imgs@);
        let ghost gmsks = views(msks@);
        let out_path = self.working_directory.get_relative_nifti_output(
            self.docker_wrapper.working_directory.as_str(),
        );
        let opt_args = options.to_args();
        let ghost out_view = path_join(
            self.docker_spec().working_directory@,
            path_join("output_nii"@, nifti_filename_of(self.wd_spec())),
        );
        let mut args: Vec<String> = Vec::new();
        args.push("--filenames".to_owned());
        proof {
            assert(views(args@) =~= seq!["--filenames"@]);
        }
        append_all(&mut args, &imgs);
        let ghost m1 = views(args@);
        proof {
            assert(m1 =~= seq!["--filenames"@] + gimgs);
        }
        args.push("--filenames-masks".to_owned());
        proof {
            assert(views(args@) =~= m1.push("--filenames-masks"@));
        }
        let ghost m2 = views(args@);
        append_all(&mut args, &msks);
        let ghost m3 = views(args@);
        proof {
            assert(m3 == m2 + gmsks);
        }
        append_all(&mut args, &opt_args);
        let ghost m4 = views(args@);
        proof {
            assert(m4 == m3 + options_args(options));
        }
        args.push("--output".to_owned());
        proof {
            assert(views(args@) =~= m4.push("--output"@));
        }
        let ghost m5 = views(args@);
        args.push(out_path);
        proof {
            assert(views(args@) =~= m5.push(out_view));
            assert(views(args@) =~= seq!["--filenames"@] + gimgs + seq!["--filenames-masks"@]
                + gmsks + options_args(options) + seq!["--output"@, out_view]);
        }
        let host = self.working_directory.absolute_path();
        let inv = self.docker_wrapper.run("niftymic_reconstruct_volume", &args, host.as_str());
        proof {
            assert(views(inv.args@) =~= reconstruct_args(
                self.docker_spec(),
                self.wd_spec().path@,
                gimgs,
                gmsks,
                options,
                path_join(
                    self.docker_spec().working_directory@,
                    path_join("output_nii"@, nifti_filename_of(self.wd_spec())),
                ),
            ));
        }
        Ok(inv)
    }

    /// Plans the host-native DICOM to NIfTI conversion: everything
    /// under the archive subdirectory is converted into the NIfTI
    /// source subdirectory.
    pub fn convert_dicom_to_nifti(&self) -> (inv: CommandInvocation)
        requires
            self.wf(),
        ensures
            inv.binary@ == self.config_spec().executables.dcm2niix@,
            views(inv.args@) == seq!["-o"@, self.wd_spec().nii@, self.wd_spec().archive@],
            inv.current_dir is None,
    {
        let mut args: Vec<String> = Vec::new();
        args.push("-o".to_owned());
        args.push(self.working_directory.nii.clone());
        args.push(self.working_directory.archive.clone());
        proof {
            assert(views(args@) =~= seq!["-o"@, self.wd_spec().nii@, self.wd_spec().archive@]);
        }
        CommandInvocation {
            binary: self.config.executables.dcm2niix.clone(),
            args,
            current_dir: None,
        }
    }

    /// Plans the final stage: clear the DICOM output directory, run
    /// the host-native converter on the reconstructed volume inside
    /// that directory, then package the directory into the output
    /// archive at the returned path.
    pub fn convert_nifti_to_dicom(&self) -> (plan: NiftiToDicomPlan)
        requires
            self.wf(),
        ensures
            plan.clear_directory@ == self.wd_spec().output_dicom@,
            plan.invocation.binary@ == self.config_spec().executables.medcon@,
            views(plan.invocation.args@) == seq![
                "-f"@,
                path_join(self.wd_spec().output_nii@, nifti_filename_of(self.wd_spec())),
                "-split3d"@,
                "-c"@,
                "dicom"@,
            ],
            plan.invocation.current_dir matches Some(d) && d@ == self.wd_spec().output_dicom@,
            plan.archive_source_directory@ == self.wd_spec().output_dicom@,
            plan.archive_output_path@ == path_join(
                self.wd_spec().path@,
                dicom_filename_of(self.wd_spec()),
            ),
    {
        let clear_directory = self.working_directory.get_absolute_dicom_output_directory();
        let nifti_input = self.working_directory.get_absolute_nifti_output();
        let mut args: Vec<String> = Vec::new();
        args.push("-f".to_owned());
        args.push(nifti_input);
        args.push("-split3d".to_owned());
        args.push("-c".to_owned());
        args.push("dicom".to_owned());
        proof {
            assert(views(args@) =~= seq![
                "-f"@,
                path_join(self.wd_spec().output_nii@, nifti_filename_of(self.wd_spec())),
                "-split3d"@,
                "-c"@,
                "dicom"@,
            ]);
        }
        NiftiToDicomPlan {
            clear_directory,
            invocation: CommandInvocation {
                binary: self.config.executables.medcon.clone(),
                args,
                current_dir: Some(self.working_directory.get_absolute_dicom_output_directory()),
            },
            archive_source_directory: self.working_directory.get_absolute_dicom_output_directory(),
            archive_output_path: self.working_directory.get_absolute_dicom_output(),
        }
    }
}

/// Appends clones of all entries of `items` to `dst`, in order.
fn append_all(dst: &mut Vec<String>, items: &Vec<String>)
    ensures
        views(final(dst)@) == views(old(dst)@) + views(items@),
{
    let mut i: usize = 0;
    proof {
        assert(views(items@.take(0)) =~= Seq::<Seq<char>>::empty());
        assert(views(dst@) =~= views(old(dst)@) + views(items@.take(0)));
    }
    while i < items.len()
        invariant
            i <= items@.len(),
            views(dst@) == views(old(dst)@) + views(items@.take(i as int)),
        decreases items@.len() - i,
    {
        let ghost before = views(dst@);
        dst.push(items[i].clone());
        proof {
            assert(views(dst@) =~= before.push(items@[i as int]@));
            assert(views(items@.take(i as int + 1)) =~= views(items@.take(i as int)).push(
                items@[i as int]@,
            ));
            assert(before.push(items@[i as int]@) =~= views(old(dst)@) + views(
                items@.take(i as int + 1),
            ));
        }
        i += 1;
    }
    proof {
        assert(items@.take(items@.len() as int) =~= items@);
    }
}

} // verus!
