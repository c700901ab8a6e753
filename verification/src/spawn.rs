//! External-process supervision and the container-engine command
//! builder.
//!
//! The library never spawns a process itself: it builds the complete
//! invocation (binary, ordered arguments, optional working directory)
//! and classifies the outcome that the surrounding binary reports back.
//! Success means exactly one thing: the child started and exited with
//! status zero.

use vstd::prelude::*;
use crate::config::Config;
use crate::niftymic::Error;
use crate::ordering::views;

verus! {

/// One complete external command: what to start, with which arguments,
/// and where.
pub struct CommandInvocation {
    pub binary: String,
    pub args: Vec<String>,
    pub current_dir: Option<String>,
}

/// What became of one attempt to run an external command.
pub enum ProcessOutcome {
    /// The child ran to completion and exited with this status code.
    Exited { code: i32 },
    /// The child started but was terminated abnormally, without an
    /// exit status (for instance by a signal).
    Terminated,
    /// The child could not be started at all: binary missing or not
    /// executable.
    SpawnFailed,
}

/// Classifies the outcome of one supervised command: success exactly
/// when the child exited with status zero; a start failure and an
/// execution failure are kept apart, and both name the invoking stage.
pub fn classify_outcome(outcome: &ProcessOutcome, stage: &str) -> (r: Result<(), Error>)
    ensures
        r is Ok <==> outcome matches ProcessOutcome::Exited { code: 0i32 },
        outcome is SpawnFailed ==> (r matches Err(e) && e matches Error::CommandSpawnFailed(s)
            && s@ == stage@),
        !(outcome is SpawnFailed) && !(outcome matches ProcessOutcome::Exited { code: 0i32 })
            ==> (r matches Err(e) && e matches Error::CommandExecutionFailed(s) && s@ == stage@),
{
    match outcome {
        ProcessOutcome::Exited { code } => {
            if *code == 0 {
                Ok(())
            } else {
                Err(Error::CommandExecutionFailed(stage.to_owned()))
            }
        },
        ProcessOutcome::Terminated => Err(Error::CommandExecutionFailed(stage.to_owned())),
        ProcessOutcome::SpawnFailed => Err(Error::CommandSpawnFailed(stage.to_owned())),
    }
}

/// The bind-mount argument: the host directory, a colon, the mount
/// path inside the container.
pub open spec fn bind_mount_arg(host_dir: Seq<char>, container_dir: Seq<char>) -> Seq<char> {
    host_dir + seq![':'] + container_dir
}

/// The fixed head of every containerized invocation: the run flag, the
/// auto-remove flag, the single bind mount, then the image, which
/// stands immediately before the wrapped tool name.
pub open spec fn container_run_prefix(w: DockerWrapper, host_dir: Seq<char>) -> Seq<Seq<char>> {
    seq!["run"@, "--rm"@, "-v"@, bind_mount_arg(host_dir, w.working_directory@), w.image@]
}

/// Wraps tool invocations so that they run inside the configured
/// container image, with one bind-mounted directory as the only
/// filesystem bridge between host and container.
pub struct DockerWrapper {
    pub executable: String,
    pub working_directory: String,
    pub image: String,
}

impl DockerWrapper {
    pub fn new(executable: &str, working_directory: &str, image: &str) -> (r: DockerWrapper)
        ensures
            r.executable@ == executable@,
            r.working_directory@ == working_directory@,
            r.image@ == image@,
    {
        DockerWrapper {
            executable: executable.to_owned(),
            working_directory: working_directory.to_owned(),
            image: image.to_owned(),
        }
    }

    pub fn from_config(config: &Config) -> (r: DockerWrapper)
        ensures
            r.executable@ == config.executables.docker@,
            r.working_directory@ == config.docker.working_directory@,
            r.image@ == config.docker.image@,
    {
        DockerWrapper::new(
            config.executables.docker.as_str(),
            config.docker.working_directory.as_str(),
            config.docker.image.as_str(),
        )
    }

    /// The container-engine arguments up to and including the image,
    /// with the bind mount as exactly `host:container`.
    pub fn get_run_command_args(&self, working_directory: &str) -> (r: Vec<String>)
        ensures
            views(r@) == container_run_prefix(*self, working_directory@),
    {
        let mut bind = working_directory.to_owned();
        bind.append(":");
        bind.append(self.working_directory.as_str());
        proof {
            reveal_strlit(":");
            assert(bind@ =~= bind_mount_arg(working_directory@, self.working_directory@));
        }
        let mut args: Vec<String> = Vec::new();
        args.push("run".to_owned());
        args.push("--rm".to_owned());
        args.push("-v".to_owned());
        args.push(bind);
        args.push(self.image.clone());
        proof {
            assert(views(args@) =~= container_run_prefix(*self, working_directory@));
        }
        args
    }

    /// The complete containerized invocation: engine prefix, image,
    /// the wrapped tool name, then the tool's arguments, in that order,
    /// run from the caller's current directory.
    pub fn run(&self, command: &str, args: &Vec<String>, working_directory: &str) -> (r:
        CommandInvocation)
        ensures
            r.binary@ == self.executable@,
            views(r.args@) == container_run_prefix(*self, working_directory@) + seq![command@]
                + views(args@),
            r.current_dir is None,
    {
        let mut command_line = self.get_run_command_args(working_directory);
        command_line.push(command.to_owned());
        proof {
            assert(views(command_line@) =~= container_run_prefix(*self, working_directory@)
                + seq![command@]);
        }
        let ghost head = views(command_line@);
        let mut i: usize = 0;
        proof {
            assert(views(args@.take(0)) =~= Seq::<Seq<char>>::empty());
            assert(head + views(args@.take(0)) =~= head);
        }
        while i < args.len()
            invariant
                i <= args@.len(),
                views(command_line@) == head + views(args@.take(i as int)),
            decreases args@.len() - i,
        {
            let ghost before = views(command_line@);
            command_line.push(args[i].clone());
            proof {
                assert(views(command_line@) =~= before.push(args@[i as int]@));
                assert(views(args@.take(i as int + 1)) =~= views(args@.take(i as int)).push(
                    args@[i as int]@,
                ));
                assert(before.push(args@[i as int]@) =~= head + views(args@.take(i as int + 1)));
            }
            i += 1;
        }
        proof {
            assert(args@.take(args@.len() as int) =~= args@);
            assert(views(command_line@) =~= container_run_prefix(*self, working_directory@) + seq![
                command@,
            ] + views(args@));
        }
        CommandInvocation {
            binary: self.executable.clone(),
            args: command_line,
            current_dir: None,
        }
    }
}

} // verus!
