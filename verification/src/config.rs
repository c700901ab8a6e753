//! The configuration value: tool paths, container settings and the
//! output base directory, constructed once and handed by reference into
//! every component. Loading it from files or the environment is the
//! surrounding binary's concern.

use vstd::prelude::*;

verus! {

/// Container-engine settings: the image to run and the fixed mount
/// path inside the container.
pub struct Docker {
    pub image: String,
    pub working_directory: String,
}

/// Paths of the host-native executables the pipeline invokes.
pub struct Executable {
    pub dcm2niix: String,
    pub docker: String,
    pub medcon: String,
}

/// Where job working directories are created.
pub struct Output {
    pub base_directory: String,
}

/// Settings of the optional chat front end.
pub struct Telegram {
    pub enable: bool,
    pub teloxide_token: String,
    pub channel_id: String,
}

/// The whole configuration, read-only for the process's lifetime.
pub struct Config {
    pub output: Output,
    pub executables: Executable,
    pub docker: Docker,
    pub telegram: Option<Telegram>,
}

impl Config {
    pub fn new(output: Output, executables: Executable, docker: Docker, telegram: Option<
        Telegram,
    >) -> (r: Config)
        ensures
            r.output == output,
            r.executables == executables,
            r.docker == docker,
            r.telegram == telegram,
    {
        Config { output, executables, docker, telegram }
    }
}

} // verus!
