//! Configuration management for Flocker.
//!
//! This module handles configuration settings for Fluree containers,
//! including port mappings and volume mounts. Checks that depend on the
//! file system (does a mount path exist, is it a directory, can it be
//! resolved) work on probe values that the caller gathers; the rules
//! themselves are decided here.

use vstd::prelude::*;
use vstd::string::StringExecFns;

use crate::error::FlockerError;
use crate::docker::ContainerConfig;
use crate::state::opt_str_view;

verus! {

/// What the file system reports about one configured path.
#[derive(Debug, Clone)]
pub struct PathProbe {
    /// The path exists.
    pub exists: bool,
    /// The path is a directory.
    pub is_dir: bool,
    /// Why the path could not be resolved, if it could not.
    pub resolve_error: Option<String>,
}

/// The mathematical value of a probe.
pub struct PathProbeView {
    pub exists: bool,
    pub is_dir: bool,
    pub resolve_error: Option<Seq<char>>,
}

impl View for PathProbe {
    type V = PathProbeView;

    open spec fn view(&self) -> PathProbeView {
        PathProbeView {
            exists: self.exists,
            is_dir: self.is_dir,
            resolve_error: opt_str_view(self.resolve_error),
        }
    }
}

/// A probe that passes every directory check.
pub open spec fn probe_ok(p: PathProbeView) -> bool {
    p.exists && p.is_dir && p.resolve_error is None
}

/// What the file system reports about the paths a configuration names.
/// A probe only matters where the corresponding path is configured.
#[derive(Debug, Clone)]
pub struct ConfigProbes {
    /// The data mount directory.
    pub data_mount: PathProbe,
    /// The config mount directory.
    pub config_mount: PathProbe,
    /// The config file exists inside the config mount.
    pub config_file_exists: bool,
}

/// Configuration for a Fluree container instance
#[derive(Debug, Clone)]
pub struct FlureeConfig {
    /// Host port to map to container's port 8090
    pub host_port: u16,
    /// Path to mount as container's data directory
    pub data_mount: Option<String>,
    /// Path to mount as container's config directory
    pub config_mount: Option<String>,
    /// Name of the config file to use
    pub config_file: Option<String>,
}

impl Default for FlureeConfig {
    /// Port 8090, no mounts, no config file.
    fn default() -> (r: Self)
        ensures
            r.host_port == 8090,
            r.data_mount is None,
            r.config_mount is None,
            r.config_file is None,
    {
        Self { host_port: 8090, data_mount: None, config_mount: None, config_file: None }
    }
}

/// The first rule a configuration breaks, if it breaks one.
pub enum ConfigFault {
    /// The host port is below 1024.
    PortTooLow,
    /// The data mount path fails a directory check.
    DataMount,
    /// The config mount path fails a directory check.
    ConfigMount,
    /// A config mount was given without a config file.
    FileMissingForMount,
    /// The config file is not in the config mount directory.
    FileNotFound,
    /// A config file was given without a config mount.
    MountMissingForFile,
}

/// The first fault in a configuration, checked in the order the checks run:
/// port, data mount, config mount and its file, then a file without mount.
pub open spec fn spec_validate(
    host_port: u16,
    data_mount: Option<Seq<char>>,
    config_mount: Option<Seq<char>>,
    config_file: Option<Seq<char>>,
    data_probe: PathProbeView,
    config_probe: PathProbeView,
    config_file_exists: bool,
) -> Option<ConfigFault> {
    if host_port < 1024 {
        Some(ConfigFault::PortTooLow)
    } else if data_mount is Some && !probe_ok(data_probe) {
        Some(ConfigFault::DataMount)
    } else if config_mount is Some {
        if !probe_ok(config_probe) {
            Some(ConfigFault::ConfigMount)
        } else if config_file is None {
            Some(ConfigFault::FileMissingForMount)
        } else if !config_file_exists {
            Some(ConfigFault::FileNotFound)
        } else {
            None
        }
    } else if config_file is Some {
        Some(ConfigFault::MountMissingForFile)
    } else {
        None
    }
}

/// The error a failed directory check reports: the first failed check,
/// with the probed path named in the message.
pub open spec fn dir_check_err(
    e: FlockerError,
    probe: PathProbeView,
    path: Seq<char>,
    kind: Seq<char>,
) -> bool {
    match e {
        FlockerError::Config(m) => (!probe.exists && m@ == kind + " path does not exist: "@
            + path) || (probe.exists && !probe.is_dir && m@ == kind
            + " path is not a directory: "@ + path),
        FlockerError::ConfigFile { message, path: p, source } => probe.exists && probe.is_dir
            && probe.resolve_error is Some && message@ == "Failed to resolve "@ + kind
            + " path"@ && p@ == path && source@ == probe.resolve_error->0,
        _ => false,
    }
}

/// Check one directory probe, reporting the first failed check with the
/// probed path named in the message.
fn check_dir(probe: &PathProbe, path: &str, kind: &str) -> (r: Result<(), FlockerError>)
    ensures
        r is Ok <==> probe_ok(probe@),
        match r {
            Ok(()) => true,
            Err(e) => dir_check_err(e, probe@, path@, kind@),
        },
{
    if !probe.exists {
        let mut m = kind.to_owned();
        m.append(" path does not exist: ");
        m.append(path);
        return Err(FlockerError::Config(m));
    }
    if !probe.is_dir {
        let mut m = kind.to_owned();
        m.append(" path is not a directory: ");
        m.append(path);
        return Err(FlockerError::Config(m));
    }
    match &probe.resolve_error {
        Some(cause) => {
            let mut m = "Failed to resolve ".to_owned();
            m.append(kind);
            m.append(" path");
            Err(
                FlockerError::ConfigFile {
                    message: m,
                    path: path.to_owned(),
                    source: cause.clone(),
                },
            )
        },
        None => Ok(()),
    }
}

impl FlureeConfig {
    /// Create a new configuration with custom settings
    pub fn new(
        host_port: u16,
        data_mount: Option<String>,
        config_mount: Option<String>,
        config_file: Option<String>,
    ) -> (r: Self)
        ensures
            r.host_port == host_port,
            r.data_mount == data_mount,
            r.config_mount == config_mount,
            r.config_file == config_file,
    {
        Self { host_port, data_mount, config_mount, config_file }
    }

    /// Validate the configuration against what the file system reports
    /// about its paths: the result is `Ok` exactly when no rule is broken,
    /// and otherwise names the first broken rule.
    pub fn validate(&self, probes: &ConfigProbes) -> (r: Result<(), FlockerError>)
        ensures
            r is Ok <==> spec_validate(
                self.host_port,
                opt_str_view(self.data_mount),
                opt_str_view(self.config_mount),
                opt_str_view(self.config_file),
                probes.data_mount@,
                probes.config_mount@,
                probes.config_file_exists,
            ) is None,
            match r {
                Ok(()) => true,
                Err(e) => match spec_validate(
                    self.host_port,
                    opt_str_view(self.data_mount),
                    opt_str_view(self.config_mount),
                    opt_str_view(self.config_file),
                    probes.data_mount@,
                    probes.config_mount@,
                    probes.config_file_exists,
                ) {
                    Some(ConfigFault::PortTooLow) => e matches FlockerError::Config(m) && m@
                        == "Host port must be greater than 1023"@,
                    Some(ConfigFault::FileMissingForMount) => e matches FlockerError::Config(m)
                        && m@ == "Config file must be specified when config mount is provided"@,
                    Some(ConfigFault::FileNotFound) => e matches FlockerError::Config(m) && m@
                        == "Config file does not exist: "@ + join_path(
                        self.config_mount->0@,
                        self.config_file->0@,
                    ),
                    Some(ConfigFault::MountMissingForFile) => e matches FlockerError::Config(m)
                        && m@ == "Config mount must be specified when config file is provided"@,
                    Some(ConfigFault::DataMount) => dir_check_err(
                        e,
                        probes.data_mount@,
                        self.data_mount->0@,
                        "Data mount"@,
                    ),
                    Some(ConfigFault::ConfigMount) => dir_check_err(
                        e,
                        probes.config_mount@,
                        self.config_mount->0@,
                        "Config mount"@,
                    ),
                    None => false,
                },
            },
    {
        if self.host_port < 1024 {
            return Err(
                FlockerError::Config("Host port must be greater than 1023".to_owned()),
            );
        }
        if let Some(path) = &self.data_mount {
            let checked = check_dir(&probes.data_mount, path.as_str(), "Data mount");
            if let Err(e) = checked {
                return Err(e);
            }
        }
        if let Some(path) = &self.config_mount {
            let checked = check_dir(&probes.config_mount, path.as_str(), "Config mount");
            if let Err(e) = checked {
                return Err(e);
            }
            match &self.config_file {
                None => {
                    return Err(
                        FlockerError::Config(
                            "Config file must be specified when config mount is provided".to_owned(),
                        ),
                    );
                },
                Some(file) => {
                    if !probes.config_file_exists {
                        let mut m = "Config file does not exist: ".to_owned();
                        let full = join_path_exec(path.as_str(), file.as_str());
                        m.append(full.as_str());
                        return Err(FlockerError::Config(m));
                    }
                },
            }
        } else if self.config_file.is_some() {
            return Err(
                FlockerError::Config(
                    "Config mount must be specified when config file is provided".to_owned(),
                ),
            );
        }
        Ok(())
    }

    /// Convert the configuration into Docker-compatible settings
    pub fn into_docker_config(self) -> (r: ContainerConfig)
        ensures
            r.host_port == self.host_port,
            r.container_port == 8090,
            opt_str_view(r.data_mount_path) == match opt_str_view(self.data_mount) {
                Some(p) => Some(crate::docker::mount_string_of(p)),
                None => None::<Seq<char>>,
            },
    {
        ContainerConfig {
            host_port: self.host_port,
            container_port: 8090,
            data_mount_path: match &self.data_mount {
                Some(p) => Some(ContainerConfig::path_to_mount_string(p.as_str())),
                None => None,
            },
        }
    }
}

/// `name` appended to the directory `base`, with one separator between.
pub open spec fn join_path(base: Seq<char>, name: Seq<char>) -> Seq<char> {
    if base.len() == 0 {
        name
    } else if base.last() == '/' {
        base + name
    } else {
        base + "/"@ + name
    }
}

/// Executable path join.
fn join_path_exec(base: &str, name: &str) -> (r: String)
    ensures
        r@ == join_path(base@, name@),
{
    let cs = crate::strutil::chars_of(base);
    if cs.len() == 0 {
        name.to_owned()
    } else if cs[cs.len() - 1] == '/' {
        let mut a = base.to_owned();
        a.append(name);
        a
    } else {
        let mut a = base.to_owned();
        a.append("/");
        a.append(name);
        a
    }
}

} // verus!
