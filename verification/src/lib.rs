//! Flocker: a library for managing Fluree Docker containers.
//!
//! The heart of the library is the persistent container registry: a set of
//! container records, unique by id and by name, that survives process
//! restarts through a JSON file and supplies defaults for the next session.
#![verifier::loop_isolation(false)]

pub mod actions;
pub mod cli;
pub mod codec;
pub mod config;
pub mod docker;
pub mod error;
pub mod hub;
pub mod state;
pub mod strutil;
pub mod terminal;
pub mod ui;

pub use cli::Cli;
pub use config::FlureeConfig;
pub use docker::ContainerConfig;
pub use error::FlockerError;
pub use state::State;
pub use ui::UserInterface;

use vstd::prelude::*;

verus! {

/// Container status information, as reported by the Docker daemon.
#[derive(Debug, Clone)]
pub enum ContainerStatus {
    /// Container is running
    Running {
        /// Container ID
        id: String,
        /// Container name
        name: String,
        /// Mapped port
        port: u16,
        /// Data directory if mounted
        data_dir: Option<String>,
        /// Last start time
        started_at: Option<String>,
    },
    /// Container exists but is not running
    Stopped {
        /// Container ID
        id: String,
        /// Container name
        name: String,
        /// Last start time before stopping
        last_start: Option<String>,
    },
    /// No container found
    NotFound,
}

impl ContainerStatus {
    /// The status label shown to the user.
    pub fn style(&self) -> (r: String)
        ensures
            r@ == match self {
                ContainerStatus::Running { .. } => "running"@,
                ContainerStatus::Stopped { .. } => "stopped"@,
                ContainerStatus::NotFound => "not found"@,
            },
    {
        match self {
            ContainerStatus::Running { .. } => "running".to_owned(),
            ContainerStatus::Stopped { .. } => "stopped".to_owned(),
            ContainerStatus::NotFound => "not found".to_owned(),
        }
    }
}

} // verus!
