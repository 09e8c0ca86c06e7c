//! The commands the tool accepts, as plain data.  Argument parsing and help
//! text live with the binary; these types only name what can be asked for.

use vstd::prelude::*;

verus! {

/// How connection details are printed.
#[derive(Clone, Copy, Debug, PartialEq, Eq, Structural)]
pub enum ConnectionFormat {
    /// A DSN URL.
    Dsn,
    /// A human-readable table.
    Human,
}

/// Operations on the instance backing the current project.
#[derive(Debug)]
pub enum ControlCommands {
    /// Start the instance.
    Start,
    /// Stop the instance.
    Stop,
    /// Restart the instance.
    Restart,
    /// Destroy the instance: remove the container and its volumes.
    Destroy { force: bool },
    /// Drop and recreate the database inside the instance.
    Wipe { force: bool },
    /// Show the instance's status.
    Status,
    /// Stream the logs the instance produces.
    Logs { follow: bool },
    /// Show connection details.
    Conn { format: ConnectionFormat },
}

/// The tool's top-level commands.
#[derive(Debug)]
pub enum Commands {
    /// Create a new project, or converge the instance of an existing one.
    Init,
    /// Control an instance, the current project's by default.
    Instance { name: Option<String>, cmd: ControlCommands },
}

} // verus!
