//! Discovery and invocation of prefixed subcommand executables found on a search path.
//!
//! The library decides; the caller does the I/O. It hands in the listings of the
//! search-path directories and what its children did, and gets back the
//! subcommands found, the executable to run and the status to exit with.
pub mod external;
pub mod external_commands;
pub mod help;
pub mod help_cmd;
pub mod locate;
pub mod modules;
pub mod path_ext;
pub mod probe;
pub mod status;
pub mod subcommands_provider;
pub mod text;

pub use external::{ChildOutput, External, ExternalResult};
pub use external_commands::{ExternalCommand, ExternalCommands};
pub use help::{CommandDescription, Help, PollAction};
pub use help_cmd::{HelpCmd, HelpCmdResult};
pub use locate::locate_subcommand;
pub use probe::{EntryInfo, FileMeta, Probe};
pub use status::{PortableStatus, Termination};
pub use subcommands_provider::{Subcommand, SubcommandsProvider};
