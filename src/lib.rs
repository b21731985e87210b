//! Orchestration core of a client for Windows remote management: endpoint
//! normalization, the open / dispatch / close session lifecycle, verbosity
//! gating and the mapping of failures to process exit codes.

pub mod text;
pub mod endpoint;
pub mod outcome;
pub mod session;
pub mod settings;

pub use endpoint::adjust_endpoint;
pub use outcome::{exit_code, Failure};
pub use session::{Action, Command, Event, Phase, Session};
pub use settings::{validate_flags, AuthMethod, ConfigError, Encryption, Flags, Verbosity};
