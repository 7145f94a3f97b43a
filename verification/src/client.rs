//! The command line client: what its arguments mean.
pub mod cli;
pub mod command;

pub use self::cli::{CliError, CLI};
pub use self::command::{LocalStorage, PublishCommand, SubscribeCommand};
