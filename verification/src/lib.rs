//! The core of a minimal command interpreter: a quote-aware tokenizer and the
//! decisions of the command dispatcher, with the process effects left to the
//! caller.

pub mod decimal;
pub mod dispatch;
pub mod error;
pub mod rejoin;
pub mod scanning;
pub mod session;
pub mod text;
pub mod tokenizer;

pub use dispatch::{command_outcome, execute_command, Action, ExitStatus, Outcome};
pub use error::ShellError;
pub use session::{interpret, Session};
pub use tokenizer::{parse_command, MAX_ARGS, MAX_CMD_LENGTH};
