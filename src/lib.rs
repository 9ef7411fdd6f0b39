//! The session registry and command interpreter of a line-oriented chat
//! server: a directory of handles with credentials and live connections,
//! the grammar of the `#` commands, and the fan-out of broadcasts.

pub mod command;
pub mod directory;
pub mod error;
pub mod fanout;
pub mod laws;
pub mod text;

pub use command::{handle_line, parse, parse_command, Command, Outcome, Session};
pub use directory::{Directory, Info};
pub use error::ChatError;
pub use fanout::{broadcast, Delivery};
pub use text::normalize_line;
