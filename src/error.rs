use vstd::prelude::*;

verus! {

/// Why a line of input or a directory operation was refused.
#[derive(Clone, Copy, Debug, PartialEq, Eq, Structural)]
pub enum ChatError {
    /// The line held nothing but whitespace.
    EmptyInput,
    /// The line does not start with `#`.
    MalformedCommand,
    /// A known command with the wrong number of arguments.
    UsageError,
    /// A command word that the interpreter does not know.
    UnknownCommand,
    /// The handle is already registered.
    AlreadyExists,
    /// The handle is not registered.
    NotFound,
    /// The handle is already bound to a live connection.
    AlreadyOnline,
    /// The credential does not match the stored one.
    WrongCredential,
    /// The handle is absent or offline.
    NotLoggedIn,
}

/// The line written back to the client for each error.
pub open spec fn error_text(e: ChatError) -> Seq<char> {
    match e {
        ChatError::EmptyInput => "\n"@,
        ChatError::MalformedCommand => "malformed command\n"@,
        ChatError::UsageError => "usage error\n"@,
        ChatError::UnknownCommand => "unknown command\n"@,
        ChatError::AlreadyExists => "nickname already taken\n"@,
        ChatError::NotFound => "no such nickname, register first\n"@,
        ChatError::AlreadyOnline => "user already logged in\n"@,
        ChatError::WrongCredential => "wrong credential\n"@,
        ChatError::NotLoggedIn => "not logged in\n"@,
    }
}

impl ChatError {
    /// The line written back to the client for this error.
    pub fn message(&self) -> (r: String)
        ensures
            r@ == error_text(*self),
    {
        match self {
            ChatError::EmptyInput => String::from_str("\n"),
            ChatError::MalformedCommand => String::from_str("malformed command\n"),
            ChatError::UsageError => String::from_str("usage error\n"),
            ChatError::UnknownCommand => String::from_str("unknown command\n"),
            ChatError::AlreadyExists => String::from_str("nickname already taken\n"),
            ChatError::NotFound => String::from_str("no such nickname, register first\n"),
            ChatError::AlreadyOnline => String::from_str("user already logged in\n"),
            ChatError::WrongCredential => String::from_str("wrong credential\n"),
            ChatError::NotLoggedIn => String::from_str("not logged in\n"),
        }
    }
}

} // verus!
