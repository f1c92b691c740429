//! Error kinds shared by the whole analysis pipeline.
//!
//! Every failure is file-local: a file whose parse, read or storage fails is
//! skipped and reported, and the rest of the build goes on.

use vstd::prelude::*;

verus! {

/// One error of the pipeline, carrying a human-readable detail message.
#[derive(Debug, PartialEq, Eq)]
pub enum McpError {
    /// An I/O or transport failure (unreadable file, unsupported file type).
    Transport(String),
    /// A dispatch failure (no parser for a language, grammar rejected).
    Dispatch(String),
    /// A failure of the persistence collaborator.
    Database(String),
    /// Anything else.
    Unknown(String),
}

impl McpError {
    /// The detail message carried by the error, whatever its kind.
    pub fn message(&self) -> (r: String)
        ensures
            r@ == self.spec_message(),
    {
        match self {
            McpError::Transport(m) => m.clone(),
            McpError::Dispatch(m) => m.clone(),
            McpError::Database(m) => m.clone(),
            McpError::Unknown(m) => m.clone(),
        }
    }

    /// The detail message, as a sequence of characters.
    pub open spec fn spec_message(&self) -> Seq<char> {
        match self {
            McpError::Transport(m) => m@,
            McpError::Dispatch(m) => m@,
            McpError::Database(m) => m@,
            McpError::Unknown(m) => m@,
        }
    }
}

pub type McpResult<T> = Result<T, McpError>;

} // verus!
