//! Error kinds shared by the library.

use vstd::prelude::*;

verus! {

/// Everything that can go wrong in the timer library or around it.
///
/// `Exit` is not a failure: it is the signal produced by `Esc`/`q` that
/// unwinds the event loop and is turned into a normal exit at the top level.
#[derive(Debug, Clone, PartialEq, Eq)]
pub enum Error {
    /// A filesystem read or write failed; the message comes from the caller.
    Io(String),
    /// A session with the requested name already exists.
    AlreadyExists,
    /// The requested session does not exist.
    NoSuchSession,
    /// Anything else, such as invalid command-line usage.
    Msg(String),
    /// The user asked to leave the program.
    Exit,
}

impl Error {
    /// A human-readable description of the error.
    pub fn message(&self) -> (r: String)
        ensures
            self is AlreadyExists ==> r@ == "session with this name already exists"@,
            self is NoSuchSession ==> r@ == "non existing session"@,
            self is Exit ==> r@ == "exit"@,
            self matches Error::Msg(m) ==> r@ == m@,
            self matches Error::Io(m) ==> r@ == m@,
    {
        match self {
            Error::Io(m) => m.clone(),
            Error::AlreadyExists => {
                String::from_str("session with this name already exists")
            },
            Error::NoSuchSession => String::from_str("non existing session"),
            Error::Msg(m) => m.clone(),
            Error::Exit => String::from_str("exit"),
        }
    }
}

} // verus!
