//! The errors that the subscription core produces or passes on.

use vstd::prelude::*;

verus! {

/// An error that the subscription core produces or passes on.
#[derive(Debug, PartialEq, Eq)]
pub enum Error {
    /// The transport failed to send or to receive.
    Transport(String),
    /// The remote endpoint answered a request with an error.
    Server(String),
    /// The client's own bookkeeping failed: a result channel was gone before
    /// the reply, for one, or closed without one.
    Internal(String),
    /// A JSON-RPC id was absent where a subscription id was to be made of it.
    IdConversion,
}

/// An [`Error`] with its message as a sequence of characters.
pub enum ErrorView {
    Transport(Seq<char>),
    Server(Seq<char>),
    Internal(Seq<char>),
    IdConversion,
}

impl View for Error {
    type V = ErrorView;

    open spec fn view(&self) -> ErrorView {
        match *self {
            Error::Transport(m) => ErrorView::Transport(m@),
            Error::Server(m) => ErrorView::Server(m@),
            Error::Internal(m) => ErrorView::Internal(m@),
            Error::IdConversion => ErrorView::IdConversion,
        }
    }
}

impl Clone for Error {
    fn clone(&self) -> (e: Error)
        ensures
            e == *self,
    {
        match self {
            Error::Transport(m) => Error::Transport(m.clone()),
            Error::Server(m) => Error::Server(m.clone()),
            Error::Internal(m) => Error::Internal(m.clone()),
            Error::IdConversion => Error::IdConversion,
        }
    }
}

impl Error {
    /// An internal error of the client with the given message.
    pub fn client_internal_error(message: String) -> (e: Error)
        ensures
            e == Error::Internal(message),
    {
        Error::Internal(message)
    }
}

} // verus!
