//! The JSON-RPC correlation id, as far as subscriptions need it.

use vstd::prelude::*;

verus! {

/// The id that correlates a JSON-RPC request with its response.
#[derive(Debug, PartialEq, Eq)]
pub enum Id {
    /// A numerical id.
    Num(u64),
    /// A string id.
    Str(String),
    /// No id at all, as in a notification.
    Absent,
}

/// An [`Id`] with its string as a sequence of characters.
pub enum IdView {
    Num(u64),
    Str(Seq<char>),
    Absent,
}

impl View for Id {
    type V = IdView;

    open spec fn view(&self) -> IdView {
        match *self {
            Id::Num(n) => IdView::Num(n),
            Id::Str(s) => IdView::Str(s@),
            Id::Absent => IdView::Absent,
        }
    }
}

impl Clone for Id {
    fn clone(&self) -> (id: Id)
        ensures
            id == *self,
    {
        match self {
            Id::Num(n) => Id::Num(*n),
            Id::Str(s) => Id::Str(s.clone()),
            Id::Absent => Id::Absent,
        }
    }
}

} // verus!
