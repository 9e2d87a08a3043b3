//! Events that the remote endpoint pushes to its subscribers.

use vstd::prelude::*;

verus! {

/// A decoded event. The router reads nothing of it but `query`.
#[derive(Debug, PartialEq, Eq)]
pub struct Event {
    /// The query that produced the event.
    pub query: String,
    /// The payload, opaque to the router.
    pub data: String,
}

impl Clone for Event {
    fn clone(&self) -> (ev: Event)
        ensures
            ev == *self,
    {
        Event { query: self.query.clone(), data: self.data.clone() }
    }
}

} // verus!
