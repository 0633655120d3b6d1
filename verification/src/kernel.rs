//! The transactor: it takes batches of requests apart and hands each part
//! to the service that answers it.

use vstd::prelude::*;

verus! {

/// A batch of requests: those on databases and those on universes.
#[derive(Debug, PartialEq, Eq)]
pub struct BatchRequest<D, U> {
    pub databases: Vec<D>,
    pub universes: Vec<U>,
}

/// The answers to a batch.
#[derive(Debug, PartialEq, Eq)]
pub struct BatchResponse<D, U> {
    pub databases: Vec<D>,
    pub universes: Vec<U>,
}

/// The requests of a batch that go to the supervisor: its requests on
/// universes, if it has any. Batches with requests on databases are not
/// served.
pub fn supervisor_requests<D, U>(batch_req: BatchRequest<D, U>) -> (universes: Option<Vec<U>>)
    requires
        batch_req.databases@.len() == 0,
    ensures
        universes == if batch_req.universes@.len() > 0 {
            Some(batch_req.universes)
        } else {
            None
        },
{
    if batch_req.universes.len() > 0 {
        Some(batch_req.universes)
    } else {
        None
    }
}

/// The answer to a batch, from what the supervisor answered, if it was
/// asked: its answers on universes, and none on databases.
pub fn batch_response<D, U>(supervisor: Option<Vec<U>>) -> (batch_res: BatchResponse<D, U>)
    ensures
        batch_res.databases@.len() == 0,
        match supervisor {
            Some(universes) => batch_res.universes == universes,
            None => batch_res.universes@.len() == 0,
        },
{
    match supervisor {
        Some(universes) => BatchResponse { databases: Vec::new(), universes },
        None => BatchResponse { databases: Vec::new(), universes: Vec::new() },
    }
}

} // verus!
