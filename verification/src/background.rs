//! The data that the simulated application keeps in its replicated log
//! and in its state machine.

use vstd::prelude::*;

verus! {

/// What a client request asks the application to log.
#[derive(Clone)]
pub struct DummyLogData {
    pub msg: String,
}

/// The application's state machine: how many client requests it has
/// applied, and the last membership configuration it has applied.
pub struct DummyState<M> {
    pub num_requests: u64,
    pub membership: M,
}

/// The (empty) answer of the application to an applied entry.
pub struct DummyLogResponse;

} // verus!
