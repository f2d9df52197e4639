//! The handle through which clients query the oracle of a node.
use std::marker::PhantomData;
use std::sync::Arc;
use vstd::prelude::*;

verus! {

/// Why a client query failed.
#[derive(Clone, Copy, Debug, PartialEq, Eq, Structural)]
pub enum Error {
    /// The node could not answer.
    RuntimeError,
}

impl From<Error> for i64 {
    /// The error code reported to clients.
    fn from(e: Error) -> (r: i64) {
        match e {
            Error::RuntimeError => 1,
        }
    }
}

impl vstd::std_specs::convert::FromSpecImpl<Error> for i64 {
    open spec fn obeys_from_spec() -> bool {
        true
    }

    open spec fn from_spec(e: Error) -> i64 {
        match e {
            Error::RuntimeError => 1,
        }
    }
}

/// Query methods for the oracle, over a client `C` of blocks `B`.
pub struct Oracle<C, B> {
    client: Arc<C>,
    _marker: PhantomData<B>,
}

impl<C, B> Oracle<C, B> {
    /// The client that answers the queries.
    pub closed spec fn spec_client(&self) -> Arc<C> {
        self.client
    }

    /// A handle over `client`.
    pub fn new(client: Arc<C>) -> (r: Self)
        ensures
            r.spec_client() == client,
    {
        Oracle { client, _marker: PhantomData }
    }

    /// The client that answers the queries.
    pub fn client(&self) -> (r: &Arc<C>)
        ensures
            *r == self.spec_client(),
    {
        &self.client
    }
}

} // verus!
