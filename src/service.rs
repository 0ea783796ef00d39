use vstd::prelude::*;

use crate::bridge::Pending;
use crate::collection::Collection;
use crate::error::Error;
use crate::flags::ServiceFlags;
use crate::request::{can_dispatch, dispatch, registered, Dispatch, Request};

verus! {

/// A session with the secret store, and the collections it has loaded.
#[derive(Clone, Debug)]
pub struct Service {
    collections: Vec<Collection>,
    loaded: bool,
}

impl Service {
    pub closed spec fn spec_collections(&self) -> Seq<Collection> {
        self.collections@
    }

    pub closed spec fn spec_loaded(&self) -> bool {
        self.loaded
    }

    /// A session just connected: no collection loaded yet.
    pub fn connected() -> (r: Service)
        ensures
            !r.spec_loaded(),
            r.spec_collections().len() == 0,
    {
        Service { collections: Vec::new(), loaded: false }
    }

    /// Asks the service for a session; `callback` gets it.
    pub fn get<F: FnOnce(Result<Service, Error>)>(
        callback: F,
        pending: &mut Pending<Service, F>,
    ) -> (d: Dispatch)
        requires
            can_dispatch(*old(pending), callback),
        ensures
            registered(*old(pending), *final(pending), d, callback),
            d.request matches Request::GetService { flags } && !flags.open_session
                && !flags.load_collections,
    {
        dispatch(pending, Request::GetService { flags: ServiceFlags::none() }, callback)
    }

    /// Asks the service to load this session's collections.
    pub fn load_collections<F: FnOnce(Result<bool, Error>)>(
        &self,
        callback: F,
        pending: &mut Pending<bool, F>,
    ) -> (d: Dispatch)
        requires
            can_dispatch(*old(pending), callback),
        ensures
            registered(*old(pending), *final(pending), d, callback),
            d.request is LoadCollections,
    {
        dispatch(pending, Request::LoadCollections, callback)
    }

    /// Records the collections that a completed load reported.
    pub fn set_collections(&mut self, collections: Vec<Collection>)
        ensures
            final(self).spec_loaded(),
            final(self).spec_collections() == collections@,
    {
        self.collections = collections;
        self.loaded = true;
    }

    /// The collections loaded so far; none before a load completed.
    pub fn get_collections(&self) -> (r: &Vec<Collection>)
        ensures
            r@ == self.spec_collections(),
    {
        &self.collections
    }

    pub fn collections_loaded(&self) -> (r: bool)
        ensures
            r == self.spec_loaded(),
    {
        self.loaded
    }
}

} // verus!
