use vstd::prelude::*;

use crate::attributes::{encode, encode_spec, native_view, Attributes};
use crate::bridge::Pending;
use crate::error::Error;
use crate::flags::SearchFlags;
use crate::item::Item;
use crate::request::{can_dispatch, dispatch, registered, Dispatch, Request};
use crate::schema::Schema;

verus! {

/// Secrets of one schema, in the default collection unless one is named.
#[derive(Debug)]
pub struct Passwords {
    pub collection: Option<String>,
    pub schema: Schema,
}

impl Passwords {
    pub fn new(schema: Schema) -> (r: Passwords)
        ensures
            r.collection is None,
            r.schema == schema,
    {
        Passwords { collection: None, schema }
    }

    /// Asks the service to store `password` under `label` with `attributes`.
    /// Fails with `SchemaMismatch`, registering nothing, when `attributes`
    /// do not conform to the schema.
    pub fn store<F: FnOnce(Result<bool, Error>)>(
        &self,
        label: &str,
        password: &str,
        attributes: &Attributes,
        callback: F,
        pending: &mut Pending<bool, F>,
    ) -> (r: Result<Dispatch, Error>)
        requires
            can_dispatch(*old(pending), callback),
        ensures
            r is Err <==> encode_spec(self.schema, attributes@) is None,
            r matches Err(e) ==> e is SchemaMismatch && *final(pending) == *old(pending),
            r matches Ok(d) ==> {
                &&& registered(*old(pending), *final(pending), d, callback)
                &&& d.request matches Request::StorePassword {
                    collection,
                    attributes: n,
                    label: l,
                    password: p,
                } && collection == self.collection && encode_spec(self.schema, attributes@)
                    == Some(native_view(n@)) && l@ == label@ && p@ == password@
            },
    {
        let n = match encode(&self.schema, attributes) {
            Ok(n) => n,
            Err(e) => return Err(e),
        };
        let request = Request::StorePassword {
            collection: self.collection.clone(),
            attributes: n,
            label: label.to_owned(),
            password: password.to_owned(),
        };
        Ok(dispatch(pending, request, callback))
    }

    /// Asks the service for the secret of the item that matches
    /// `attributes`. Fails with `SchemaMismatch`, registering nothing, when
    /// `attributes` do not conform to the schema.
    pub fn lookup<F: FnOnce(Result<String, Error>)>(
        &self,
        attributes: &Attributes,
        callback: F,
        pending: &mut Pending<String, F>,
    ) -> (r: Result<Dispatch, Error>)
        requires
            can_dispatch(*old(pending), callback),
        ensures
            r is Err <==> encode_spec(self.schema, attributes@) is None,
            r matches Err(e) ==> e is SchemaMismatch && *final(pending) == *old(pending),
            r matches Ok(d) ==> {
                &&& registered(*old(pending), *final(pending), d, callback)
                &&& d.request matches Request::LookupPassword { attributes: n } && encode_spec(
                    self.schema,
                    attributes@,
                ) == Some(native_view(n@))
            },
    {
        let n = match encode(&self.schema, attributes) {
            Ok(n) => n,
            Err(e) => return Err(e),
        };
        Ok(dispatch(pending, Request::LookupPassword { attributes: n }, callback))
    }

    /// Asks the service for the items that match `attributes`, unlocked and
    /// with their secrets. Fails with `SchemaMismatch`, registering nothing,
    /// when `attributes` do not conform to the schema.
    pub fn search_matching<F: FnOnce(Result<Vec<Item>, Error>)>(
        &self,
        attributes: &Attributes,
        callback: F,
        pending: &mut Pending<Vec<Item>, F>,
    ) -> (r: Result<Dispatch, Error>)
        requires
            can_dispatch(*old(pending), callback),
        ensures
            r is Err <==> encode_spec(self.schema, attributes@) is None,
            r matches Err(e) ==> e is SchemaMismatch && *final(pending) == *old(pending),
            r matches Ok(d) ==> {
                &&& registered(*old(pending), *final(pending), d, callback)
                &&& d.request matches Request::SearchPasswords { attributes: n, flags }
                    && encode_spec(self.schema, attributes@) == Some(native_view(n@)) && flags.all
                    && flags.unlock && flags.load_secrets
            },
    {
        let n = match encode(&self.schema, attributes) {
            Ok(n) => n,
            Err(e) => return Err(e),
        };
        let request = Request::SearchPasswords {
            attributes: n,
            flags: SearchFlags::default_search(),
        };
        Ok(dispatch(pending, request, callback))
    }

    /// Asks the service for every item of the schema, unlocked and with
    /// their secrets.
    pub fn search<F: FnOnce(Result<Vec<Item>, Error>)>(
        &self,
        callback: F,
        pending: &mut Pending<Vec<Item>, F>,
    ) -> (d: Dispatch)
        requires
            can_dispatch(*old(pending), callback),
        ensures
            registered(*old(pending), *final(pending), d, callback),
            d.request matches Request::SearchPasswords { attributes: n, flags } && n@.len() == 0
                && flags.all && flags.unlock && flags.load_secrets,
    {
        let request = Request::SearchPasswords {
            attributes: Vec::new(),
            flags: SearchFlags::default_search(),
        };
        dispatch(pending, request, callback)
    }

    /// Asks the service to remove every item that matches `attributes`.
    /// Fails with `SchemaMismatch`, registering nothing, when `attributes`
    /// do not conform to the schema.
    pub fn clear<F: FnOnce(Result<bool, Error>)>(
        &self,
        attributes: &Attributes,
        callback: F,
        pending: &mut Pending<bool, F>,
    ) -> (r: Result<Dispatch, Error>)
        requires
            can_dispatch(*old(pending), callback),
        ensures
            r is Err <==> encode_spec(self.schema, attributes@) is None,
            r matches Err(e) ==> e is SchemaMismatch && *final(pending) == *old(pending),
            r matches Ok(d) ==> {
                &&& registered(*old(pending), *final(pending), d, callback)
                &&& d.request matches Request::ClearPasswords { attributes: n } && encode_spec(
                    self.schema,
                    attributes@,
                ) == Some(native_view(n@))
            },
    {
        let n = match encode(&self.schema, attributes) {
            Ok(n) => n,
            Err(e) => return Err(e),
        };
        Ok(dispatch(pending, Request::ClearPasswords { attributes: n }, callback))
    }
}

} // verus!
