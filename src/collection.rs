use vstd::prelude::*;

use crate::attributes::{encode, encode_spec, native_view, Attributes};
use crate::bridge::Pending;
use crate::error::Error;
use crate::flags::{ItemCreateFlags, SearchFlags};
use crate::item::Item;
use crate::request::{can_dispatch, dispatch, registered, Dispatch, Request};
use crate::schema::Schema;

verus! {

/// A named group of items in the store.
#[derive(Clone, Debug)]
pub struct Collection {
    pub path: String,
    pub label: String,
}

impl Collection {
    pub fn get_label(&self) -> (r: &str)
        ensures
            r@ == self.label@,
    {
        self.label.as_str()
    }

    /// Asks the service to create a collection labelled `label`.
    pub fn create<F: FnOnce(Result<Collection, Error>)>(
        label: &str,
        callback: F,
        pending: &mut Pending<Collection, F>,
    ) -> (d: Dispatch)
        requires
            can_dispatch(*old(pending), callback),
        ensures
            registered(*old(pending), *final(pending), d, callback),
            d.request matches Request::CreateCollection { label: l } && l@ == label@,
    {
        dispatch(pending, Request::CreateCollection { label: label.to_owned() }, callback)
    }

    /// Asks the service to delete this collection.
    pub fn delete<F: FnOnce(Result<bool, Error>)>(
        &self,
        callback: F,
        pending: &mut Pending<bool, F>,
    ) -> (d: Dispatch)
        requires
            can_dispatch(*old(pending), callback),
        ensures
            registered(*old(pending), *final(pending), d, callback),
            d.request matches Request::DeleteCollection { collection } && collection@
                == self.path@,
    {
        dispatch(pending, Request::DeleteCollection { collection: self.path.clone() }, callback)
    }

    /// Asks the service to store `password` as a text item of this
    /// collection, replacing an item whose attributes match. Fails with
    /// `SchemaMismatch`, registering nothing, when `attributes` do not
    /// conform to `schema`.
    pub fn item_create<F: FnOnce(Result<Item, Error>)>(
        &self,
        schema: &Schema,
        label: &str,
        password: &str,
        attributes: &Attributes,
        callback: F,
        pending: &mut Pending<Item, F>,
    ) -> (r: Result<Dispatch, Error>)
        requires
            can_dispatch(*old(pending), callback),
        ensures
            r is Err <==> encode_spec(*schema, attributes@) is None,
            r matches Err(e) ==> e is SchemaMismatch && *final(pending) == *old(pending),
            r matches Ok(d) ==> {
                &&& registered(*old(pending), *final(pending), d, callback)
                &&& d.request matches Request::CreateItem {
                    collection,
                    attributes: n,
                    label: l,
                    secret,
                    content_type,
                    flags,
                } && collection@ == self.path@ && encode_spec(*schema, attributes@) == Some(
                    native_view(n@),
                ) && l@ == label@ && secret@ == password@ && content_type@ == "text/plain"@
                    && flags.replace
            },
    {
        let n = match encode(schema, attributes) {
            Ok(n) => n,
            Err(e) => return Err(e),
        };
        let request = Request::CreateItem {
            collection: self.path.clone(),
            attributes: n,
            label: label.to_owned(),
            secret: password.to_owned(),
            content_type: String::from_str("text/plain"),
            flags: ItemCreateFlags::replace(),
        };
        Ok(dispatch(pending, request, callback))
    }

    /// Asks the service for the items of this collection whose attributes
    /// match `attributes`, unlocked and with their secrets. Fails with
    /// `SchemaMismatch`, registering nothing, when `attributes` do not
    /// conform to `schema`.
    pub fn search<F: FnOnce(Result<Vec<Item>, Error>)>(
        &self,
        schema: &Schema,
        attributes: &Attributes,
        callback: F,
        pending: &mut Pending<Vec<Item>, F>,
    ) -> (r: Result<Dispatch, Error>)
        requires
            can_dispatch(*old(pending), callback),
        ensures
            r is Err <==> encode_spec(*schema, attributes@) is None,
            r matches Err(e) ==> e is SchemaMismatch && *final(pending) == *old(pending),
            r matches Ok(d) ==> {
                &&& registered(*old(pending), *final(pending), d, callback)
                &&& d.request matches Request::SearchCollection { collection, attributes: n, flags }
                    && collection@ == self.path@ && encode_spec(*schema, attributes@) == Some(
                    native_view(n@),
                ) && flags.all && flags.unlock && flags.load_secrets
            },
    {
        let n = match encode(schema, attributes) {
            Ok(n) => n,
            Err(e) => return Err(e),
        };
        let request = Request::SearchCollection {
            collection: self.path.clone(),
            attributes: n,
            flags: SearchFlags::default_search(),
        };
        Ok(dispatch(pending, request, callback))
    }
}

} // verus!
